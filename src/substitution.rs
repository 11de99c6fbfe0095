use vstd::prelude::*;
use vstd::utf8::encode_utf8;

verus! {

/// The UTF-8 bytes of a string.
pub open spec fn utf8_of(s: &String) -> Seq<u8> {
    encode_utf8(s@)
}

/// `$CHAIN_`: the bytes that open a placeholder.
pub open spec fn placeholder_prefix() -> Seq<u8> {
    seq![36u8, 67u8, 72u8, 65u8, 73u8, 78u8, 95u8]
}

/// The length of `$CHAIN_`.
pub const PREFIX_LEN: usize = 7;

/// A byte that may continue a placeholder name: `A`-`Z`, `0`-`9` or `_`.
pub open spec fn is_name_byte(b: u8) -> bool {
    (65u8 <= b && b <= 90u8) || b == 95u8 || (48u8 <= b && b <= 57u8)
}

/// Whether a placeholder opens at index `i` of `t`.
pub open spec fn opens_placeholder(t: Seq<u8>, i: int) -> bool {
    0 <= i && i + 7 <= t.len() && t.subrange(i, i + 7) == placeholder_prefix()
}

/// The number of name bytes in the run that starts at index `j`.
pub open spec fn name_run(t: Seq<u8>, j: int) -> nat
    decreases t.len() - j,
{
    if 0 <= j < t.len() && is_name_byte(t[j]) {
        1 + name_run(t, j + 1)
    } else {
        0
    }
}

/// A run of name bytes never reaches past the end of the text.
pub proof fn lemma_name_run_bound(t: Seq<u8>, j: int)
    requires
        0 <= j <= t.len(),
    ensures
        j + name_run(t, j) <= t.len(),
    decreases t.len() - j,
{
    if j < t.len() && is_name_byte(t[j]) {
        lemma_name_run_bound(t, j + 1);
    }
}

/// The index just past the placeholder that opens at `i`.
pub open spec fn placeholder_end(t: Seq<u8>, i: int) -> int {
    i + 7 + name_run(t, i + 7)
}

/// The variable named by the placeholder that opens at `i`: its bytes
/// without the leading `$`, so `CHAIN_` followed by the name run.
pub open spec fn placeholder_name(t: Seq<u8>, i: int) -> Seq<u8> {
    t.subrange(i + 1, placeholder_end(t, i))
}

/// The value of the first pair whose key is `name`.
pub open spec fn lookup(vars: Seq<(String, String)>, name: Seq<u8>) -> Option<Seq<u8>>
    decreases vars.len(),
{
    if vars.len() == 0 {
        None
    } else if utf8_of(&vars[0].0) == name {
        Some(utf8_of(&vars[0].1))
    } else {
        lookup(vars.drop_first(), name)
    }
}

/// The value of variable `name`: the environment snapshot first, then the
/// settings' overrides; `None` when neither has it.
pub open spec fn resolve_spec(
    env: Seq<(String, String)>,
    overrides: Seq<(String, String)>,
    name: Seq<u8>,
) -> Option<Seq<u8>> {
    match lookup(env, name) {
        Some(v) => Some(v),
        None => lookup(overrides, name),
    }
}

/// What a placeholder is replaced with: its value, or nothing.
pub open spec fn replacement(
    env: Seq<(String, String)>,
    overrides: Seq<(String, String)>,
    name: Seq<u8>,
) -> Seq<u8> {
    match resolve_spec(env, overrides, name) {
        Some(v) => v,
        None => Seq::empty(),
    }
}

/// The rendering of `t` from index `i` on: every placeholder is replaced,
/// every other byte is kept.
pub open spec fn render_from(
    t: Seq<u8>,
    i: int,
    env: Seq<(String, String)>,
    overrides: Seq<(String, String)>,
) -> Seq<u8>
    decreases t.len() - i
    via render_from_decreases
{
    if i < 0 || i >= t.len() {
        Seq::empty()
    } else if opens_placeholder(t, i) {
        replacement(env, overrides, placeholder_name(t, i)) + render_from(
            t,
            i + 7 + name_run(t, i + 7),
            env,
            overrides,
        )
    } else {
        seq![t[i]] + render_from(t, i + 1, env, overrides)
    }
}

#[via_fn]
proof fn render_from_decreases(
    t: Seq<u8>,
    i: int,
    env: Seq<(String, String)>,
    overrides: Seq<(String, String)>,
) {
    if 0 <= i < t.len() && opens_placeholder(t, i) {
        lemma_name_run_bound(t, i + 7);
    }
}

/// The names of the placeholders from index `i` on that neither source
/// defines, in order of appearance.
pub open spec fn unresolved_from(
    t: Seq<u8>,
    i: int,
    env: Seq<(String, String)>,
    overrides: Seq<(String, String)>,
) -> Seq<Seq<u8>>
    decreases t.len() - i
    via unresolved_from_decreases
{
    if i < 0 || i >= t.len() {
        Seq::empty()
    } else if opens_placeholder(t, i) {
        let rest = unresolved_from(t, i + 7 + name_run(t, i + 7), env, overrides);
        if resolve_spec(env, overrides, placeholder_name(t, i)) is Some {
            rest
        } else {
            seq![placeholder_name(t, i)] + rest
        }
    } else {
        unresolved_from(t, i + 1, env, overrides)
    }
}

#[via_fn]
proof fn unresolved_from_decreases(
    t: Seq<u8>,
    i: int,
    env: Seq<(String, String)>,
    overrides: Seq<(String, String)>,
) {
    if 0 <= i < t.len() && opens_placeholder(t, i) {
        lemma_name_run_bound(t, i + 7);
    }
}

/// The rendering of a whole text.
pub open spec fn render_spec(
    t: Seq<u8>,
    env: Seq<(String, String)>,
    overrides: Seq<(String, String)>,
) -> Seq<u8> {
    render_from(t, 0, env, overrides)
}

/// Bytes without a `$` are copied as they are and report nothing.
proof fn lemma_plain_run(
    t: Seq<u8>,
    j: int,
    i: int,
    env: Seq<(String, String)>,
    overrides: Seq<(String, String)>,
)
    requires
        0 <= j <= i <= t.len(),
        forall|k: int| j <= k < i ==> t[k] != 36u8,
    ensures
        render_from(t, j, env, overrides) == t.subrange(j, i) + render_from(t, i, env, overrides),
        unresolved_from(t, j, env, overrides) == unresolved_from(t, i, env, overrides),
    decreases i - j,
{
    if j < i {
        lemma_plain_run(t, j + 1, i, env, overrides);
        assert(!opens_placeholder(t, j)) by {
            if opens_placeholder(t, j) {
                assert(t.subrange(j, j + 7)[0] == t[j]);
            }
        }
        assert(t.subrange(j, i) =~= seq![t[j]] + t.subrange(j + 1, i));
    } else {
        assert(t.subrange(j, i) =~= Seq::<u8>::empty());
    }
}

/// The first placeholder of a text (no `$` before it) is replaced by the
/// value of its variable: the environment's value when the environment
/// has the variable, whatever the settings hold; else the settings' value;
/// else nothing, and then its name is the first one reported.
pub proof fn lemma_placeholder_substitution(
    t: Seq<u8>,
    i: int,
    env: Seq<(String, String)>,
    overrides: Seq<(String, String)>,
)
    requires
        opens_placeholder(t, i),
        forall|k: int| 0 <= k < i ==> t[k] != 36u8,
    ensures
        render_spec(t, env, overrides) == t.subrange(0, i) + replacement(
            env,
            overrides,
            placeholder_name(t, i),
        ) + render_from(t, placeholder_end(t, i), env, overrides),
        lookup(env, placeholder_name(t, i)) is Some ==> replacement(
            env,
            overrides,
            placeholder_name(t, i),
        ) == lookup(env, placeholder_name(t, i))->0,
        lookup(env, placeholder_name(t, i)) is None && lookup(overrides, placeholder_name(t, i)) is Some
            ==> replacement(env, overrides, placeholder_name(t, i)) == lookup(
            overrides,
            placeholder_name(t, i),
        )->0,
        resolve_spec(env, overrides, placeholder_name(t, i)) is None ==> replacement(
            env,
            overrides,
            placeholder_name(t, i),
        ) == Seq::<u8>::empty() && unresolved_from(t, 0, env, overrides).len() > 0
            && unresolved_from(t, 0, env, overrides)[0] == placeholder_name(t, i),
{
    lemma_plain_run(t, 0, i, env, overrides);
    let name = placeholder_name(t, i);
    assert(render_from(t, i, env, overrides) == replacement(env, overrides, name) + render_from(
        t,
        placeholder_end(t, i),
        env,
        overrides,
    ));
    if resolve_spec(env, overrides, name) is None {
        assert(unresolved_from(t, i, env, overrides) == seq![name] + unresolved_from(
            t,
            placeholder_end(t, i),
            env,
            overrides,
        ));
    }
}

/// The views of a list of byte strings.
pub open spec fn byte_strings(v: Seq<Vec<u8>>) -> Seq<Seq<u8>> {
    v.map_values(|b: Vec<u8>| b@)
}

/// A rendered text and the placeholders that had no value.
pub struct Rendered {
    pub text: Vec<u8>,
    pub unresolved: Vec<Vec<u8>>,
}

/// Whether two byte strings are equal.
pub fn bytes_eq(a: &[u8], b: &[u8]) -> (r: bool)
    ensures
        r == (a@ == b@),
{
    if a.len() != b.len() {
        return false;
    }
    let mut i: usize = 0;
    while i < a.len()
        invariant
            a.len() == b.len(),
            i <= a.len(),
            forall|k: int| 0 <= k < i ==> a@[k] == b@[k],
        decreases a.len() - i,
    {
        if a[i] != b[i] {
            return false;
        }
        i += 1;
    }
    assert(a@ =~= b@);
    true
}

/// Appends `b` to `out`.
pub fn extend_bytes(out: &mut Vec<u8>, b: &[u8])
    ensures
        final(out)@ == old(out)@ + b@,
{
    let mut i: usize = 0;
    while i < b.len()
        invariant
            i <= b.len(),
            out@ == old(out)@ + b@.subrange(0, i as int),
        decreases b.len() - i,
    {
        out.push(b[i]);
        i += 1;
        assert(out@ =~= old(out)@ + b@.subrange(0, i as int));
    }
    assert(b@.subrange(0, b.len() as int) =~= b@);
}

/// The value of the first pair whose key is `name`, as bytes.
pub fn lookup_var<'a>(vars: &'a Vec<(String, String)>, name: &[u8]) -> (r: Option<&'a [u8]>)
    ensures
        match r {
            Some(v) => lookup(vars@, name@) == Some(v@),
            None => lookup(vars@, name@) is None,
        },
{
    let mut i: usize = 0;
    assert(vars@.subrange(0, vars.len() as int) =~= vars@);
    while i < vars.len()
        invariant
            i <= vars.len(),
            lookup(vars@, name@) == lookup(vars@.subrange(i as int, vars.len() as int), name@),
        decreases vars.len() - i,
    {
        let key = vars[i].0.as_str().as_bytes();
        assert(vars@.subrange(i as int, vars.len() as int).drop_first() =~= vars@.subrange(
            i as int + 1,
            vars.len() as int,
        ));
        if bytes_eq(key, name) {
            return Some(vars[i].1.as_str().as_bytes());
        }
        i += 1;
    }
    assert(vars@.subrange(i as int, vars.len() as int).len() == 0);
    None
}

/// The value of variable `name`: the environment snapshot wins over the
/// settings' overrides; `None` when neither defines it.
pub fn resolve<'a>(
    env: &'a Vec<(String, String)>,
    overrides: &'a Vec<(String, String)>,
    name: &[u8],
) -> (r: Option<&'a [u8]>)
    ensures
        match r {
            Some(v) => resolve_spec(env@, overrides@, name@) == Some(v@),
            None => resolve_spec(env@, overrides@, name@) is None,
        },
        lookup(env@, name@) is Some ==> r is Some && lookup(env@, name@) == Some(r->0@),
{
    match lookup_var(env, name) {
        Some(v) => Some(v),
        None => lookup_var(overrides, name),
    }
}

/// Whether a placeholder opens at index `i` of `t`.
fn opens_at(t: &[u8], i: usize) -> (r: bool)
    ensures
        r == opens_placeholder(t@, i as int),
{
    if i > t.len() || t.len() - i < PREFIX_LEN {
        return false;
    }
    let r = t[i] == 36u8 && t[i + 1] == 67u8 && t[i + 2] == 72u8 && t[i + 3] == 65u8 && t[i + 4]
        == 73u8 && t[i + 5] == 78u8 && t[i + 6] == 95u8;
    let ghost sub = t@.subrange(i as int, i + 7);
    if r {
        assert(sub =~= placeholder_prefix());
    } else {
        proof {
            if sub == placeholder_prefix() {
                assert(sub[0] == t@[i as int]);
                assert(sub[1] == t@[i + 1]);
                assert(sub[2] == t@[i + 2]);
                assert(sub[3] == t@[i + 3]);
                assert(sub[4] == t@[i + 4]);
                assert(sub[5] == t@[i + 5]);
                assert(sub[6] == t@[i + 6]);
            }
        }
    }
    r
}

/// Copies `t[from..to]`.
fn copy_range(t: &[u8], from: usize, to: usize) -> (r: Vec<u8>)
    requires
        from <= to <= t.len(),
    ensures
        r@ == t@.subrange(from as int, to as int),
{
    let mut r: Vec<u8> = Vec::new();
    let mut k: usize = from;
    while k < to
        invariant
            from <= k <= to,
            to <= t.len(),
            r@ == t@.subrange(from as int, k as int),
        decreases to - k,
    {
        r.push(t[k]);
        k += 1;
        assert(r@ =~= t@.subrange(from as int, k as int));
    }
    r
}

/// Replaces every placeholder `$CHAIN_<NAME>` of `text` (`<NAME>` being a
/// possibly empty run of `A`-`Z`, `0`-`9` and `_`) by the value of the
/// variable `CHAIN_<NAME>`: taken from `env` (a snapshot of the process
/// environment) if it is there, else from `overrides` (the settings'
/// variables), else the empty string. The names that had no value are
/// reported, in order, so that the caller can warn about them.
pub fn render(text: &[u8], env: &Vec<(String, String)>, overrides: &Vec<(String, String)>) -> (r:
    Rendered)
    ensures
        r.text@ == render_spec(text@, env@, overrides@),
        byte_strings(r.unresolved@) == unresolved_from(text@, 0, env@, overrides@),
{
    let ghost t = text@;
    let mut out: Vec<u8> = Vec::new();
    let mut unresolved: Vec<Vec<u8>> = Vec::new();
    let mut i: usize = 0;
    while i < text.len()
        invariant
            t == text@,
            i <= text.len(),
            out@ + render_from(t, i as int, env@, overrides@) == render_from(t, 0, env@, overrides@),
            byte_strings(unresolved@) + unresolved_from(t, i as int, env@, overrides@)
                == unresolved_from(t, 0, env@, overrides@),
        decreases text.len() - i,
    {
        let ghost out0 = out@;
        let ghost unr0 = byte_strings(unresolved@);
        if opens_at(text, i) {
            let mut j: usize = i + PREFIX_LEN;
            while j < text.len() && (text[j] >= 65u8 && text[j] <= 90u8 || text[j] == 95u8 || (
            text[j] >= 48u8 && text[j] <= 57u8))
                invariant
                    i + 7 <= j <= text.len(),
                    t == text@,
                    placeholder_end(t, i as int) == j + name_run(t, j as int),
                decreases text.len() - j,
            {
                j += 1;
            }
            assert(name_run(t, j as int) == 0);
            let name = copy_range(text, i + 1, j);
            assert(name@ == placeholder_name(t, i as int));
            match resolve(env, overrides, name.as_slice()) {
                Some(v) => {
                    extend_bytes(&mut out, v);
                },
                None => {
                    unresolved.push(name);
                    assert(byte_strings(unresolved@) =~= unr0 + seq![placeholder_name(t, i as int)]);
                },
            }
            assert(out@ + render_from(t, j as int, env@, overrides@) =~= out0 + render_from(
                t,
                i as int,
                env@,
                overrides@,
            ));
            assert(byte_strings(unresolved@) + unresolved_from(t, j as int, env@, overrides@)
                =~= unr0 + unresolved_from(t, i as int, env@, overrides@));
            i = j;
        } else {
            out.push(text[i]);
            assert(out@ + render_from(t, i + 1, env@, overrides@) =~= out0 + render_from(
                t,
                i as int,
                env@,
                overrides@,
            ));
            i += 1;
        }
    }
    assert(out@ =~= out@ + render_from(t, i as int, env@, overrides@));
    assert(byte_strings(unresolved@) =~= byte_strings(unresolved@) + unresolved_from(
        t,
        i as int,
        env@,
        overrides@,
    ));
    Rendered { text: out, unresolved }
}

} // verus!

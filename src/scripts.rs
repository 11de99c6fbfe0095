use vstd::prelude::*;
use vstd::string::*;

verus! {

/// The two start scripts placed in a packed server.
#[derive(Debug, Clone, Copy, PartialEq, Eq, Structural)]
pub enum ScriptKind {
    /// `start.sh`, for Unix shells.
    Bash,
    /// `start.bat`, for Windows.
    Batch,
}

/// The words of `v` separated by single spaces.
pub open spec fn join_words(v: Seq<String>) -> Seq<char>
    decreases v.len(),
{
    if v.len() == 0 {
        Seq::empty()
    } else if v.len() == 1 {
        v[0]@
    } else {
        join_words(v.drop_last()) + " "@ + v.last()@
    }
}

/// The command a start script runs.
pub open spec fn command_line(
    java: Seq<char>,
    jvm_options: Seq<String>,
    server_jar: Seq<char>,
    server_args: Seq<String>,
) -> Seq<char> {
    java + " "@ + join_words(jvm_options) + " -jar "@ + server_jar + " "@ + join_words(server_args)
        + "\n"@
}

/// The lines a start script opens with.
pub open spec fn script_header(kind: ScriptKind) -> Seq<char> {
    match kind {
        ScriptKind::Bash => "#!/bin/bash\n# Chain start script\n\n"@,
        ScriptKind::Batch => "@echo off\n:: Chain start script\n\n"@,
    }
}

impl ScriptKind {
    /// The script's file name in the server directory.
    pub fn file_name(&self) -> (r: &'static str)
        ensures
            *self == ScriptKind::Bash ==> r@ == "start.sh"@,
            *self == ScriptKind::Batch ==> r@ == "start.bat"@,
    {
        match self {
            ScriptKind::Bash => "start.sh",
            ScriptKind::Batch => "start.bat",
        }
    }
}

/// Appends the words of `v`, separated by single spaces, to `out`.
fn append_words(out: &mut String, v: &Vec<String>)
    ensures
        final(out)@ == old(out)@ + join_words(v@),
{
    let mut i: usize = 0;
    while i < v.len()
        invariant
            i <= v@.len(),
            out@ == old(out)@ + join_words(v@.subrange(0, i as int)),
        decreases v@.len() - i,
    {
        let ghost before = out@;
        if i > 0 {
            out.append(" ");
        }
        out.append(v[i].as_str());
        let ghost next = v@.subrange(0, i + 1);
        assert(next.drop_last() =~= v@.subrange(0, i as int));
        assert(next.last() == v@[i as int]);
        if i == 0 {
            assert(join_words(next) == v@[0]@);
            assert(out@ =~= old(out)@ + join_words(next));
        } else {
            assert(out@ =~= old(out)@ + join_words(next));
        }
        i += 1;
    }
    assert(v@.subrange(0, v@.len() as int) =~= v@);
}

/// The start script of a packed server: it runs `java` with the JVM
/// options, then `-jar` and the server artifact, then the server arguments.
pub fn start_script(
    kind: ScriptKind,
    java: &str,
    jvm_options: &Vec<String>,
    server_jar: &str,
    server_args: &Vec<String>,
) -> (r: String)
    ensures
        r@ == script_header(kind) + command_line(java@, jvm_options@, server_jar@, server_args@),
{
    let mut out = match kind {
        ScriptKind::Bash => String::from_str("#!/bin/bash\n# Chain start script\n\n"),
        ScriptKind::Batch => String::from_str("@echo off\n:: Chain start script\n\n"),
    };
    out.append(java);
    out.append(" ");
    append_words(&mut out, jvm_options);
    out.append(" -jar ");
    out.append(server_jar);
    out.append(" ");
    append_words(&mut out, server_args);
    out.append("\n");
    assert(out@ =~= script_header(kind) + command_line(
        java@,
        jvm_options@,
        server_jar@,
        server_args@,
    ));
    out
}

} // verus!

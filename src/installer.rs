use vstd::prelude::*;
use crate::error::{Error, ErrorKind, FetchError};
use crate::manifests::{
    DependenciesManifest, DependencyDetails, Row, distinct_names, has_name, row_of, rows_of,
};
use crate::project::{DependencyEntry, distinct_entry_names};
use crate::source::{PathState, Source, dependency_file, dependency_file_name};

verus! {

/// What the installer does with one dependency.
#[derive(Debug, Clone, Copy, PartialEq, Eq, Structural)]
pub enum InstallAction {
    /// Fetch it into the dependencies cache.
    Fetch,
    /// Its cached file is there: keep it.
    Skip,
    /// A directory stands where its cached file goes: warn and leave it.
    SkipDirectory,
    /// It has no source: warn, or fail if it is required.
    Unresolved,
}

/// The decision for `entry`, given what stands at its cache path.
pub open spec fn decide_spec(entry: DependencyEntry, force: bool, cache: PathState) -> InstallAction {
    if entry.source is Unspecified {
        InstallAction::Unresolved
    } else if !force && cache == PathState::File {
        InstallAction::Skip
    } else if !force && cache == PathState::Directory {
        InstallAction::SkipDirectory
    } else {
        InstallAction::Fetch
    }
}

/// Decides what to do with `entry`: without `force`, an existing cached
/// file is kept and a directory in its place is left alone with a warning;
/// otherwise the dependency is fetched. One without a source is unresolved.
pub fn decide_install(entry: &DependencyEntry, force: bool, cache: PathState) -> (r: InstallAction)
    ensures
        r == decide_spec(*entry, force, cache),
{
    match entry.source {
        Source::Unspecified => InstallAction::Unresolved,
        _ => if !force && cache == PathState::File {
            InstallAction::Skip
        } else if !force && cache == PathState::Directory {
            InstallAction::SkipDirectory
        } else {
            InstallAction::Fetch
        },
    }
}

/// How the handling of one dependency ended.
#[derive(Debug, Clone, Copy, PartialEq, Eq, Structural)]
pub enum Outcome {
    /// Its cached file was kept.
    Skipped,
    /// A directory stood where its cached file goes.
    DirectoryInTheWay,
    /// It had no source.
    Unresolved,
    /// It was fetched into the cache.
    Fetched,
    /// Fetching it failed.
    Failed(FetchError),
}

/// Whether `outcome` is one that `action` can end in.
pub open spec fn outcome_fits(action: InstallAction, outcome: Outcome) -> bool {
    match action {
        InstallAction::Fetch => outcome is Fetched || outcome is Failed,
        InstallAction::Skip => outcome is Skipped,
        InstallAction::SkipDirectory => outcome is DirectoryInTheWay,
        InstallAction::Unresolved => outcome is Unresolved,
    }
}

/// Why a dependency was left out of the manifest without failing the install.
#[derive(Debug, Clone, Copy, PartialEq, Eq, Structural)]
pub enum WarningKind {
    DirectoryInTheWay,
    Unresolved,
    Failed(FetchError),
}

/// The outcome as it counts: a dependency without a source is unresolved
/// whatever is reported for it.
pub open spec fn effective(entry: DependencyEntry, outcome: Outcome) -> Outcome {
    if entry.source is Unspecified {
        Outcome::Unresolved
    } else {
        outcome
    }
}

/// The error that `outcome` makes the install fail with: only a required
/// dependency's failure does.
pub open spec fn step_abort(entry: DependencyEntry, outcome: Outcome) -> Option<FetchError> {
    match effective(entry, outcome) {
        Outcome::Failed(e) => if entry.required {
            Some(e)
        } else {
            None
        },
        Outcome::Unresolved => if entry.required {
            Some(FetchError::SourceNotFound)
        } else {
            None
        },
        _ => None,
    }
}

/// The manifest row that `outcome` adds: one for a kept or fetched file.
pub open spec fn step_row(entry: DependencyEntry, outcome: Outcome) -> Option<Row> {
    match effective(entry, outcome) {
        Outcome::Skipped | Outcome::Fetched => match entry.source.text_spec() {
            Some(src) => Some((entry.name@, dependency_file_name(entry.name@, src), src)),
            None => None,
        },
        _ => None,
    }
}

/// The warning that `outcome` gives, if any.
pub open spec fn step_warning(entry: DependencyEntry, outcome: Outcome) -> Option<WarningKind> {
    match effective(entry, outcome) {
        Outcome::DirectoryInTheWay => Some(WarningKind::DirectoryInTheWay),
        Outcome::Unresolved => if entry.required {
            None
        } else {
            Some(WarningKind::Unresolved)
        },
        Outcome::Failed(e) => if entry.required {
            None
        } else {
            Some(WarningKind::Failed(e))
        },
        _ => None,
    }
}

/// A sequence of zero or one element.
pub open spec fn opt_seq<A>(o: Option<A>) -> Seq<A> {
    match o {
        Some(a) => seq![a],
        None => Seq::empty(),
    }
}

/// The result of an install over the first `n` entries with the given
/// outcomes: the manifest rows, or the first required dependency's error.
pub open spec fn run_rows(entries: Seq<DependencyEntry>, outcomes: Seq<Outcome>, n: nat) -> Result<
    Seq<Row>,
    FetchError,
>
    decreases n,
{
    if n == 0 {
        Ok(Seq::empty())
    } else {
        match run_rows(entries, outcomes, (n - 1) as nat) {
            Err(e) => Err(e),
            Ok(rows) => match step_abort(entries[n - 1], outcomes[n - 1]) {
                Some(e) => Err(e),
                None => Ok(rows + opt_seq(step_row(entries[n - 1], outcomes[n - 1]))),
            },
        }
    }
}

/// The state of an install in progress: the dependencies installed so far
/// and the warnings given.
#[derive(Debug, Clone)]
pub struct Installer {
    pub installed: Vec<(String, DependencyDetails)>,
    pub warnings: Vec<(String, WarningKind)>,
}

impl Installer {
    /// Well-formed: each dependency name is installed at most once.
    pub open spec fn wf(&self) -> bool {
        distinct_names(self.installed@)
    }

    /// An install that has handled nothing yet.
    pub fn new() -> (r: Installer)
        ensures
            r.installed@.len() == 0,
            r.warnings@.len() == 0,
            r.wf(),
    {
        Installer { installed: Vec::new(), warnings: Vec::new() }
    }

    /// Whether a dependency named `name` is installed already.
    pub fn has_installed(&self, name: &String) -> (r: bool)
        ensures
            r == has_name(self.installed@, name@),
    {
        let mut k: usize = 0;
        while k < self.installed.len()
            invariant
                k <= self.installed@.len(),
                forall|j: int| 0 <= j < k ==> (#[trigger] self.installed@[j]).0@ != name@,
            decreases self.installed@.len() - k,
        {
            if self.installed[k].0 == *name {
                return true;
            }
            k += 1;
        }
        false
    }

    /// Records how the handling of `entry` ended. A kept or fetched file
    /// adds a manifest row; a required dependency that failed or has no
    /// source fails the install; an optional one is left out with a
    /// warning, as is one whose cache path is a directory.
    pub fn record(&mut self, entry: &DependencyEntry, outcome: Outcome) -> (r: Result<(), Error>)
        requires
            old(self).wf(),
            !has_name(old(self).installed@, entry.name@),
        ensures
            final(self).wf(),
            match step_abort(*entry, outcome) {
                Some(e) => match r {
                    Err(err) => err.kind == e.kind_spec() && err.subject == entry.name,
                    Ok(_) => false,
                },
                None => r is Ok,
            },
            rows_of(final(self).installed@) == rows_of(old(self).installed@) + opt_seq(
                step_row(*entry, outcome),
            ),
            final(self).warnings@.len() == old(self).warnings@.len() + opt_seq(
                step_warning(*entry, outcome),
            ).len(),
            forall|i: int|
                0 <= i < old(self).warnings@.len() ==> final(self).warnings@[i] == old(
                    self,
                ).warnings@[i],
            match step_warning(*entry, outcome) {
                Some(w) => final(self).warnings@.last() == (entry.name, w),
                None => true,
            },
    {
        let outcome = match entry.source {
            Source::Unspecified => Outcome::Unresolved,
            _ => outcome,
        };
        match outcome {
            Outcome::Skipped | Outcome::Fetched => {
                match entry.source.text() {
                    Some(src) => {
                        let file_name = dependency_file(&entry.name, src.as_str());
                        let details = DependencyDetails { file_name, source: src.clone() };
                        let ghost before = self.installed@;
                        self.installed.push((entry.name.clone(), details));
                        assert(distinct_names(self.installed@)) by {
                            assert forall|a: int, b: int|
                                0 <= a < self.installed@.len() && 0 <= b < self.installed@.len()
                                    && a != b implies (#[trigger] self.installed@[a]).0@ != (
                            #[trigger] self.installed@[b]).0@ by {
                                if a < before.len() && b < before.len() {
                                    assert(self.installed@[a] == before[a]);
                                    assert(self.installed@[b] == before[b]);
                                } else if a < before.len() {
                                    assert(self.installed@[a] == before[a]);
                                } else {
                                    assert(self.installed@[b] == before[b]);
                                }
                            }
                        }
                        assert(rows_of(self.installed@) =~= rows_of(before) + seq![
                            row_of((entry.name, details)),
                        ]);
                    },
                    None => {},
                }
                assert(opt_seq(step_warning(*entry, outcome)) =~= Seq::<WarningKind>::empty());
                Ok(())
            },
            Outcome::DirectoryInTheWay => {
                self.warnings.push((entry.name.clone(), WarningKind::DirectoryInTheWay));
                assert(rows_of(self.installed@) =~= rows_of(old(self).installed@) + Seq::empty());
                Ok(())
            },
            Outcome::Unresolved => {
                assert(rows_of(self.installed@) =~= rows_of(old(self).installed@) + Seq::empty());
                if entry.required {
                    Err(Error::new(ErrorKind::SourceNotFound, entry.name.clone()))
                } else {
                    self.warnings.push((entry.name.clone(), WarningKind::Unresolved));
                    Ok(())
                }
            },
            Outcome::Failed(e) => {
                assert(rows_of(self.installed@) =~= rows_of(old(self).installed@) + Seq::empty());
                if entry.required {
                    Err(Error::new(e.kind(), entry.name.clone()))
                } else {
                    self.warnings.push((entry.name.clone(), WarningKind::Failed(e)));
                    Ok(())
                }
            },
        }
    }

    /// The manifest of what was installed.
    pub fn finish(self) -> (r: DependenciesManifest)
        requires
            self.wf(),
        ensures
            r.dependencies == self.installed,
            r.wf(),
    {
        DependenciesManifest::new(self.installed)
    }
}

/// Whether `outcome` leaves the dependency's file in the cache.
pub open spec fn installs(outcome: Outcome) -> bool {
    outcome is Skipped || outcome is Fetched
}

/// Installs that agree step by step agree in their result.
proof fn lemma_run_rows_congruent(
    entries: Seq<DependencyEntry>,
    outcomes1: Seq<Outcome>,
    outcomes2: Seq<Outcome>,
    n: nat,
)
    requires
        forall|i: int|
            0 <= i < n ==> step_abort(entries[i], #[trigger] outcomes1[i]) == step_abort(
                entries[i],
                outcomes2[i],
            ) && step_row(entries[i], outcomes1[i]) == step_row(entries[i], outcomes2[i]),
    ensures
        run_rows(entries, outcomes1, n) == run_rows(entries, outcomes2, n),
    decreases n,
{
    if n > 0 {
        lemma_run_rows_congruent(entries, outcomes1, outcomes2, (n - 1) as nat);
        assert(step_abort(entries[n - 1], outcomes1[n - 1]) == step_abort(
            entries[n - 1],
            outcomes2[n - 1],
        ));
    }
}

/// Installing twice without `force`: every dependency that the first run
/// left in the cache is kept by the second, not fetched again, and when the
/// other dependencies end as they did the first time the two runs give the
/// same manifest, row for row.
pub proof fn lemma_install_idempotent(
    entries: Seq<DependencyEntry>,
    caches1: Seq<PathState>,
    outcomes1: Seq<Outcome>,
    caches2: Seq<PathState>,
    outcomes2: Seq<Outcome>,
)
    requires
        caches1.len() == entries.len(),
        outcomes1.len() == entries.len(),
        caches2.len() == entries.len(),
        outcomes2.len() == entries.len(),
        forall|i: int|
            0 <= i < entries.len() ==> outcome_fits(
                decide_spec(entries[i], false, caches1[i]),
                #[trigger] outcomes1[i],
            ),
        forall|i: int|
            0 <= i < entries.len() ==> outcome_fits(
                decide_spec(entries[i], false, caches2[i]),
                #[trigger] outcomes2[i],
            ),
        forall|i: int|
            0 <= i < entries.len() && installs(#[trigger] outcomes1[i]) ==> caches2[i]
                == PathState::File,
        forall|i: int|
            0 <= i < entries.len() && !installs(#[trigger] outcomes1[i]) ==> outcomes2[i]
                == outcomes1[i],
    ensures
        forall|i: int|
            0 <= i < entries.len() && installs(#[trigger] outcomes1[i]) ==> decide_spec(
                entries[i],
                false,
                caches2[i],
            ) == InstallAction::Skip,
        run_rows(entries, outcomes2, entries.len()) == run_rows(
            entries,
            outcomes1,
            entries.len(),
        ),
{
    assert forall|i: int| 0 <= i < entries.len() implies step_abort(
        entries[i],
        #[trigger] outcomes1[i],
    ) == step_abort(entries[i], outcomes2[i]) && step_row(entries[i], outcomes1[i]) == step_row(
        entries[i],
        outcomes2[i],
    ) by {
        if installs(outcomes1[i]) {
            assert(outcome_fits(decide_spec(entries[i], false, caches2[i]), outcomes2[i]));
        }
    }
    lemma_run_rows_congruent(entries, outcomes2, outcomes1, entries.len());
}

/// Installing again without `force` after an install that left every
/// dependency in the cache: nothing is fetched again, every dependency is
/// kept, and the manifest is the same, row for row.
pub proof fn lemma_reinstall_after_full_install(
    entries: Seq<DependencyEntry>,
    caches1: Seq<PathState>,
    outcomes1: Seq<Outcome>,
    caches2: Seq<PathState>,
    outcomes2: Seq<Outcome>,
)
    requires
        caches1.len() == entries.len(),
        outcomes1.len() == entries.len(),
        caches2.len() == entries.len(),
        outcomes2.len() == entries.len(),
        forall|i: int|
            0 <= i < entries.len() ==> outcome_fits(
                decide_spec(entries[i], false, caches1[i]),
                #[trigger] outcomes1[i],
            ) && installs(outcomes1[i]),
        forall|i: int|
            0 <= i < entries.len() ==> outcome_fits(
                decide_spec(entries[i], false, caches2[i]),
                #[trigger] outcomes2[i],
            ),
        forall|i: int| 0 <= i < entries.len() ==> #[trigger] caches2[i] == PathState::File,
    ensures
        forall|i: int| 0 <= i < entries.len() ==> #[trigger] outcomes2[i] == Outcome::Skipped,
        run_rows(entries, outcomes2, entries.len()) == run_rows(
            entries,
            outcomes1,
            entries.len(),
        ),
{
    lemma_install_idempotent(entries, caches1, outcomes1, caches2, outcomes2);
    assert forall|i: int| 0 <= i < entries.len() implies #[trigger] outcomes2[i]
        == Outcome::Skipped by {
        assert(installs(outcomes1[i]));
        assert(outcome_fits(decide_spec(entries[i], false, caches2[i]), outcomes2[i]));
    }
}

/// Once an install has failed, it stays failed.
proof fn lemma_run_rows_stays_failed(
    entries: Seq<DependencyEntry>,
    outcomes: Seq<Outcome>,
    m: nat,
    n: nat,
)
    requires
        m <= n,
        run_rows(entries, outcomes, m) is Err,
    ensures
        run_rows(entries, outcomes, n) is Err,
    decreases n,
{
    if n > m {
        lemma_run_rows_stays_failed(entries, outcomes, m, (n - 1) as nat);
    }
}

/// A required dependency that fails to resolve fails the whole install:
/// no manifest comes out.
pub proof fn lemma_required_failure_aborts(
    entries: Seq<DependencyEntry>,
    outcomes: Seq<Outcome>,
    i: int,
)
    requires
        outcomes.len() == entries.len(),
        0 <= i < entries.len(),
        entries[i].required,
        outcomes[i] is Failed || outcomes[i] is Unresolved,
    ensures
        run_rows(entries, outcomes, entries.len()) is Err,
{
    assert(step_abort(entries[i], outcomes[i]) is Some);
    assert(run_rows(entries, outcomes, (i + 1) as nat) is Err);
    lemma_run_rows_stays_failed(entries, outcomes, (i + 1) as nat, entries.len());
}

/// Every row of an install comes from some handled dependency's step.
proof fn lemma_rows_come_from_steps(entries: Seq<DependencyEntry>, outcomes: Seq<Outcome>, n: nat)
    ensures
        match run_rows(entries, outcomes, n) {
            Ok(rows) => forall|k: int|
                0 <= k < rows.len() ==> exists|j: int|
                    0 <= j < n && step_row(entries[j], outcomes[j]) == Some(#[trigger] rows[k]),
            Err(_) => true,
        },
    decreases n,
{
    if n > 0 {
        lemma_rows_come_from_steps(entries, outcomes, (n - 1) as nat);
        match run_rows(entries, outcomes, (n - 1) as nat) {
            Ok(prev) => {
                if step_abort(entries[n - 1], outcomes[n - 1]) is None {
                    let rows = prev + opt_seq(step_row(entries[n - 1], outcomes[n - 1]));
                    assert forall|k: int| 0 <= k < rows.len() implies exists|j: int|
                        0 <= j < n && step_row(entries[j], outcomes[j]) == Some(
                            #[trigger] rows[k],
                        ) by {
                        if k < prev.len() {
                            assert(rows[k] == prev[k]);
                            let j = choose|j: int|
                                0 <= j < n - 1 && step_row(entries[j], outcomes[j]) == Some(
                                    prev[k],
                                );
                        } else {
                            assert(step_row(entries[n - 1], outcomes[n - 1]) == Some(rows[k]));
                        }
                    }
                }
            },
            Err(_) => {},
        }
    }
}

/// An optional dependency that fails to resolve is left out: when the
/// install succeeds, no row of its manifest carries that dependency's name
/// (names being unique).
pub proof fn lemma_optional_failure_omitted(
    entries: Seq<DependencyEntry>,
    outcomes: Seq<Outcome>,
    i: int,
)
    requires
        outcomes.len() == entries.len(),
        0 <= i < entries.len(),
        !entries[i].required,
        outcomes[i] is Failed || outcomes[i] is Unresolved || outcomes[i] is DirectoryInTheWay,
        forall|a: int, b: int|
            0 <= a < entries.len() && 0 <= b < entries.len() && a != b ==> (#[trigger] entries[a]).name@
                != (#[trigger] entries[b]).name@,
    ensures
        match run_rows(entries, outcomes, entries.len()) {
            Ok(rows) => forall|k: int| 0 <= k < rows.len() ==> (#[trigger] rows[k]).0 != entries[i].name@,
            Err(_) => true,
        },
{
    lemma_rows_come_from_steps(entries, outcomes, entries.len());
    match run_rows(entries, outcomes, entries.len()) {
        Ok(rows) => {
            assert forall|k: int| 0 <= k < rows.len() implies (#[trigger] rows[k]).0
                != entries[i].name@ by {
                let j = choose|j: int|
                    0 <= j < entries.len() && step_row(entries[j], outcomes[j]) == Some(rows[k]);
                assert(step_row(entries[i], outcomes[i]) is None);
                assert(j != i);
                assert(entries[j].name@ != entries[i].name@);
            }
        },
        Err(_) => {},
    }
}

/// An install in which no step fails succeeds, and its rows hold the row
/// of every step that adds one.
proof fn lemma_run_rows_complete(entries: Seq<DependencyEntry>, outcomes: Seq<Outcome>, n: nat)
    requires
        n <= entries.len(),
        n <= outcomes.len(),
        forall|j: int| 0 <= j < n ==> step_abort(entries[j], #[trigger] outcomes[j]) is None,
    ensures
        run_rows(entries, outcomes, n) is Ok,
        forall|j: int|
            0 <= j < n && (#[trigger] step_row(entries[j], outcomes[j])) is Some ==> exists|k: int|
                0 <= k < run_rows(entries, outcomes, n)->Ok_0.len() && run_rows(
                    entries,
                    outcomes,
                    n,
                )->Ok_0[k] == step_row(entries[j], outcomes[j])->0,
    decreases n,
{
    if n > 0 {
        lemma_run_rows_complete(entries, outcomes, (n - 1) as nat);
        let prev = run_rows(entries, outcomes, (n - 1) as nat)->Ok_0;
        assert(step_abort(entries[n - 1], outcomes[n - 1]) is None);
        let rows = prev + opt_seq(step_row(entries[n - 1], outcomes[n - 1]));
        assert(run_rows(entries, outcomes, n) == Ok::<Seq<Row>, FetchError>(rows));
        assert forall|j: int|
            0 <= j < n && (#[trigger] step_row(entries[j], outcomes[j])) is Some implies exists|k: int|
            0 <= k < rows.len() && rows[k] == step_row(entries[j], outcomes[j])->0 by {
            if j < n - 1 {
                let k = choose|k: int|
                    0 <= k < prev.len() && prev[k] == step_row(entries[j], outcomes[j])->0;
                assert(rows[k] == prev[k]);
            } else {
                assert(rows[prev.len() as int] == step_row(entries[j], outcomes[j])->0);
            }
        }
        assert(run_rows(entries, outcomes, n)->Ok_0 == rows);
    }
}

/// An optional dependency that fails while every other one is fetched or
/// kept: the install succeeds, and its manifest has a row for every other
/// dependency and none for the failed one (names being unique).
pub proof fn lemma_optional_failure_install(
    entries: Seq<DependencyEntry>,
    outcomes: Seq<Outcome>,
    i: int,
)
    requires
        outcomes.len() == entries.len(),
        0 <= i < entries.len(),
        !entries[i].required,
        outcomes[i] is Failed || outcomes[i] is Unresolved || outcomes[i] is DirectoryInTheWay,
        forall|j: int|
            0 <= j < entries.len() && j != i ==> !(entries[j].source is Unspecified) && (
            #[trigger] outcomes[j] is Fetched || outcomes[j] is Skipped),
        forall|a: int, b: int|
            0 <= a < entries.len() && 0 <= b < entries.len() && a != b ==> (#[trigger] entries[a]).name@
                != (#[trigger] entries[b]).name@,
    ensures
        run_rows(entries, outcomes, entries.len()) is Ok,
        forall|j: int|
            0 <= j < entries.len() && j != i ==> exists|k: int|
                0 <= k < run_rows(entries, outcomes, entries.len())->Ok_0.len() && run_rows(
                    entries,
                    outcomes,
                    entries.len(),
                )->Ok_0[k].0 == (#[trigger] entries[j]).name@,
        forall|k: int|
            0 <= k < run_rows(entries, outcomes, entries.len())->Ok_0.len() ==> (#[trigger] run_rows(
                entries,
                outcomes,
                entries.len(),
            )->Ok_0[k]).0 != entries[i].name@,
{
    assert forall|j: int| 0 <= j < entries.len() implies step_abort(
        entries[j],
        #[trigger] outcomes[j],
    ) is None by {
        if j != i {
            assert(outcomes[j] is Fetched || outcomes[j] is Skipped);
        }
    }
    lemma_run_rows_complete(entries, outcomes, entries.len());
    lemma_optional_failure_omitted(entries, outcomes, i);
    let rows = run_rows(entries, outcomes, entries.len())->Ok_0;
    assert forall|j: int| 0 <= j < entries.len() && j != i implies exists|k: int|
        0 <= k < rows.len() && rows[k].0 == (#[trigger] entries[j]).name@ by {
        assert(outcomes[j] is Fetched || outcomes[j] is Skipped);
        assert(step_row(entries[j], outcomes[j]) is Some);
        let k = choose|k: int| 0 <= k < rows.len() && rows[k] == step_row(entries[j], outcomes[j])->0;
        assert(rows[k].0 == entries[j].name@);
    }
}

/// The declared dependencies as plain values.
pub open spec fn pairs_view(v: Seq<(String, String)>) -> Seq<(Seq<char>, Seq<char>)> {
    v.map_values(|p: (String, String)| (p.0@, p.1@))
}

/// Whether some installed row records the (name, source) pair `pair`.
pub open spec fn recorded(installed: Seq<(String, DependencyDetails)>, pair: (Seq<char>, Seq<char>)) -> bool {
    exists|j: int|
        0 <= j < installed.len() && (#[trigger] installed[j]).0@ == pair.0
            && installed[j].1.source@ == pair.1
}

/// Whether the declared (name, source) pairs are exactly those recorded in
/// the installed rows: as many, and each declared pair recorded.
pub open spec fn declared_matches(
    declared: Seq<(Seq<char>, Seq<char>)>,
    installed: Seq<(String, DependencyDetails)>,
) -> bool {
    &&& declared.len() == installed.len()
    &&& forall|i: int| 0 <= i < declared.len() ==> recorded(installed, #[trigger] declared[i])
}

/// Whether some installed row records `name` with `source`.
fn is_recorded(installed: &Vec<(String, DependencyDetails)>, name: &String, source: &String) -> (r:
    bool)
    ensures
        r == recorded(installed@, (name@, source@)),
{
    let mut j: usize = 0;
    while j < installed.len()
        invariant
            j <= installed@.len(),
            forall|k: int|
                0 <= k < j ==> !((#[trigger] installed@[k]).0@ == name@ && installed@[k].1.source@
                    == source@),
        decreases installed@.len() - j,
    {
        if installed[j].0 == *name && installed[j].1.source == *source {
            return true;
        }
        j += 1;
    }
    false
}

/// The check made before preparing or packing a server: the declared
/// (name, source) pairs must be exactly those the install recorded, in any
/// order. Otherwise the cache is stale and install must run again.
pub fn check_cache(declared: &Vec<(String, String)>, manifest: &DependenciesManifest) -> (r: Result<
    (),
    Error,
>)
    ensures
        r is Ok <==> declared_matches(pairs_view(declared@), manifest.dependencies@),
        distinct_declared(pairs_view(declared@)) && manifest.wf() ==> (r is Ok <==> pairs_view(
            declared@,
        ).to_set() == installed_pairs(manifest.dependencies@).to_set()),
        match r {
            Err(e) => e.kind == ErrorKind::StaleCache,
            Ok(_) => true,
        },
{
    let ghost d = pairs_view(declared@);
    proof {
        if distinct_declared(d) && manifest.wf() {
            lemma_cache_check_is_set_equality(d, manifest.dependencies@);
        }
    }
    if declared.len() != manifest.dependencies.len() {
        return Err(Error::new(ErrorKind::StaleCache, String::new()));
    }
    let mut i: usize = 0;
    while i < declared.len()
        invariant
            d == pairs_view(declared@),
            declared@.len() == manifest.dependencies@.len(),
            i <= declared@.len(),
            forall|k: int| 0 <= k < i ==> recorded(manifest.dependencies@, #[trigger] d[k]),
            distinct_declared(d) && manifest.wf() ==> (declared_matches(d, manifest.dependencies@)
                <==> d.to_set() == installed_pairs(manifest.dependencies@).to_set()),
        decreases declared@.len() - i,
    {
        assert(d[i as int] == (declared@[i as int].0@, declared@[i as int].1@));
        if !is_recorded(&manifest.dependencies, &declared[i].0, &declared[i].1) {
            return Err(Error::new(ErrorKind::StaleCache, declared[i].0.clone()));
        }
        i += 1;
    }
    Ok(())
}

/// The (name, source) pairs of installed rows.
pub open spec fn installed_pairs(installed: Seq<(String, DependencyDetails)>) -> Seq<
    (Seq<char>, Seq<char>),
> {
    installed.map_values(|e: (String, DependencyDetails)| (e.0@, e.1.source@))
}

/// Whether no two declared pairs share a dependency name.
pub open spec fn distinct_declared(declared: Seq<(Seq<char>, Seq<char>)>) -> bool {
    forall|a: int, b: int|
        0 <= a < declared.len() && 0 <= b < declared.len() && a != b ==> (#[trigger] declared[a]).0
            != (#[trigger] declared[b]).0
}

/// With names unique on both sides, the cache check is an equality of sets:
/// it passes exactly when the declared (name, source) pairs and the
/// installed ones are the same set.
pub proof fn lemma_cache_check_is_set_equality(
    declared: Seq<(Seq<char>, Seq<char>)>,
    installed: Seq<(String, DependencyDetails)>,
)
    requires
        distinct_declared(declared),
        distinct_names(installed),
    ensures
        declared_matches(declared, installed) <==> declared.to_set() == installed_pairs(
            installed,
        ).to_set(),
{
    broadcast use vstd::set::group_set_axioms, vstd::seq_lib::group_seq_properties;

    let p = installed_pairs(installed);
    assert(declared.no_duplicates()) by {
        assert forall|a: int, b: int|
            0 <= a < declared.len() && 0 <= b < declared.len() && a != b implies declared[a]
            != declared[b] by {
            assert(declared[a].0 != declared[b].0);
        }
    }
    assert(p.no_duplicates()) by {
        assert forall|a: int, b: int| 0 <= a < p.len() && 0 <= b < p.len() && a != b implies p[a]
            != p[b] by {
            assert(installed[a].0@ != installed[b].0@);
        }
    }
    declared.unique_seq_to_set();
    p.unique_seq_to_set();
    if declared_matches(declared, installed) {
        assert forall|x: (Seq<char>, Seq<char>)| declared.to_set().contains(x) implies p.to_set().contains(
            x,
        ) by {
            let i = choose|i: int| 0 <= i < declared.len() && declared[i] == x;
            assert(recorded(installed, declared[i]));
            let j = choose|j: int|
                0 <= j < installed.len() && (#[trigger] installed[j]).0@ == declared[i].0
                    && installed[j].1.source@ == declared[i].1;
            assert(p[j] == x);
        }
        vstd::set_lib::lemma_subset_equality(declared.to_set(), p.to_set());
    }
    if declared.to_set() == p.to_set() {
        assert forall|i: int| 0 <= i < declared.len() implies recorded(
            installed,
            #[trigger] declared[i],
        ) by {
            assert(declared.to_set().contains(declared[i]));
            assert(p.to_set().contains(declared[i]));
            let j = choose|j: int| 0 <= j < p.len() && p[j] == declared[i];
            assert(installed[j].0@ == declared[i].0 && installed[j].1.source@ == declared[i].1);
        }
    }
}

/// The cache check does not depend on the order of the declared pairs:
/// two declarations that hold the same pairs, as many of them, pass or
/// fail it together.
pub proof fn lemma_cache_check_order_independent(
    declared1: Seq<(Seq<char>, Seq<char>)>,
    declared2: Seq<(Seq<char>, Seq<char>)>,
    installed: Seq<(String, DependencyDetails)>,
)
    requires
        declared1.len() == declared2.len(),
        forall|i: int|
            0 <= i < declared1.len() ==> exists|j: int|
                0 <= j < declared2.len() && declared2[j] == #[trigger] declared1[i],
        forall|i: int|
            0 <= i < declared2.len() ==> exists|j: int|
                0 <= j < declared1.len() && declared1[j] == #[trigger] declared2[i],
    ensures
        declared_matches(declared1, installed) == declared_matches(declared2, installed),
{
    if declared_matches(declared1, installed) {
        assert forall|i: int| 0 <= i < declared2.len() implies recorded(
            installed,
            #[trigger] declared2[i],
        ) by {
            let k = choose|k: int| 0 <= k < declared1.len() && declared1[k] == declared2[i];
            assert(recorded(installed, declared1[k]));
        }
    }
    if declared_matches(declared2, installed) {
        assert forall|i: int| 0 <= i < declared1.len() implies recorded(
            installed,
            #[trigger] declared1[i],
        ) by {
            let k = choose|k: int| 0 <= k < declared2.len() && declared2[k] == declared1[i];
            assert(recorded(installed, declared2[k]));
        }
    }
}

/// The declared (name, source) pairs of `entries`, in order; entries without
/// a source are never installed and take no part.
pub open spec fn declared_of(entries: Seq<DependencyEntry>) -> Seq<(Seq<char>, Seq<char>)>
    decreases entries.len(),
{
    if entries.len() == 0 {
        Seq::empty()
    } else {
        let rest = declared_of(entries.drop_last());
        match entries.last().source.text_spec() {
            Some(src) => rest.push((entries.last().name@, src)),
            None => rest,
        }
    }
}

/// The declared (name, source) pairs of `entries`, in order, leaving out
/// the entries without a source.
pub fn declared_sources(entries: &Vec<DependencyEntry>) -> (r: Vec<(String, String)>)
    ensures
        pairs_view(r@) == declared_of(entries@),
        distinct_entry_names(entries@) ==> distinct_declared(pairs_view(r@)),
{
    let mut r: Vec<(String, String)> = Vec::new();
    let mut i: usize = 0;
    while i < entries.len()
        invariant
            i <= entries@.len(),
            pairs_view(r@) == declared_of(entries@.subrange(0, i as int)),
            forall|a: int|
                0 <= a < r@.len() ==> exists|k: int|
                    0 <= k < i && (#[trigger] r@[a]).0@ == (#[trigger] entries@[k]).name@,
            distinct_entry_names(entries@) ==> distinct_declared(pairs_view(r@)),
        decreases entries@.len() - i,
    {
        let ghost before = r@;
        let ghost next = entries@.subrange(0, i + 1);
        assert(next.drop_last() =~= entries@.subrange(0, i as int));
        match entries[i].source.text() {
            Some(src) => {
                r.push((entries[i].name.clone(), src.clone()));
                assert(pairs_view(r@) =~= pairs_view(before).push((entries@[i as int].name@, src@)));
                assert forall|a: int| 0 <= a < r@.len() implies exists|k: int|
                    0 <= k < i + 1 && (#[trigger] r@[a]).0@ == (#[trigger] entries@[k]).name@ by {
                    if a < before.len() {
                        assert(r@[a] == before[a]);
                    } else {
                        assert(r@[a].0@ == entries@[i as int].name@);
                    }
                }
                proof {
                    if distinct_entry_names(entries@) {
                        let pv = pairs_view(r@);
                        assert forall|a: int, b: int|
                            0 <= a < pv.len() && 0 <= b < pv.len() && a != b implies (
                            #[trigger] pv[a]).0 != (#[trigger] pv[b]).0 by {
                            if a < before.len() && b < before.len() {
                                assert(r@[a] == before[a] && r@[b] == before[b]);
                                assert(pairs_view(before)[a] == pv[a]);
                                assert(pairs_view(before)[b] == pv[b]);
                            } else if a < before.len() {
                                assert(r@[a] == before[a]);
                                let k = choose|k: int|
                                    0 <= k < i && (#[trigger] before[a]).0@ == (
                                    #[trigger] entries@[k]).name@;
                                assert(entries@[k].name@ != entries@[i as int].name@);
                            } else {
                                assert(r@[b] == before[b]);
                                let k = choose|k: int|
                                    0 <= k < i && (#[trigger] before[b]).0@ == (
                                    #[trigger] entries@[k]).name@;
                                assert(entries@[k].name@ != entries@[i as int].name@);
                            }
                        }
                    }
                }
            },
            None => {},
        }
        i += 1;
    }
    assert(entries@.subrange(0, entries@.len() as int) =~= entries@);
    r
}

/// Checks the cache (see `check_cache`) and gives the cached file name of
/// each installed dependency, in order, for copying into the server.
pub fn prepare_dependencies(cached: &DependenciesManifest, declared: &Vec<(String, String)>) -> (r:
    Result<Vec<String>, Error>)
    ensures
        r is Ok <==> declared_matches(pairs_view(declared@), cached.dependencies@),
        match r {
            Ok(names) => names@.len() == cached.dependencies@.len() && forall|i: int|
                0 <= i < names@.len() ==> (#[trigger] names@[i])@ == cached.dependencies@[i].1.file_name@,
            Err(e) => e.kind == ErrorKind::StaleCache,
        },
{
    check_cache(declared, cached)?;
    let mut names: Vec<String> = Vec::new();
    let mut i: usize = 0;
    while i < cached.dependencies.len()
        invariant
            i <= cached.dependencies@.len(),
            names@.len() == i,
            forall|k: int|
                0 <= k < i ==> (#[trigger] names@[k])@ == cached.dependencies@[k].1.file_name@,
        decreases cached.dependencies@.len() - i,
    {
        names.push(cached.dependencies[i].1.file_name.clone());
        i += 1;
    }
    Ok(names)
}

} // verus!

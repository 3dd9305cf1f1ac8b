//! The decisions of `odyn sync`: the state of each dependency, whether local changes
//! block the sync, and how a missing checkout is restored.
use vstd::prelude::*;

use crate::lockfile::{short, short_commit, Dep, DepView, Lockfile};
use crate::report::{
    is_pinned, line, line_views, quote, quoted, status_line, HeadView, LineView, StatusLine,
};
use crate::text::{push_str, same_text};

verus! {

/// What was found on disk for one dependency before syncing it.
pub enum SyncObservation {
    /// `odyn_deps/<name>` does not exist.
    Absent,
    /// The checkout is at `head`; `dirty` when it has uncommitted changes.
    Present { head: String, dirty: bool },
}

/// The value of a [`SyncObservation`].
pub enum SyncObsView {
    Absent,
    Present { head: Seq<char>, dirty: bool },
}

impl View for SyncObservation {
    type V = SyncObsView;

    open spec fn view(&self) -> SyncObsView {
        match self {
            SyncObservation::Absent => SyncObsView::Absent,
            SyncObservation::Present { head, dirty } => SyncObsView::Present {
                head: head@,
                dirty: *dirty,
            },
        }
    }
}

/// Where a dependency stands against its pin.
pub enum DepState {
    /// At the pinned commit, without local changes.
    Pinned,
    /// To be (re)stored at the pinned commit.
    Missing,
    /// At another commit.
    Modified { actual: String },
    /// At the pinned commit, with uncommitted changes.
    Dirty,
}

/// The value of a [`DepState`].
pub enum StateView {
    Pinned,
    Missing,
    Modified(Seq<char>),
    Dirty,
}

impl View for DepState {
    type V = StateView;

    open spec fn view(&self) -> StateView {
        match self {
            DepState::Pinned => StateView::Pinned,
            DepState::Missing => StateView::Missing,
            DepState::Modified { actual } => StateView::Modified(actual@),
            DepState::Dirty => StateView::Dirty,
        }
    }
}

/// The state `odyn sync` gives a dependency: an absent checkout is missing; with `force`,
/// any local change makes it missing (it is reset); without, a change of commit makes it
/// modified and uncommitted changes make it dirty.
pub open spec fn sync_state_of(d: DepView, o: SyncObsView, force: bool) -> StateView {
    match o {
        SyncObsView::Absent => StateView::Missing,
        SyncObsView::Present { head, dirty } => if head == d.commit {
            if dirty && force {
                StateView::Missing
            } else if dirty {
                StateView::Dirty
            } else {
                StateView::Pinned
            }
        } else if force {
            StateView::Missing
        } else {
            StateView::Modified(head)
        },
    }
}

/// A state that stops the sync: local changes that only `--force` may discard.
pub open spec fn blocks(s: StateView) -> bool {
    s is Modified || s is Dirty
}

/// The state of one dependency for `odyn sync`.
pub fn sync_state(d: &Dep, o: &SyncObservation, force: bool) -> (r: DepState)
    ensures
        r@ == sync_state_of(d@, o@, force),
{
    match o {
        SyncObservation::Absent => DepState::Missing,
        SyncObservation::Present { head, dirty } => {
            if same_text(head.as_str(), d.commit.as_str()) {
                if *dirty && force {
                    DepState::Missing
                } else if *dirty {
                    DepState::Dirty
                } else {
                    DepState::Pinned
                }
            } else if force {
                DepState::Missing
            } else {
                DepState::Modified { actual: head.clone() }
            }
        },
    }
}

/// The dependency named `name` is in the `--skip` list.
pub open spec fn skipped(skip: Seq<Seq<char>>, name: Seq<char>) -> bool {
    exists|i: int| 0 <= i < skip.len() && skip[i] == name
}

/// Whether `--skip` names the dependency.
pub fn is_skipped(skip: &[String], name: &str) -> (r: bool)
    ensures
        r == skipped(skip@.map_values(|s: String| s@), name@),
{
    let ghost sv = skip@.map_values(|s: String| s@);
    let mut i: usize = 0;
    while i < skip.len()
        invariant
            i <= skip@.len(),
            sv == skip@.map_values(|s: String| s@),
            forall|j: int| 0 <= j < i ==> sv[j] != name@,
        decreases skip.len() - i,
    {
        if same_text(skip[i].as_str(), name) {
            assert(sv[i as int] == name@);
            return true;
        }
        i = i + 1;
    }
    false
}

/// One dependency that takes part in the sync, with its state.
pub struct SyncEntry {
    pub dep: Dep,
    pub state: DepState,
}

/// The dependency and state of each entry.
pub open spec fn entry_views(es: Seq<SyncEntry>) -> Seq<(DepView, StateView)> {
    es.map_values(|e: SyncEntry| (e.dep@, e.state@))
}

/// The first markup line of the conflict report.
pub open spec fn conflict_header() -> Seq<char> {
    "[error]       Error[/] some deps have local changes:"@
}

/// The report line of a dependency at another commit.
pub open spec fn modified_line(d: DepView, actual: Seq<char>) -> Seq<char> {
    "[error]       Error[/] "@ + quoted(d.name) + ": expected "@ + quoted(short_commit(d.commit))
        + " but found "@ + quoted(short_commit(actual))
}

/// The report line of a dependency with uncommitted changes.
pub open spec fn dirty_line(d: DepView) -> Seq<char> {
    "[error]       Error[/] "@ + quoted(d.name) + ": has uncommitted local changes"@
}

/// The report lines of the modified entries, in order.
pub open spec fn modified_lines(es: Seq<(DepView, StateView)>) -> Seq<Seq<char>>
    decreases es.len(),
{
    if es.len() == 0 {
        seq![]
    } else {
        let rest = modified_lines(es.drop_last());
        match es.last().1 {
            StateView::Modified(a) => rest.push(modified_line(es.last().0, a)),
            _ => rest,
        }
    }
}

/// The report lines of the dirty entries, in order.
pub open spec fn dirty_lines(es: Seq<(DepView, StateView)>) -> Seq<Seq<char>>
    decreases es.len(),
{
    if es.len() == 0 {
        seq![]
    } else {
        let rest = dirty_lines(es.drop_last());
        if es.last().1 is Dirty {
            rest.push(dirty_line(es.last().0))
        } else {
            rest
        }
    }
}

/// Some entry is blocked by local changes.
pub open spec fn any_blocked(es: Seq<(DepView, StateView)>) -> bool {
    exists|i: int| 0 <= i < es.len() && blocks(es[i].1)
}

/// The markup lines printed when local changes stop the sync: a header, the modified
/// entries, then the dirty ones; `None` when nothing blocks.
pub open spec fn conflict_lines(es: Seq<(DepView, StateView)>) -> Option<Seq<Seq<char>>> {
    if any_blocked(es) {
        Some(seq![conflict_header()] + modified_lines(es) + dirty_lines(es))
    } else {
        None
    }
}

/// The lines reporting local changes that stop the sync, or `None` when it may go on
/// (it then fails with "sync failed: modified dependencies found").
pub fn conflict_report(entries: &[SyncEntry]) -> (r: Option<Vec<String>>)
    ensures
        r is None <==> conflict_lines(entry_views(entries@)) is None,
        r matches Some(v) ==> v@.map_values(|s: String| s@) == conflict_lines(
            entry_views(entries@),
        )->0,
{
    let ghost ev = entry_views(entries@);
    let mut modified: Vec<String> = Vec::new();
    let mut dirty: Vec<String> = Vec::new();
    let mut blocked = false;
    let mut i: usize = 0;
    while i < entries.len()
        invariant
            i <= entries@.len(),
            ev == entry_views(entries@),
            modified@.map_values(|s: String| s@) == modified_lines(ev.take(i as int)),
            dirty@.map_values(|s: String| s@) == dirty_lines(ev.take(i as int)),
            blocked == (exists|j: int| 0 <= j < i && blocks(ev[j].1)),
        decreases entries.len() - i,
    {
        let e = &entries[i];
        let ghost m0 = modified@;
        let ghost d0 = dirty@;
        proof {
            assert(ev.take(i + 1).drop_last() =~= ev.take(i as int));
            assert(ev.take(i + 1).last() == ev[i as int]);
            assert(ev[i as int] == (e.dep@, e.state@));
        }
        match &e.state {
            DepState::Modified { actual } => {
                let mut l = String::new();
                push_str(&mut l, "[error]       Error[/] ");
                let q = quote(e.dep.name.as_str());
                push_str(&mut l, q.as_str());
                push_str(&mut l, ": expected ");
                let s1 = short(e.dep.commit.as_str());
                let q1 = quote(s1.as_str());
                push_str(&mut l, q1.as_str());
                push_str(&mut l, " but found ");
                let s2 = short(actual.as_str());
                let q2 = quote(s2.as_str());
                push_str(&mut l, q2.as_str());
                modified.push(l);
                blocked = true;
                assert(modified@.map_values(|s: String| s@) =~= m0.map_values(|s: String| s@).push(
                    l@,
                ));
            },
            DepState::Dirty => {
                let mut l = String::new();
                push_str(&mut l, "[error]       Error[/] ");
                let q = quote(e.dep.name.as_str());
                push_str(&mut l, q.as_str());
                push_str(&mut l, ": has uncommitted local changes");
                dirty.push(l);
                blocked = true;
                assert(dirty@.map_values(|s: String| s@) =~= d0.map_values(|s: String| s@).push(
                    l@,
                ));
            },
            _ => {},
        }
        i = i + 1;
    }
    assert(ev.take(ev.len() as int) =~= ev);
    if !blocked {
        return None;
    }
    let mut out: Vec<String> = Vec::new();
    out.push("[error]       Error[/] some deps have local changes:".to_owned());
    let mut k: usize = 0;
    while k < modified.len()
        invariant
            k <= modified@.len(),
            out@.map_values(|s: String| s@) == seq![conflict_header()] + modified@.map_values(
                |s: String| s@,
            ).take(k as int),
        decreases modified.len() - k,
    {
        let ghost o0 = out@;
        out.push(modified[k].clone());
        assert(out@.map_values(|s: String| s@) =~= seq![conflict_header()] + modified@.map_values(
            |s: String| s@,
        ).take(k + 1)) by {
            assert(out@.map_values(|s: String| s@) =~= o0.map_values(|s: String| s@).push(
                modified@[k as int]@,
            ));
        }
        k = k + 1;
    }
    let ghost mv = modified@.map_values(|s: String| s@);
    assert(mv.take(mv.len() as int) =~= mv);
    let mut k: usize = 0;
    while k < dirty.len()
        invariant
            k <= dirty@.len(),
            out@.map_values(|s: String| s@) == seq![conflict_header()] + mv + dirty@.map_values(
                |s: String| s@,
            ).take(k as int),
        decreases dirty.len() - k,
    {
        let ghost o0 = out@;
        out.push(dirty[k].clone());
        assert(out@.map_values(|s: String| s@) =~= seq![conflict_header()] + mv + dirty@.map_values(
            |s: String| s@,
        ).take(k + 1)) by {
            assert(out@.map_values(|s: String| s@) =~= o0.map_values(|s: String| s@).push(
                dirty@[k as int]@,
            ));
        }
        k = k + 1;
    }
    let ghost dv = dirty@.map_values(|s: String| s@);
    assert(dv.take(dv.len() as int) =~= dv);
    Some(out)
}

/// How a missing dependency is brought back before it is reset to its pin.
pub enum RestorePlan {
    /// No checkout: clone it from its source.
    Clone,
    /// A shallow checkout: fetch its full history (falling back to fetching the pinned
    /// commit alone when that fails).
    Unshallow,
    /// A full checkout: fetch from its origin.
    Fetch,
}

/// The way a missing dependency is restored: a clone when its folder is absent, else a
/// fetch, with full history for a shallow clone.
pub fn restore_plan(exists: bool, shallow: bool) -> (r: RestorePlan)
    ensures
        !exists ==> r is Clone,
        exists && shallow ==> r is Unshallow,
        exists && !shallow ==> r is Fetch,
{
    if !exists {
        RestorePlan::Clone
    } else if shallow {
        RestorePlan::Unshallow
    } else {
        RestorePlan::Fetch
    }
}

/// The line that ends a successful sync, which says whether some dependencies were
/// skipped.
pub fn sync_finished_line(any_skipped: bool) -> (r: StatusLine)
    ensures
        any_skipped ==> r@ == line(
            "Finished"@,
            "success"@,
            "sync complete (some dependencies were skipped)"@,
        ),
        !any_skipped ==> r@ == line("Finished"@, "success"@, "all dependencies up to date"@),
{
    if any_skipped {
        status_line(
            "Finished",
            "success",
            "sync complete (some dependencies were skipped)".to_owned(),
        )
    } else {
        status_line("Finished", "success", "all dependencies up to date".to_owned())
    }
}

/// The `git fetch` arguments of `odyn update`: a shallow clone fetches its full history.
pub fn update_fetch_args(shallow: bool) -> (r: Vec<&'static str>)
    ensures
        shallow ==> r@.map_values(|a: &str| a@) == seq!["fetch"@, "origin"@, "--quiet"@, "--unshallow"@],
        !shallow ==> r@.map_values(|a: &str| a@) == seq!["fetch"@, "origin"@, "--quiet"@],
{
    let mut r: Vec<&'static str> = Vec::new();
    r.push("fetch");
    r.push("origin");
    r.push("--quiet");
    if shallow {
        r.push("--unshallow");
    }
    assert(shallow ==> r@.map_values(|a: &str| a@) =~= seq!["fetch"@, "origin"@, "--quiet"@, "--unshallow"@]);
    assert(!shallow ==> r@.map_values(|a: &str| a@) =~= seq!["fetch"@, "origin"@, "--quiet"@]);
    r
}

// ---------------------------------------------------------------------------------------------
// Running a sync, step by step
// ---------------------------------------------------------------------------------------------

/// The line `odyn sync` prints, and stops after, when the lockfile pins nothing.
pub fn nothing_to_sync(lockfile: &Lockfile) -> (r: Option<StatusLine>)
    ensures
        r is Some <==> lockfile@.len() == 0,
        r matches Some(l) ==> l@ == line("Sync"@, "info"@, "no dependencies to sync"@),
{
    if lockfile.dep.len() == 0 {
        Some(status_line("Sync", "info", "no dependencies to sync".to_owned()))
    } else {
        None
    }
}

/// A git command that restoring a dependency runs.
pub enum RestoreStep {
    /// `git fetch origin --quiet --unshallow` in a shallow checkout.
    Unshallow,
    /// `git fetch origin <commit> --quiet`, once the full history could not be fetched.
    FetchPinned,
    /// `git fetch origin --quiet` in a full checkout.
    Fetch,
    /// `git clone <source> odyn_deps/<name>`.
    Clone,
    /// `git reset --hard <commit>` in the checkout.
    Reset,
}

/// How a git command ended.
pub enum GitOutcome {
    /// It ran and exited successfully.
    Succeeded,
    /// It ran and exited with a failure.
    Failed,
    /// It could not be started; `message` says why.
    NotRun { message: String },
}

/// The value of a [`GitOutcome`].
pub enum OutcomeView {
    Succeeded,
    Failed,
    NotRun(Seq<char>),
}

impl View for GitOutcome {
    type V = OutcomeView;

    open spec fn view(&self) -> OutcomeView {
        match self {
            GitOutcome::Succeeded => OutcomeView::Succeeded,
            GitOutcome::Failed => OutcomeView::Failed,
            GitOutcome::NotRun { message } => OutcomeView::NotRun(message@),
        }
    }
}

/// What `odyn sync` does next for one dependency.
pub enum SyncAction {
    /// Print `lines`, then run `git` with `args` (inside the checkout when `in_checkout`,
    /// else in the project directory) and hand back how it ended as the outcome of `step`.
    Run { lines: Vec<StatusLine>, args: Vec<String>, in_checkout: bool, step: RestoreStep },
    /// Print `lines`; this dependency is done.
    Done { lines: Vec<StatusLine> },
    /// Stop the sync with the error `message`.
    Fail { message: String },
}

/// The value of a [`SyncAction`].
pub enum ActionView {
    Run { lines: Seq<LineView>, args: Seq<Seq<char>>, in_checkout: bool, step: RestoreStep },
    Done(Seq<LineView>),
    Fail(Seq<char>),
}

impl View for SyncAction {
    type V = ActionView;

    open spec fn view(&self) -> ActionView {
        match self {
            SyncAction::Run { lines, args, in_checkout, step } => ActionView::Run {
                lines: line_views(lines@),
                args: args@.map_values(|a: String| a@),
                in_checkout: *in_checkout,
                step: *step,
            },
            SyncAction::Done { lines } => ActionView::Done(line_views(lines@)),
            SyncAction::Fail { message } => ActionView::Fail(message@),
        }
    }
}

/// Where a dependency is checked out.
pub open spec fn deps_path(name: Seq<char>) -> Seq<char> {
    "odyn_deps/"@ + name
}

/// Run `args` as `step`: a clone runs in the project directory, every other step in the
/// checkout.
pub open spec fn run_step(lines: Seq<LineView>, args: Seq<Seq<char>>, step: RestoreStep) -> ActionView {
    ActionView::Run { lines, args, in_checkout: !(step is Clone), step }
}

/// The `git reset` that puts a checkout at its pin.
pub open spec fn reset_args(d: DepView) -> Seq<Seq<char>> {
    seq!["reset"@, "--hard"@, d.commit]
}

/// The line printed before a fetched checkout is reset.
pub open spec fn resetting_line(d: DepView) -> LineView {
    line("Resetting"@, "load"@, quoted(d.name) + " to pinned commit..."@)
}

/// The first action for a dependency whose state is `s`, its folder existing when `exists`
/// and holding a shallow clone when `shallow`: a pinned one is reported verified; a
/// missing one is cloned when absent, else fetched (with full history when shallow) before
/// it is reset; a blocked one, which the conflict report has stopped already, gets nothing.
pub open spec fn sync_start_of(d: DepView, s: StateView, exists: bool, shallow: bool) -> ActionView {
    match s {
        StateView::Pinned => ActionView::Done(seq![line("Verified"@, "info"@, quoted(d.name))]),
        StateView::Missing => if !exists {
            run_step(
                seq![line("Syncing"@, "load"@, quoted(d.name) + ", cloning..."@)],
                seq!["clone"@, d.source, deps_path(d.name)],
                RestoreStep::Clone,
            )
        } else if shallow {
            run_step(
                seq![line("Fetching"@, "load"@, quoted(d.name) + " with full history..."@)],
                seq!["fetch"@, "origin"@, "--quiet"@, "--unshallow"@],
                RestoreStep::Unshallow,
            )
        } else {
            run_step(
                seq![line("Fetching"@, "load"@, quoted(d.name) + " before reset..."@)],
                seq!["fetch"@, "origin"@, "--quiet"@],
                RestoreStep::Fetch,
            )
        },
        _ => ActionView::Done(seq![]),
    }
}

/// The action after `step` ended with `o`: a failed unshallow falls back to fetching the
/// pinned commit alone, whose outcome does not matter; a fetch or clone that fails stops
/// the sync, and one that succeeds is followed by the reset; a reset that succeeds ends
/// with `Synced`, and one that fails stops the sync. A command that could not be started
/// stops the sync with its message, except the unshallow and the pinned fetch.
pub open spec fn sync_next_of(d: DepView, step: RestoreStep, o: OutcomeView) -> ActionView {
    match step {
        RestoreStep::Unshallow => if o is Succeeded {
            run_step(seq![resetting_line(d)], reset_args(d), RestoreStep::Reset)
        } else {
            run_step(
                seq![
                    line(
                        "Hint"@,
                        "info"@,
                        "unshallow failed for "@ + quoted(d.name)
                            + ", trying shallow fetch of pinned commit"@,
                    ),
                ],
                seq!["fetch"@, "origin"@, d.commit, "--quiet"@],
                RestoreStep::FetchPinned,
            )
        },
        RestoreStep::FetchPinned => run_step(
            seq![resetting_line(d)],
            reset_args(d),
            RestoreStep::Reset,
        ),
        RestoreStep::Fetch => match o {
            OutcomeView::Succeeded => run_step(
                seq![resetting_line(d)],
                reset_args(d),
                RestoreStep::Reset,
            ),
            OutcomeView::Failed => ActionView::Fail(
                "failed to fetch "@ + quoted(d.name) + " before reset"@,
            ),
            OutcomeView::NotRun(m) => ActionView::Fail(m),
        },
        RestoreStep::Clone => match o {
            OutcomeView::Succeeded => run_step(seq![], reset_args(d), RestoreStep::Reset),
            OutcomeView::Failed => ActionView::Fail("failed to clone "@ + quoted(d.name)),
            OutcomeView::NotRun(m) => ActionView::Fail(m),
        },
        RestoreStep::Reset => match o {
            OutcomeView::Succeeded => ActionView::Done(seq![line("Synced"@, "done"@, quoted(d.name))]),
            OutcomeView::Failed => ActionView::Fail(
                "failed to reset "@ + quoted(d.name) + " to pinned commit"@,
            ),
            OutcomeView::NotRun(m) => ActionView::Fail(m),
        },
    }
}

/// One status line in a vector.
fn one_line(l: StatusLine) -> (r: Vec<StatusLine>)
    ensures
        line_views(r@) == seq![l@],
{
    let mut r: Vec<StatusLine> = Vec::new();
    r.push(l);
    assert(line_views(r@) =~= seq![l@]);
    r
}

/// `quoted(name) + tail`.
fn quoted_then(name: &str, tail: &str) -> (r: String)
    ensures
        r@ == quoted(name@) + tail@,
{
    let mut m = quote(name);
    push_str(&mut m, tail);
    m
}

/// The action that resets the checkout of `d`, printing `lines` first.
fn reset_action(d: &Dep, lines: Vec<StatusLine>) -> (r: SyncAction)
    ensures
        r@ == run_step(line_views(lines@), reset_args(d@), RestoreStep::Reset),
{
    let mut args: Vec<String> = Vec::new();
    args.push("reset".to_owned());
    args.push("--hard".to_owned());
    args.push(d.commit.clone());
    assert(args@.map_values(|a: String| a@) =~= reset_args(d@));
    SyncAction::Run { lines, args, in_checkout: true, step: RestoreStep::Reset }
}

/// The first action of `odyn sync` for a dependency in state `state`.
pub fn sync_start(d: &Dep, state: &DepState, exists: bool, shallow: bool) -> (r: SyncAction)
    ensures
        r@ == sync_start_of(d@, state@, exists, shallow),
{
    match state {
        DepState::Pinned => {
            let lines = one_line(status_line("Verified", "info", quote(d.name.as_str())));
            SyncAction::Done { lines }
        },
        DepState::Missing => {
            let mut args: Vec<String> = Vec::new();
            let plan = restore_plan(exists, shallow);
            if matches!(plan, RestorePlan::Clone) {
                let lines = one_line(
                    status_line("Syncing", "load", quoted_then(d.name.as_str(), ", cloning...")),
                );
                let mut path = String::new();
                push_str(&mut path, "odyn_deps/");
                push_str(&mut path, d.name.as_str());
                args.push("clone".to_owned());
                args.push(d.source.clone());
                args.push(path);
                assert(args@.map_values(|a: String| a@) =~= seq![
                    "clone"@,
                    d.source@,
                    deps_path(d.name@),
                ]);
                SyncAction::Run { lines, args, in_checkout: false, step: RestoreStep::Clone }
            } else if matches!(plan, RestorePlan::Unshallow) {
                let lines = one_line(
                    status_line(
                        "Fetching",
                        "load",
                        quoted_then(d.name.as_str(), " with full history..."),
                    ),
                );
                args.push("fetch".to_owned());
                args.push("origin".to_owned());
                args.push("--quiet".to_owned());
                args.push("--unshallow".to_owned());
                assert(args@.map_values(|a: String| a@) =~= seq![
                    "fetch"@,
                    "origin"@,
                    "--quiet"@,
                    "--unshallow"@,
                ]);
                SyncAction::Run { lines, args, in_checkout: true, step: RestoreStep::Unshallow }
            } else {
                let lines = one_line(
                    status_line("Fetching", "load", quoted_then(d.name.as_str(), " before reset...")),
                );
                args.push("fetch".to_owned());
                args.push("origin".to_owned());
                args.push("--quiet".to_owned());
                assert(args@.map_values(|a: String| a@) =~= seq!["fetch"@, "origin"@, "--quiet"@]);
                SyncAction::Run { lines, args, in_checkout: true, step: RestoreStep::Fetch }
            }
        },
        _ => {
            let lines: Vec<StatusLine> = Vec::new();
            assert(line_views(lines@) =~= Seq::<LineView>::empty());
            SyncAction::Done { lines }
        },
    }
}

/// The action of `odyn sync` after `step` ended with `outcome`.
pub fn sync_next(d: &Dep, step: RestoreStep, outcome: GitOutcome) -> (r: SyncAction)
    ensures
        r@ == sync_next_of(d@, step, outcome@),
{
    let resetting = status_line("Resetting", "load", quoted_then(d.name.as_str(), " to pinned commit..."));
    match step {
        RestoreStep::Unshallow => match outcome {
            GitOutcome::Succeeded => reset_action(d, one_line(resetting)),
            _ => {
                let mut m = String::new();
                push_str(&mut m, "unshallow failed for ");
                let q = quote(d.name.as_str());
                push_str(&mut m, q.as_str());
                push_str(&mut m, ", trying shallow fetch of pinned commit");
                let lines = one_line(status_line("Hint", "info", m));
                let mut args: Vec<String> = Vec::new();
                args.push("fetch".to_owned());
                args.push("origin".to_owned());
                args.push(d.commit.clone());
                args.push("--quiet".to_owned());
                assert(args@.map_values(|a: String| a@) =~= seq![
                    "fetch"@,
                    "origin"@,
                    d.commit@,
                    "--quiet"@,
                ]);
                SyncAction::Run { lines, args, in_checkout: true, step: RestoreStep::FetchPinned }
            },
        },
        RestoreStep::FetchPinned => reset_action(d, one_line(resetting)),
        RestoreStep::Fetch => match outcome {
            GitOutcome::Succeeded => reset_action(d, one_line(resetting)),
            GitOutcome::Failed => {
                let mut m = String::new();
                push_str(&mut m, "failed to fetch ");
                let q = quote(d.name.as_str());
                push_str(&mut m, q.as_str());
                push_str(&mut m, " before reset");
                SyncAction::Fail { message: m }
            },
            GitOutcome::NotRun { message } => SyncAction::Fail { message },
        },
        RestoreStep::Clone => match outcome {
            GitOutcome::Succeeded => {
                let lines: Vec<StatusLine> = Vec::new();
                assert(line_views(lines@) =~= Seq::<LineView>::empty());
                reset_action(d, lines)
            },
            GitOutcome::Failed => {
                let mut m = String::new();
                push_str(&mut m, "failed to clone ");
                let q = quote(d.name.as_str());
                push_str(&mut m, q.as_str());
                SyncAction::Fail { message: m }
            },
            GitOutcome::NotRun { message } => SyncAction::Fail { message },
        },
        RestoreStep::Reset => match outcome {
            GitOutcome::Succeeded => {
                let lines = one_line(status_line("Synced", "done", quote(d.name.as_str())));
                SyncAction::Done { lines }
            },
            GitOutcome::Failed => {
                let mut m = String::new();
                push_str(&mut m, "failed to reset ");
                let q = quote(d.name.as_str());
                push_str(&mut m, q.as_str());
                push_str(&mut m, " to pinned commit");
                SyncAction::Fail { message: m }
            },
            GitOutcome::NotRun { message } => SyncAction::Fail { message },
        },
    }
}

// ---------------------------------------------------------------------------------------------
// Laws
// ---------------------------------------------------------------------------------------------

/// With `--force`, local changes never stop a sync: every state is `Pinned` or `Missing`.
pub proof fn force_never_blocks(d: DepView, o: SyncObsView)
    ensures
        !blocks(sync_state_of(d, o, true)),
        sync_state_of(d, o, true) is Pinned || sync_state_of(d, o, true) is Missing,
{
}

/// A checkout at its pinned commit without local changes is left alone, with or without
/// `--force`: syncing a synced tree changes nothing.
pub proof fn synced_dependency_is_left_alone(d: DepView, force: bool)
    ensures
        sync_state_of(d, SyncObsView::Present { head: d.commit, dirty: false }, force) is Pinned,
{
}

/// The checkout is at another commit than the pin, or has uncommitted changes.
pub open spec fn has_local_changes(d: DepView, o: SyncObsView) -> bool {
    match o {
        SyncObsView::Absent => false,
        SyncObsView::Present { head, dirty } => head != d.commit || dirty,
    }
}

/// A dependency is restored (cloned or reset) exactly when it is absent, or when `--force`
/// is given and its checkout has local changes.
pub proof fn restored_when_missing_or_forced(d: DepView, o: SyncObsView, force: bool)
    ensures
        (sync_state_of(d, o, force) is Missing) <==> (o is Absent || (force && has_local_changes(
            d,
            o,
        ))),
{
}

/// `odyn status` and `odyn sync` agree: without `--force`, a checkout that status reports at
/// its pin is never reset by sync, and one that status reports at another commit is
/// reported modified by sync.
pub proof fn status_and_sync_agree(d: DepView, head: Seq<char>, dirty: bool)
    ensures
        is_pinned(d, HeadView::At(head)) ==> !(sync_state_of(
            d,
            SyncObsView::Present { head, dirty },
            false,
        ) is Missing),
        !is_pinned(d, HeadView::At(head)) ==> sync_state_of(
            d,
            SyncObsView::Present { head, dirty },
            false,
        ) == StateView::Modified(head),
{
}

/// The conflict report appears exactly when some entry is modified or dirty, and then it
/// has one line per such entry after the header.
pub proof fn conflict_lines_count(es: Seq<(DepView, StateView)>)
    ensures
        conflict_lines(es) is Some <==> any_blocked(es),
        any_blocked(es) ==> conflict_lines(es)->0.len() == 1 + blocked_count(es),
{
    lemma_line_counts(es);
}

/// The number of entries that block the sync.
pub open spec fn blocked_count(es: Seq<(DepView, StateView)>) -> nat
    decreases es.len(),
{
    if es.len() == 0 {
        0
    } else {
        blocked_count(es.drop_last()) + if blocks(es.last().1) {
            1nat
        } else {
            0nat
        }
    }
}

proof fn lemma_line_counts(es: Seq<(DepView, StateView)>)
    ensures
        modified_lines(es).len() + dirty_lines(es).len() == blocked_count(es),
    decreases es.len(),
{
    if es.len() > 0 {
        lemma_line_counts(es.drop_last());
    }
}

/// A second sync changes nothing: a checkout that git left at its pin without local
/// changes is reported verified, with or without `--force`, and no git command is run.
pub proof fn synced_dependency_runs_nothing(d: DepView, force: bool, shallow: bool)
    ensures
        sync_start_of(
            d,
            sync_state_of(d, SyncObsView::Present { head: d.commit, dirty: false }, force),
            true,
            shallow,
        ) == ActionView::Done(seq![line("Verified"@, "info"@, quoted(d.name))]),
{
}

/// Restoring a dependency is done only once its checkout was reset successfully: every
/// other step leads to a further git command or stops the sync.
pub proof fn restore_ends_with_reset(d: DepView, step: RestoreStep, o: OutcomeView)
    ensures
        sync_next_of(d, step, o) is Done ==> step is Reset && o is Succeeded,
        step is Reset && o is Succeeded ==> sync_next_of(d, step, o) is Done,
        !(step is Reset) && !(sync_next_of(d, step, o) is Fail) ==> sync_next_of(d, step, o) is Run,
{
}

/// Every `git reset` that sync runs for a dependency puts its checkout at the pinned commit,
/// inside the checkout, whatever step and outcome come before it; and the fetches and the
/// clone run only for the dependency's own source and commit.
pub proof fn sync_resets_to_pin(
    d: DepView,
    step: RestoreStep,
    o: OutcomeView,
    s: StateView,
    exists: bool,
    shallow: bool,
)
    ensures
        sync_next_of(d, step, o) matches ActionView::Run { args, in_checkout, step: next, .. }
            ==> (next is Reset ==> args == seq!["reset"@, "--hard"@, d.commit] && in_checkout),
        sync_start_of(d, s, exists, shallow) matches ActionView::Run { args, in_checkout, step: next, .. }
            ==> !(next is Reset) && (next is Clone ==> args == seq!["clone"@, d.source, "odyn_deps/"@ + d.name])
            && (in_checkout <==> !(next is Clone)),
        (step is Fetch || step is FetchPinned || step is Clone) && (o is Succeeded || step is FetchPinned)
            ==> (sync_next_of(d, step, o) matches ActionView::Run { args, step: next, .. } && next is Reset
            && args == seq!["reset"@, "--hard"@, d.commit]),
{
}

} // verus!

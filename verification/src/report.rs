//! Status lines (`label`, style, message) and the `odyn status` report.
use vstd::prelude::*;

use crate::lockfile::{short, short_commit, Dep, DepView};
use crate::text::{pad_left, pad_left_exec, push_str, same_text};

verus! {

/// A line printed through the status style: a right-aligned label in a style, then a
/// message.
pub struct StatusLine {
    pub label: String,
    pub style: String,
    pub message: String,
}

/// The value of a [`StatusLine`].
pub struct LineView {
    pub label: Seq<char>,
    pub style: Seq<char>,
    pub message: Seq<char>,
}

impl View for StatusLine {
    type V = LineView;

    open spec fn view(&self) -> LineView {
        LineView { label: self.label@, style: self.style@, message: self.message@ }
    }
}

/// The values of a sequence of status lines.
pub open spec fn line_views(s: Seq<StatusLine>) -> Seq<LineView> {
    s.map_values(|l: StatusLine| l@)
}

/// A status line made of three texts.
pub open spec fn line(label: Seq<char>, style: Seq<char>, message: Seq<char>) -> LineView {
    LineView { label, style, message }
}

/// `'name'`.
pub open spec fn quoted(s: Seq<char>) -> Seq<char> {
    "'"@ + s + "'"@
}

/// The farben markup of a status line: `[style]` and the label right-aligned in twelve
/// columns, then the message after a reset and a space.
pub open spec fn status_markup(l: LineView) -> Seq<char> {
    "["@ + l.style + "]"@ + pad_left(l.label, 12) + "[/] "@ + l.message
}

/// Builds a status line.
pub fn status_line(label: &str, style: &str, message: String) -> (r: StatusLine)
    ensures
        r@ == line(label@, style@, message@),
{
    StatusLine { label: label.to_owned(), style: style.to_owned(), message }
}

/// `'name'`.
pub fn quote(s: &str) -> (r: String)
    ensures
        r@ == quoted(s@),
{
    let mut r = String::new();
    push_str(&mut r, "'");
    push_str(&mut r, s);
    push_str(&mut r, "'");
    r
}

/// The markup that prints a status line.
pub fn render_status(l: &StatusLine) -> (r: String)
    ensures
        r@ == status_markup(l@),
{
    let mut r = String::new();
    push_str(&mut r, "[");
    push_str(&mut r, l.style.as_str());
    push_str(&mut r, "]");
    let padded = pad_left_exec(l.label.as_str(), 12);
    push_str(&mut r, padded.as_str());
    push_str(&mut r, "[/] ");
    push_str(&mut r, l.message.as_str());
    r
}

// ---------------------------------------------------------------------------------------------
// odyn status
// ---------------------------------------------------------------------------------------------

/// What was found on disk for one dependency when checking its status.
pub enum HeadObservation {
    /// `odyn_deps/<name>` does not exist.
    Missing,
    /// Reading the checked-out commit failed, with this error.
    Unreadable(String),
    /// The checkout is at this commit.
    At(String),
}

/// The value of a [`HeadObservation`].
pub enum HeadView {
    Missing,
    Unreadable(Seq<char>),
    At(Seq<char>),
}

impl View for HeadObservation {
    type V = HeadView;

    open spec fn view(&self) -> HeadView {
        match self {
            HeadObservation::Missing => HeadView::Missing,
            HeadObservation::Unreadable(e) => HeadView::Unreadable(e@),
            HeadObservation::At(c) => HeadView::At(c@),
        }
    }
}

/// The dependency is present at its pinned commit.
pub open spec fn is_pinned(d: DepView, o: HeadView) -> bool {
    o matches HeadView::At(c) && c == d.commit
}

/// The status line reported for one dependency.
pub open spec fn status_entry(d: DepView, o: HeadView) -> LineView {
    match o {
        HeadView::Missing => line("Missing"@, "error"@, quoted(d.name)),
        HeadView::Unreadable(e) => line("Error"@, "error"@, quoted(d.name) + ": "@ + e),
        HeadView::At(c) => if c == d.commit {
            line("Ok"@, "success"@, quoted(d.name) + " at "@ + short_commit(d.commit))
        } else {
            line(
                "Modified"@,
                "error"@,
                quoted(d.name) + ": expected "@ + short_commit(d.commit) + " but found "@
                    + short_commit(c),
            )
        },
    }
}

/// The report of `odyn status`: the lines to print, and whether every dependency is
/// present at its pinned commit (when not, the command fails with
/// "some dependencies are missing or modified").
pub struct StatusReport {
    pub lines: Vec<StatusLine>,
    pub all_ok: bool,
}

/// The lines `odyn status` prints for the given dependencies and observations.
pub open spec fn status_lines(deps: Seq<DepView>, obs: Seq<HeadView>) -> Seq<LineView> {
    if deps.len() == 0 {
        seq![line("Status"@, "info"@, "no dependencies"@)]
    } else {
        Seq::new(deps.len(), |i: int| status_entry(deps[i], obs[i]))
    }
}

/// Every dependency is present at its pinned commit.
pub open spec fn all_pinned(deps: Seq<DepView>, obs: Seq<HeadView>) -> bool {
    forall|i: int| 0 <= i < deps.len() ==> is_pinned(deps[i], obs[i])
}

/// The status line of one dependency.
fn status_entry_exec(d: &Dep, o: &HeadObservation) -> (r: (StatusLine, bool))
    ensures
        r.0@ == status_entry(d@, o@),
        r.1 == is_pinned(d@, o@),
{
    match o {
        HeadObservation::Missing => (status_line("Missing", "error", quote(d.name.as_str())), false),
        HeadObservation::Unreadable(e) => {
            let mut m = quote(d.name.as_str());
            push_str(&mut m, ": ");
            push_str(&mut m, e.as_str());
            (status_line("Error", "error", m), false)
        },
        HeadObservation::At(c) => {
            if same_text(c.as_str(), d.commit.as_str()) {
                let mut m = quote(d.name.as_str());
                push_str(&mut m, " at ");
                let s = short(d.commit.as_str());
                push_str(&mut m, s.as_str());
                (status_line("Ok", "success", m), true)
            } else {
                let mut m = quote(d.name.as_str());
                push_str(&mut m, ": expected ");
                let s1 = short(d.commit.as_str());
                push_str(&mut m, s1.as_str());
                push_str(&mut m, " but found ");
                let s2 = short(c.as_str());
                push_str(&mut m, s2.as_str());
                (status_line("Modified", "error", m), false)
            }
        },
    }
}

/// `odyn status`: one line per pinned dependency, saying whether its checkout is at the
/// pinned commit (`Ok`), absent (`Missing`), unreadable (`Error`) or at another commit
/// (`Modified`); `observed[i]` is what was found for `deps[i]`.
pub fn cmd_status(deps: &[Dep], observed: &[HeadObservation]) -> (r: StatusReport)
    requires
        deps@.len() == observed@.len(),
    ensures
        line_views(r.lines@) == status_lines(
            deps@.map_values(|d: Dep| d@),
            observed@.map_values(|o: HeadObservation| o@),
        ),
        r.all_ok == all_pinned(
            deps@.map_values(|d: Dep| d@),
            observed@.map_values(|o: HeadObservation| o@),
        ),
        r.all_ok <==> (forall|i: int|
            0 <= i < deps@.len() ==> #[trigger] observed@[i]@ == HeadView::At(deps@[i]@.commit)),
{
    let ghost dv = deps@.map_values(|d: Dep| d@);
    let ghost ov = observed@.map_values(|o: HeadObservation| o@);
    proof {
        status_ok_exactly_when_all_at_pin(dv, ov);
        assert forall|i: int| 0 <= i < deps@.len() implies (#[trigger] observed@[i]@
            == HeadView::At(deps@[i]@.commit)) == (ov[i] == HeadView::At(dv[i].commit)) by {
            assert(ov[i] == observed@[i]@);
            assert(dv[i] == deps@[i]@);
        }
    }
    let mut lines: Vec<StatusLine> = Vec::new();
    if deps.len() == 0 {
        lines.push(status_line("Status", "info", "no dependencies".to_owned()));
        assert(line_views(lines@) =~= status_lines(dv, ov));
        return StatusReport { lines, all_ok: true };
    }
    let mut all_ok = true;
    let mut i: usize = 0;
    while i < deps.len()
        invariant
            deps@.len() == observed@.len(),
            dv == deps@.map_values(|d: Dep| d@),
            ov == observed@.map_values(|o: HeadObservation| o@),
            i <= deps@.len(),
            line_views(lines@) == Seq::new(i as nat, |k: int| status_entry(dv[k], ov[k])),
            all_ok == (forall|k: int| 0 <= k < i ==> is_pinned(dv[k], ov[k])),
        decreases deps.len() - i,
    {
        let (l, ok) = status_entry_exec(&deps[i], &observed[i]);
        let ghost before = lines@;
        lines.push(l);
        assert(line_views(lines@) =~= Seq::new((i + 1) as nat, |k: int| status_entry(dv[k], ov[k])))
            by {
            assert(line_views(lines@) =~= line_views(before).push(l@));
        }
        proof {
            assert(dv[i as int] == deps@[i as int]@);
            assert(ov[i as int] == observed@[i as int]@);
            assert((all_ok && ok) == (forall|k: int| 0 <= k < i + 1 ==> is_pinned(dv[k], ov[k])))
                by {
                if all_ok && ok {
                    assert forall|k: int| 0 <= k < i + 1 implies is_pinned(dv[k], ov[k]) by {
                        if k < i {
                        }
                    }
                }
            }
        }
        all_ok = all_ok && ok;
        i = i + 1;
    }
    assert(line_views(lines@) =~= status_lines(dv, ov));
    StatusReport { lines, all_ok }
}

/// The line `odyn update` prints once a dependency is re-pinned: its name and the short
/// form of its new commit.
pub fn updated_line(name: &str, commit: &str) -> (r: StatusLine)
    ensures
        r@ == line("Updated"@, "success"@, quoted(name@) + " \u{2192} "@ + short_commit(commit@)),
{
    let mut m = quote(name);
    push_str(&mut m, " \u{2192} ");
    let s = short(commit);
    push_str(&mut m, s.as_str());
    status_line("Updated", "success", m)
}

/// `odyn status` succeeds exactly when every dependency is found at its own pinned commit:
/// one that is missing, unreadable or at another commit makes it fail.
pub proof fn status_ok_exactly_when_all_at_pin(deps: Seq<DepView>, obs: Seq<HeadView>)
    requires
        deps.len() == obs.len(),
    ensures
        all_pinned(deps, obs) <==> (forall|i: int|
            0 <= i < deps.len() ==> #[trigger] obs[i] == HeadView::At(deps[i].commit)),
        forall|i: int|
            0 <= i < deps.len() && (obs[i] is Missing || obs[i] is Unreadable) ==> !all_pinned(
                deps,
                obs,
            ),
{
    assert forall|i: int| 0 <= i < deps.len() implies is_pinned(deps[i], obs[i]) == (obs[i]
        == HeadView::At(deps[i].commit)) by {
        match obs[i] {
            HeadView::At(c) => {},
            _ => {},
        }
    }
    assert forall|i: int|
        0 <= i < deps.len() && (obs[i] is Missing || obs[i] is Unreadable) implies !all_pinned(
        deps,
        obs,
    ) by {
        assert(!is_pinned(deps[i], obs[i]));
    }
}

} // verus!

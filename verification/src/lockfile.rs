//! The lockfile model: the pinned dependencies and the edits that `get`, `update` and
//! `remove` make to them.
use vstd::prelude::*;

use crate::text::{char_prefix, chars_equal, chars_of, same_text, string_of};

verus! {

/// One pinned dependency: its folder name under `odyn_deps/`, its Git source and the
/// commit it is pinned to.
pub struct Dep {
    pub name: String,
    pub source: String,
    pub commit: String,
}

/// The contents of `Odyn.lock`: the pinned dependencies, in file order.
pub struct Lockfile {
    pub dep: Vec<Dep>,
}

/// The value of a [`Dep`].
pub struct DepView {
    pub name: Seq<char>,
    pub source: Seq<char>,
    pub commit: Seq<char>,
}

impl View for Dep {
    type V = DepView;

    open spec fn view(&self) -> DepView {
        DepView { name: self.name@, source: self.source@, commit: self.commit@ }
    }
}

/// The values of a sequence of dependencies.
pub open spec fn dep_views(s: Seq<Dep>) -> Seq<DepView> {
    s.map_values(|d: Dep| d@)
}

impl View for Lockfile {
    type V = Seq<DepView>;

    open spec fn view(&self) -> Seq<DepView> {
        dep_views(self.dep@)
    }
}

/// Some dependency is named `name`.
pub open spec fn has_name(deps: Seq<DepView>, name: Seq<char>) -> bool {
    exists|i: int| 0 <= i < deps.len() && deps[i].name == name
}

/// Some dependency comes from `source`.
pub open spec fn has_source(deps: Seq<DepView>, source: Seq<char>) -> bool {
    exists|i: int| 0 <= i < deps.len() && deps[i].source == source
}

/// No two dependencies share a name.
pub open spec fn names_unique(deps: Seq<DepView>) -> bool {
    forall|i: int, j: int| 0 <= i < j < deps.len() ==> deps[i].name != deps[j].name
}

/// The dependencies whose name is not `name`, in their order.
pub open spec fn without_name(deps: Seq<DepView>, name: Seq<char>) -> Seq<DepView>
    decreases deps.len(),
{
    if deps.len() == 0 {
        seq![]
    } else {
        let rest = without_name(deps.drop_last(), name);
        if deps.last().name == name {
            rest
        } else {
            rest.push(deps.last())
        }
    }
}

/// Position of the first dependency named `name`, or `-1`.
pub open spec fn first_named(deps: Seq<DepView>, name: Seq<char>) -> int
    decreases deps.len(),
{
    if deps.len() == 0 {
        -1
    } else if deps[0].name == name {
        0
    } else {
        let r = first_named(deps.drop_first(), name);
        if r < 0 {
            -1
        } else {
            r + 1
        }
    }
}

/// The dependencies with the first one named `name` re-pinned to `commit`.
pub open spec fn repinned(deps: Seq<DepView>, name: Seq<char>, commit: Seq<char>) -> Seq<
    DepView,
> {
    let i = first_named(deps, name);
    if 0 <= i < deps.len() {
        deps.update(i, DepView { commit: commit, ..deps[i] })
    } else {
        deps
    }
}

/// What `odyn get` does with a resolved source and name, given the lockfile.
pub enum AddPlan {
    /// A dependency from this source is already pinned: nothing to do.
    AlreadyPresent,
    /// Another source is pinned under this name: refused.
    NameTaken,
    /// Clone and pin it.
    Add,
}

/// The plan for adding `source` under `name`: an existing source wins over a name clash.
pub open spec fn add_plan(deps: Seq<DepView>, source: Seq<char>, name: Seq<char>) -> AddPlan {
    if has_source(deps, source) {
        AddPlan::AlreadyPresent
    } else if has_name(deps, name) {
        AddPlan::NameTaken
    } else {
        AddPlan::Add
    }
}

/// The short form of a commit shown to the user: its first seven characters.
pub open spec fn short_commit(commit: Seq<char>) -> Seq<char> {
    char_prefix(commit, 7)
}

/// `position` is where the first dependency named `name` stands.
proof fn lemma_first_named(deps: Seq<DepView>, name: Seq<char>)
    ensures
        -1 <= first_named(deps, name) < deps.len(),
        first_named(deps, name) >= 0 ==> deps[first_named(deps, name)].name == name,
        forall|j: int| 0 <= j < first_named(deps, name) ==> deps[j].name != name,
        first_named(deps, name) < 0 ==> !has_name(deps, name),
    decreases deps.len(),
{
    if deps.len() > 0 && deps[0].name != name {
        let t = deps.drop_first();
        lemma_first_named(t, name);
        assert forall|j: int| 0 <= j < first_named(deps, name) implies deps[j].name != name by {
            if j > 0 {
                assert(deps[j] == t[j - 1]);
            }
        }
        if first_named(deps, name) < 0 {
            assert forall|j: int| 0 <= j < deps.len() implies deps[j].name != name by {
                if j > 0 {
                    assert(deps[j] == t[j - 1]);
                }
            }
        }
    }
}

proof fn lemma_first_named_at(deps: Seq<DepView>, name: Seq<char>, k: int)
    requires
        0 <= k < deps.len(),
        deps[k].name == name,
        forall|j: int| 0 <= j < k ==> deps[j].name != name,
    ensures
        first_named(deps, name) == k,
{
    lemma_first_named(deps, name);
    let f = first_named(deps, name);
    if f < 0 {
        assert(has_name(deps, name));
    } else if f < k {
        assert(deps[f].name != name);
    } else if k < f {
        assert(deps[k].name != name);
    }
}

/// The first seven characters of a commit, for display.
pub fn short(commit: &str) -> (r: String)
    ensures
        r@ == short_commit(commit@),
{
    char_prefix_of(commit, 7)
}

/// The first `n` characters of `s`, as many as there are when fewer.
pub fn char_prefix_of(s: &str, n: usize) -> (r: String)
    ensures
        r@ == char_prefix(s@, n as nat),
{
    let cs = chars_of(s);
    let end = if cs.len() < n {
        cs.len()
    } else {
        n
    };
    let r = string_of(&cs, 0, end);
    assert(cs@.subrange(0, cs@.len() as int) =~= cs@);
    r
}

impl Dep {
    /// A dependency pinned to `commit`.
    pub fn new(name: String, source: String, commit: String) -> (r: Dep)
        ensures
            r@ == (DepView { name: name@, source: source@, commit: commit@ }),
    {
        Dep { name, source, commit }
    }

    /// A copy of this dependency.
    pub fn duplicate(&self) -> (r: Dep)
        ensures
            r@ == self@,
    {
        Dep { name: self.name.clone(), source: self.source.clone(), commit: self.commit.clone() }
    }
}

impl Lockfile {
    /// The empty lockfile that `odyn init` writes.
    pub fn empty() -> (r: Lockfile)
        ensures
            r@ == Seq::<DepView>::empty(),
    {
        let r = Lockfile { dep: Vec::new() };
        assert(r@ =~= Seq::<DepView>::empty());
        r
    }

    /// Whether some dependency is named `name`.
    pub fn contains_name(&self, name: &str) -> (r: bool)
        ensures
            r == has_name(self@, name@),
    {
        let mut i: usize = 0;
        while i < self.dep.len()
            invariant
                i <= self.dep@.len(),
                forall|j: int| 0 <= j < i ==> self@[j].name != name@,
            decreases self.dep.len() - i,
        {
            if same_text(self.dep[i].name.as_str(), name) {
                assert(self@[i as int].name == name@);
                return true;
            }
            i = i + 1;
        }
        false
    }

    /// Whether some dependency comes from `source`.
    pub fn contains_source(&self, source: &str) -> (r: bool)
        ensures
            r == has_source(self@, source@),
    {
        let mut i: usize = 0;
        while i < self.dep.len()
            invariant
                i <= self.dep@.len(),
                forall|j: int| 0 <= j < i ==> self@[j].source != source@,
            decreases self.dep.len() - i,
        {
            if same_text(self.dep[i].source.as_str(), source) {
                assert(self@[i as int].source == source@);
                return true;
            }
            i = i + 1;
        }
        false
    }

    /// What `odyn get` does with `source` under `name`.
    pub fn plan_add(&self, source: &str, name: &str) -> (r: AddPlan)
        ensures
            r == add_plan(self@, source@, name@),
    {
        if self.contains_source(source) {
            AddPlan::AlreadyPresent
        } else if self.contains_name(name) {
            AddPlan::NameTaken
        } else {
            AddPlan::Add
        }
    }

    /// Pins one more dependency, after the others.
    pub fn push_dep(&mut self, d: Dep)
        ensures
            final(self)@ == old(self)@.push(d@),
    {
        self.dep.push(d);
        assert(final(self)@ =~= old(self)@.push(d@));
    }

    /// Drops every dependency named `name`, keeping the others in their order.
    pub fn remove_named(&mut self, name: &str)
        ensures
            final(self)@ == without_name(old(self)@, name@),
    {
        let ghost before = self@;
        let mut kept: Vec<Dep> = Vec::new();
        let n = chars_of(name);
        let mut i: usize = 0;
        while i < self.dep.len()
            invariant
                self@ == before,
                before == old(self)@,
                i <= before.len(),
                n@ == name@,
                dep_views(kept@) == without_name(before.take(i as int), name@),
            decreases self.dep.len() - i,
        {
            let d = &self.dep[i];
            let dn = chars_of(d.name.as_str());
            proof {
                assert(before.take(i + 1).drop_last() =~= before.take(i as int));
                assert(before.take(i + 1).last() == before[i as int]);
            }
            if !chars_equal(&dn, &n) {
                let ghost k = kept@;
                kept.push(d.duplicate());
                assert(dep_views(kept@) =~= dep_views(k).push(before[i as int]));
            }
            i = i + 1;
        }
        assert(before.take(before.len() as int) =~= before);
        self.dep = kept;
    }

    /// Re-pins the first dependency named `name` to `commit`; the others are untouched.
    pub fn repin(&mut self, name: &str, commit: &str)
        ensures
            final(self)@ == repinned(old(self)@, name@, commit@),
    {
        let ghost before = self@;
        let mut i: usize = 0;
        while i < self.dep.len()
            invariant
                self@ == before,
                before == old(self)@,
                i <= before.len(),
                forall|j: int| 0 <= j < i ==> before[j].name != name@,
            decreases self.dep.len() - i,
        {
            if same_text(self.dep[i].name.as_str(), name) {
                proof {
                    lemma_first_named_at(before, name@, i as int);
                }
                let d = Dep {
                    name: self.dep[i].name.clone(),
                    source: self.dep[i].source.clone(),
                    commit: commit.to_owned(),
                };
                let ghost old_deps = self.dep@;
                self.dep.set(i, d);
                assert(self@ =~= before.update(
                    i as int,
                    DepView { commit: commit@, ..before[i as int] },
                )) by {
                    assert(self.dep@ == old_deps.update(i as int, d));
                }
                assert(first_named(before, name@) == i);
                assert(self@ == repinned(before, name@, commit@));
                return;
            }
            i = i + 1;
        }
        proof {
            lemma_first_named(before, name@);
            if first_named(before, name@) >= 0 {
                assert(before[first_named(before, name@)].name != name@);
            }
        }
    }
}

// ---------------------------------------------------------------------------------------------
// Laws
// ---------------------------------------------------------------------------------------------

/// Removing a name leaves no dependency of that name and keeps every other dependency.
pub proof fn remove_affects_only_named(deps: Seq<DepView>, name: Seq<char>)
    ensures
        !has_name(without_name(deps, name), name),
        forall|i: int|
            0 <= i < deps.len() && deps[i].name != name ==> without_name(deps, name).contains(
                deps[i],
            ),
        forall|d: DepView| without_name(deps, name).contains(d) ==> deps.contains(d),
    decreases deps.len(),
{
    if deps.len() > 0 {
        let init = deps.drop_last();
        remove_affects_only_named(init, name);
        let rest = without_name(init, name);
        assert forall|i: int|
            0 <= i < deps.len() && deps[i].name != name implies without_name(
            deps,
            name,
        ).contains(deps[i]) by {
            if i < deps.len() - 1 {
                assert(deps[i] == init[i]);
                let k = choose|k: int| 0 <= k < rest.len() && rest[k] == init[i];
                if deps.last().name != name {
                    assert(rest.push(deps.last())[k] == deps[i]);
                }
            } else {
                assert(rest.push(deps.last())[rest.len() as int] == deps[i]);
            }
        }
        assert forall|d: DepView| without_name(deps, name).contains(d) implies deps.contains(
            d,
        ) by {
            let k = choose|k: int|
                0 <= k < without_name(deps, name).len() && without_name(deps, name)[k] == d;
            if k < rest.len() {
                assert(rest[k] == d);
                assert(rest.contains(d));
                assert(init.contains(d));
                let m = choose|m: int| 0 <= m < init.len() && init[m] == d;
                assert(deps[m] == d);
            } else {
                assert(deps[deps.len() - 1] == d);
            }
        }
        if has_name(without_name(deps, name), name) {
            let k = choose|k: int|
                0 <= k < without_name(deps, name).len() && without_name(deps, name)[k].name
                    == name;
            if k < rest.len() {
                assert(has_name(rest, name));
            }
        }
    }
}

/// Adding through the plan keeps dependency names unique: `odyn get` only pins a
/// dependency when no other one has its name.
pub proof fn add_keeps_names_unique(deps: Seq<DepView>, d: DepView)
    requires
        names_unique(deps),
        add_plan(deps, d.source, d.name) == AddPlan::Add,
    ensures
        names_unique(deps.push(d)),
        has_name(deps.push(d), d.name),
        has_source(deps.push(d), d.source),
{
    let s = deps.push(d);
    assert(s[deps.len() as int] == d);
    assert forall|i: int, j: int| 0 <= i < j < s.len() implies s[i].name != s[j].name by {
        if j == deps.len() {
            assert(s[i] == deps[i]);
        } else {
            assert(s[i] == deps[i] && s[j] == deps[j]);
        }
    }
}

/// Re-pinning changes no name, so it keeps names unique; it changes only the commit of
/// the dependency with that name.
pub proof fn repin_keeps_names(deps: Seq<DepView>, name: Seq<char>, commit: Seq<char>)
    requires
        names_unique(deps),
    ensures
        names_unique(repinned(deps, name, commit)),
        repinned(deps, name, commit).len() == deps.len(),
        forall|i: int|
            0 <= i < deps.len() && deps[i].name != name ==> repinned(deps, name, commit)[i]
                == deps[i],
        forall|i: int|
            0 <= i < deps.len() && deps[i].name == name ==> repinned(deps, name, commit)[i]
                == (DepView { commit: commit, ..deps[i] }),
{
    lemma_first_named(deps, name);
    let k = first_named(deps, name);
    if k >= 0 {
        assert forall|i: int| 0 <= i < deps.len() && deps[i].name == name implies i == k by {
            if i < k {
            } else if i > k {
                assert(deps[k].name != deps[i].name);
            }
        }
    }
}

/// Removing keeps names unique.
pub proof fn remove_keeps_names_unique(deps: Seq<DepView>, name: Seq<char>)
    requires
        names_unique(deps),
    ensures
        names_unique(without_name(deps, name)),
    decreases deps.len(),
{
    if deps.len() > 0 {
        let init = deps.drop_last();
        assert(names_unique(init)) by {
            assert forall|i: int, j: int| 0 <= i < j < init.len() implies init[i].name
                != init[j].name by {
                assert(init[i] == deps[i] && init[j] == deps[j]);
            }
        }
        remove_keeps_names_unique(init, name);
        remove_affects_only_named(init, name);
        let rest = without_name(init, name);
        if deps.last().name != name {
            let r = rest.push(deps.last());
            assert forall|i: int, j: int| 0 <= i < j < r.len() implies r[i].name != r[j].name by {
                if j == rest.len() {
                    assert(rest[i] == rest[i]);
                    assert(rest.contains(rest[i]));
                    assert(init.contains(rest[i]));
                    let m = choose|m: int| 0 <= m < init.len() && init[m] == rest[i];
                    assert(deps[m] == init[m]);
                    assert(deps[m].name != deps[deps.len() - 1].name);
                } else {
                    assert(r[i] == rest[i] && r[j] == rest[j]);
                }
            }
        }
    }
}

/// `odyn get` skips a source that is already pinned, whatever name it is asked to use,
/// and refuses a new source under a name that is already taken.
pub proof fn get_never_duplicates(deps: Seq<DepView>, source: Seq<char>, name: Seq<char>)
    ensures
        has_source(deps, source) ==> add_plan(deps, source, name) == AddPlan::AlreadyPresent,
        !has_source(deps, source) && has_name(deps, name) ==> add_plan(deps, source, name)
            == AddPlan::NameTaken,
        add_plan(deps, source, name) == AddPlan::Add ==> !has_source(deps, source) && !has_name(
            deps,
            name,
        ),
{
}

} // verus!

//! Reading what `git rev-parse HEAD` and `git status --porcelain=v2 --branch` print.
use vstd::prelude::*;

use crate::text::{chars_of, lines, lines_of, occurs_at_exec, slice_chars, starts_with, trim, trim_chars, views};

verus! {

/// The commit a dependency's checkout is at, from the output of `git rev-parse HEAD`:
/// the output with surrounding whitespace removed.
pub fn head_commit(stdout: &str) -> (r: String)
    ensures
        r@ == trim(stdout@),
{
    let cs = chars_of(stdout);
    let t = trim_chars(&cs);
    crate::text::string_of(&t, 0, t.len())
}

/// The prefix of the porcelain line that holds the checked-out commit.
pub open spec fn oid_prefix() -> Seq<char> {
    seq!['#', ' ', 'b', 'r', 'a', 'n', 'c', 'h', '.', 'o', 'i', 'd', ' ']
}

/// The rest of the first line that starts with `p`, if one does.
pub open spec fn first_line_after(ls: Seq<Seq<char>>, p: Seq<char>) -> Option<Seq<char>>
    decreases ls.len(),
{
    if ls.len() == 0 {
        None
    } else if starts_with(ls[0], p) {
        Some(ls[0].subrange(p.len() as int, ls[0].len() as int))
    } else {
        first_line_after(ls.drop_first(), p)
    }
}

/// Some line does not start with `#`: git reports a changed or untracked file.
pub open spec fn has_change_line(ls: Seq<Seq<char>>) -> bool {
    exists|i: int| 0 <= i < ls.len() && !starts_with(ls[i], seq!['#'])
}

/// What `git status --porcelain=v2 --branch` says of a checkout: the commit it is at (the
/// trimmed rest of the first `# branch.oid ` line) and whether it has local changes; `None`
/// when no line names the commit.
pub open spec fn porcelain_status(out: Seq<char>) -> Option<(Seq<char>, bool)> {
    match first_line_after(lines(out), oid_prefix()) {
        Some(rest) => Some((trim(rest), has_change_line(lines(out)))),
        None => None,
    }
}

/// Reads the commit and the dirty flag from `git status --porcelain=v2 --branch`.
pub fn parse_porcelain_status(out: &str) -> (r: Option<(String, bool)>)
    ensures
        r is None <==> porcelain_status(out@) is None,
        r matches Some(p) ==> porcelain_status(out@) matches Some(q) && p.0@ == q.0 && p.1
            == q.1,
{
    let cs = chars_of(out);
    let ls = lines_of(&cs);
    let prefix = chars_of("# branch.oid ");
    let hash = chars_of("#");
    proof {
        reveal_strlit("# branch.oid ");
        reveal_strlit("#");
        assert(prefix@ =~= oid_prefix());
        assert(hash@ =~= seq!['#']);
    }
    let ghost all = views(ls@);
    assert(all.subrange(0, all.len() as int) =~= all);
    let mut found: Option<Vec<char>> = None;
    let mut dirty = false;
    let mut i: usize = 0;
    while i < ls.len()
        invariant
            i <= ls@.len(),
            all == views(ls@),
            all == lines(cs@),
            prefix@ == oid_prefix(),
            hash@ == seq!['#'],
            found is None ==> first_line_after(all, oid_prefix()) == first_line_after(
                all.subrange(i as int, all.len() as int),
                oid_prefix(),
            ),
            found is Some ==> first_line_after(all, oid_prefix()) == Some(found->0@),
            dirty == (exists|j: int| 0 <= j < i && !starts_with(all[j], seq!['#'])),
        decreases ls.len() - i,
    {
        let line = &ls[i];
        proof {
            assert(all[i as int] == line@);
            let rest = all.subrange(i as int, all.len() as int);
            assert(rest[0] == line@);
            assert(rest.drop_first() =~= all.subrange(i + 1, all.len() as int));
        }
        if found.is_none() && occurs_at_exec(line, &prefix, 0) {
            found = Some(slice_chars(line, prefix.len(), line.len()));
        }
        if !occurs_at_exec(line, &hash, 0) {
            dirty = true;
        }
        i = i + 1;
    }
    proof {
        assert(all.subrange(all.len() as int, all.len() as int) =~= Seq::<Seq<char>>::empty());
    }
    match found {
        Some(rest) => {
            let t = trim_chars(&rest);
            Some((crate::text::string_of(&t, 0, t.len()), dirty))
        },
        None => None,
    }
}

} // verus!

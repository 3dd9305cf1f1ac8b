//! Reading the progress that `git clone` reports and drawing it as a bar.
use vstd::prelude::*;

use crate::report::quoted;
use crate::text::{chars_of, contains, contains_exec, decimal, decimal_string, find_char, find_char_from, is_digit, last_word, last_word_before, pad_left, pad_left_exec, push_char, push_str, trim, trim_chars, string_of};
use crate::version::decimal_value;

verus! {

/// The stage of a clone that a progress line reports.
pub enum CloneStage {
    /// `Receiving objects`.
    Cloning,
    /// `Resolving deltas`.
    Resolving,
    /// `Compressing`.
    Compressing,
}

/// What one `\r`-separated piece of `git clone`'s error output is.
pub enum CloneLine {
    /// A line that contains `done.`: not shown.
    Done,
    /// A progress line of a stage at `pct` percent.
    Progress { stage: CloneStage, pct: u64 },
    /// A line of a stage without a readable percentage: not shown.
    Unreadable,
    /// Any other line: kept, and shown if the clone fails.
    Message,
}

/// Every character of `s` is an ASCII digit.
pub open spec fn all_digits(s: Seq<char>) -> bool {
    forall|i: int| 0 <= i < s.len() ==> is_digit(s[i])
}

/// `u64::from_str`: an optional `+`, then one or more ASCII digits whose value fits.
pub open spec fn parse_u64(w: Seq<char>) -> Option<u64> {
    let ds = if w.len() > 0 && w[0] == '+' {
        w.drop_first()
    } else {
        w
    };
    if ds.len() > 0 && all_digits(ds) && decimal_value(ds) <= u64::MAX {
        Some(decimal_value(ds) as u64)
    } else {
        None
    }
}

/// The stage named in a line, if any (checked in this order).
pub open spec fn stage_of(t: Seq<char>) -> Option<CloneStage> {
    if contains(t, "Receiving objects"@) {
        Some(CloneStage::Cloning)
    } else if contains(t, "Resolving deltas"@) {
        Some(CloneStage::Resolving)
    } else if contains(t, "Compressing"@) {
        Some(CloneStage::Compressing)
    } else {
        None
    }
}

/// The percentage of a progress line: the last word before the first `%`, read as a `u64`.
pub open spec fn percent_of(t: Seq<char>) -> Option<u64> {
    let p = find_char(t, '%');
    if p < 0 {
        None
    } else {
        match last_word(t.subrange(0, p)) {
            Some(w) => parse_u64(w),
            None => None,
        }
    }
}

/// How a piece of `git clone`'s output is handled.
pub open spec fn clone_line(t: Seq<char>) -> CloneLine {
    if contains(t, "done."@) {
        CloneLine::Done
    } else {
        match stage_of(t) {
            None => CloneLine::Message,
            Some(stage) => match percent_of(t) {
                Some(pct) => CloneLine::Progress { stage, pct },
                None => CloneLine::Unreadable,
            },
        }
    }
}

/// `n` copies of `c`.
pub open spec fn repeat(c: char, n: nat) -> Seq<char> {
    Seq::new(n, |i: int| c)
}

/// The sixteen-column bar of a percentage: full at 100 and above, else `=`s up to an arrow
/// head, padded with spaces.
pub open spec fn progress_bar(pct: u64) -> Seq<char> {
    if pct >= 100 {
        repeat('=', 16)
    } else {
        let filled = (pct * 16 / 100) as nat;
        repeat('=', if filled >= 1 { (filled - 1) as nat } else { 0 }) + ">"@ + repeat(
            ' ',
            (16 - filled) as nat,
        )
    }
}

/// The label a stage is shown under.
pub open spec fn stage_label(s: CloneStage) -> Seq<char> {
    match s {
        CloneStage::Cloning => "Cloning"@,
        CloneStage::Resolving => "Resolving"@,
        CloneStage::Compressing => "Compressing"@,
    }
}

/// The markup that redraws the progress of cloning `name`.
pub open spec fn progress_markup(stage: CloneStage, name: Seq<char>, pct: u64) -> Seq<char> {
    "\r[load]"@ + pad_left(stage_label(stage), 12) + "[/] "@ + quoted(name) + " [["@
        + progress_bar(pct) + "]] "@ + pad_left(decimal(pct as nat), 3) + "% \r"@
}

/// Reads one `\r`-separated piece of `git clone`'s error output.
pub fn classify_clone_line(t: &str) -> (r: CloneLine)
    ensures
        r == clone_line(t@),
{
    let cs = chars_of(t);
    let done = chars_of("done.");
    if contains_exec(&cs, &done) {
        return CloneLine::Done;
    }
    let receiving = chars_of("Receiving objects");
    let resolving = chars_of("Resolving deltas");
    let compressing = chars_of("Compressing");
    let stage = if contains_exec(&cs, &receiving) {
        CloneStage::Cloning
    } else if contains_exec(&cs, &resolving) {
        CloneStage::Resolving
    } else if contains_exec(&cs, &compressing) {
        CloneStage::Compressing
    } else {
        return CloneLine::Message;
    };
    assert(stage_of(t@) == Some(stage));
    proof {
        assert(cs@.subrange(0, cs@.len() as int) =~= cs@);
    }
    match find_char_from(&cs, 0, '%') {
        None => CloneLine::Unreadable,
        Some(p) => match last_word_before(&cs, p) {
            None => CloneLine::Unreadable,
            Some(w) => match parse_u64_exec(&w) {
                Some(pct) => CloneLine::Progress { stage, pct },
                None => CloneLine::Unreadable,
            },
        },
    }
}

/// `decimal_value` grows with every digit appended.
proof fn lemma_decimal_value_grows(d: Seq<char>, c: char)
    requires
        is_digit(c),
    ensures
        decimal_value(d.push(c)) >= decimal_value(d),
        decimal_value(d.push(c)) == decimal_value(d) * 10 + crate::version::digit_value(c),
{
    assert(d.push(c).drop_last() =~= d);
}

/// `u64::from_str`.
pub fn parse_u64_exec(w: &[char]) -> (r: Option<u64>)
    ensures
        r == parse_u64(w@),
{
    let start: usize = if w.len() > 0 && w[0] == '+' {
        1
    } else {
        0
    };
    let ghost ds = w@.subrange(start as int, w@.len() as int);
    proof {
        if start == 1 {
            assert(ds =~= w@.drop_first());
        } else {
            assert(ds =~= w@);
        }
    }
    if start == w.len() {
        return None;
    }
    let mut acc: u64 = 0;
    let mut i = start;
    while i < w.len()
        invariant
            start <= i <= w@.len(),
            ds == w@.subrange(start as int, w@.len() as int),
            ds == (if w@.len() > 0 && w@[0] == '+' {
                w@.drop_first()
            } else {
                w@
            }),
            forall|j: int| start <= j < i ==> is_digit(w@[j]),
            acc == decimal_value(w@.subrange(start as int, i as int)),
        decreases w.len() - i,
    {
        let c = w[i];
        if !('0' <= c && c <= '9') {
            proof {
                assert(!is_digit(ds[i - start]));
                let ds2 = if w@.len() > 0 && w@[0] == '+' {
                    w@.drop_first()
                } else {
                    w@
                };
                assert(ds2 == ds);
                assert(!all_digits(ds));
            }
            return None;
        }
        proof {
            lemma_decimal_value_grows(w@.subrange(start as int, i as int), c);
            assert(w@.subrange(start as int, i + 1) =~= w@.subrange(start as int, i as int).push(
                c,
            ));
        }
        let d = (c as u32 - '0' as u32) as u64;
        if acc > (0xffff_ffff_ffff_ffff - d) / 10 {
            proof {
                assert(decimal_value(w@.subrange(start as int, i + 1)) > u64::MAX) by (
                nonlinear_arith)
                    requires
                        decimal_value(w@.subrange(start as int, i + 1)) == acc * 10 + d,
                        acc > (0xffff_ffff_ffff_ffffu64 - d) / 10,
                        d <= 9,
                ;
                if all_digits(ds) {
                    assert forall|j: int| start <= j < w@.len() implies is_digit(w@[j]) by {
                        assert(w@[j] == ds[j - start]);
                    }
                    lemma_decimal_value_chain(w@, start as int, i + 1, w@.len() as int);
                }
            }
            return None;
        }
        acc = acc * 10 + d;
        i = i + 1;
    }
    assert(w@.subrange(start as int, w@.len() as int) == ds);
    Some(acc)
}

/// Extending a run of digits never makes its value smaller.
proof fn lemma_decimal_value_chain(w: Seq<char>, start: int, k: int, m: int)
    requires
        0 <= start <= k <= m <= w.len(),
        forall|j: int| start <= j < m ==> is_digit(w[j]),
    ensures
        decimal_value(w.subrange(start, m)) >= decimal_value(w.subrange(start, k)),
    decreases m - k,
{
    if m > k {
        lemma_decimal_value_chain(w, start, k, m - 1);
        lemma_decimal_value_grows(w.subrange(start, m - 1), w[m - 1]);
        assert(w.subrange(start, m - 1).push(w[m - 1]) =~= w.subrange(start, m));
    }
}

/// `n` copies of `c` appended to `s`.
fn push_repeat(s: &mut String, c: char, n: usize)
    ensures
        final(s)@ == old(s)@ + repeat(c, n as nat),
{
    let mut i: usize = 0;
    while i < n
        invariant
            i <= n,
            s@ == old(s)@ + repeat(c, i as nat),
        decreases n - i,
    {
        push_char(s, c);
        assert(old(s)@ + repeat(c, (i + 1) as nat) =~= (old(s)@ + repeat(c, i as nat)).push(c));
        i = i + 1;
    }
}

/// The sixteen-column progress bar of a percentage.
pub fn progress_bar_exec(pct: u64) -> (r: String)
    ensures
        r@ == progress_bar(pct),
{
    let mut r = String::new();
    if pct >= 100 {
        push_repeat(&mut r, '=', 16);
        assert(r@ =~= repeat('=', 16));
    } else {
        let filled = (pct * 16 / 100) as usize;
        assert(filled <= 16) by (nonlinear_arith)
            requires
                pct < 100,
                filled == pct * 16 / 100,
        ;
        let eq = if filled >= 1 {
            filled - 1
        } else {
            0
        };
        push_repeat(&mut r, '=', eq);
        push_str(&mut r, ">");
        push_repeat(&mut r, ' ', 16 - filled);
        assert(r@ =~= progress_bar(pct));
    }
    r
}

/// The label of a stage.
fn stage_label_exec(s: &CloneStage) -> (r: &'static str)
    ensures
        r@ == stage_label(*s),
{
    match s {
        CloneStage::Cloning => "Cloning",
        CloneStage::Resolving => "Resolving",
        CloneStage::Compressing => "Compressing",
    }
}

/// The markup that redraws the progress of cloning `name`.
pub fn render_progress(stage: &CloneStage, name: &str, pct: u64) -> (r: String)
    ensures
        r@ == progress_markup(*stage, name@, pct),
{
    let mut r = String::new();
    push_str(&mut r, "\r[load]");
    let label = pad_left_exec(stage_label_exec(stage), 12);
    push_str(&mut r, label.as_str());
    push_str(&mut r, "[/] ");
    let q = crate::report::quote(name);
    push_str(&mut r, q.as_str());
    push_str(&mut r, " [[");
    let bar = progress_bar_exec(pct);
    push_str(&mut r, bar.as_str());
    push_str(&mut r, "]] ");
    let digits = decimal_string(pct);
    let padded = pad_left_exec(digits.as_str(), 3);
    push_str(&mut r, padded.as_str());
    push_str(&mut r, "% \r");
    r
}

/// The kept lines shown when the clone fails: each trimmed, the empty ones left out.
pub open spec fn failure_lines(kept: Seq<Seq<char>>) -> Seq<Seq<char>>
    decreases kept.len(),
{
    if kept.len() == 0 {
        seq![]
    } else {
        let rest = failure_lines(kept.drop_last());
        let t = trim(kept.last());
        if t.len() == 0 {
            rest
        } else {
            rest.push(t)
        }
    }
}

/// The lines to show after a failed clone.
pub fn clone_failure_lines(kept: &[String]) -> (r: Vec<String>)
    ensures
        r@.map_values(|s: String| s@) == failure_lines(kept@.map_values(|s: String| s@)),
{
    let ghost kv = kept@.map_values(|s: String| s@);
    let mut r: Vec<String> = Vec::new();
    let mut i: usize = 0;
    while i < kept.len()
        invariant
            i <= kept@.len(),
            kv == kept@.map_values(|s: String| s@),
            r@.map_values(|s: String| s@) == failure_lines(kv.take(i as int)),
        decreases kept.len() - i,
    {
        let cs = chars_of(kept[i].as_str());
        let t = trim_chars(&cs);
        proof {
            assert(kv.take(i + 1).drop_last() =~= kv.take(i as int));
            assert(kv.take(i + 1).last() == kept@[i as int]@);
        }
        if t.len() > 0 {
            let ghost r0 = r@;
            r.push(string_of(&t, 0, t.len()));
            assert(t@.subrange(0, t@.len() as int) =~= t@);
            assert(r@.map_values(|s: String| s@) =~= r0.map_values(|s: String| s@).push(t@));
        }
        i = i + 1;
    }
    assert(kv.take(kv.len() as int) =~= kv);
    r
}

/// The bar is sixteen columns wide, except below the first sixteenth of the way, where the
/// arrow head is drawn before sixteen spaces.
pub proof fn progress_bar_width(pct: u64)
    ensures
        pct >= 100 || pct * 16 / 100 >= 1 ==> progress_bar(pct).len() == 16,
        pct < 100 && pct * 16 / 100 == 0 ==> progress_bar(pct).len() == 17,
{
    reveal_strlit(">");
    if pct < 100 {
        assert(pct * 16 / 100 <= 16) by (nonlinear_arith)
            requires
                pct < 100,
        ;
    }
}

} // verus!

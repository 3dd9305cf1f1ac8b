//! Release version strings (`v1.2.3`, `0.3.1-beta`) and their order.
use std::cmp::Ordering;

use vstd::prelude::*;

use crate::text::{
    chars_of, decimal, digit_char, find_char_from, is_digit, lemma_find_char_at, skip_char_run,
    split_char, trim_start_char,
};

verus! {

/// The value of one decimal digit.
pub open spec fn digit_value(c: char) -> nat {
    (c as int - '0' as int) as nat
}

/// The leading run of ASCII digits of `s`.
pub open spec fn digit_prefix(s: Seq<char>) -> Seq<char>
    decreases s.len(),
{
    if s.len() == 0 || !is_digit(s[0]) {
        seq![]
    } else {
        seq![s[0]] + digit_prefix(s.drop_first())
    }
}

/// The number written by the decimal digits `d`.
pub open spec fn decimal_value(d: Seq<char>) -> nat
    decreases d.len(),
{
    if d.len() == 0 {
        0
    } else {
        decimal_value(d.drop_last()) * 10 + digit_value(d.last())
    }
}

/// One dot-separated component of a version: the number written by its leading digits,
/// or 0 when there are none or the number does not fit in a `u32`.
pub open spec fn component_value(seg: Seq<char>) -> u32 {
    let d = digit_prefix(seg);
    if d.len() == 0 || decimal_value(d) > u32::MAX {
        0
    } else {
        decimal_value(d) as u32
    }
}

/// The dot-separated components of `s` once its leading `v`s are removed.
pub open spec fn version_components(s: Seq<char>) -> Seq<Seq<char>> {
    split_char(trim_start_char(s, 'v'), '.')
}

/// `(major, minor, patch)` read from a version string: the first three components,
/// each missing one counting as 0.
pub open spec fn version_numbers(s: Seq<char>) -> (u32, u32, u32) {
    let parts = version_components(s);
    (
        component_value(parts[0]),
        if parts.len() > 1 {
            component_value(parts[1])
        } else {
            0
        },
        if parts.len() > 2 {
            component_value(parts[2])
        } else {
            0
        },
    )
}

/// `digit_prefix(s)` is `s[..i]` when `i` ends the leading digit run.
proof fn lemma_digit_prefix_at(s: Seq<char>, i: int)
    requires
        0 <= i <= s.len(),
        forall|j: int| 0 <= j < i ==> is_digit(s[j]),
        i < s.len() ==> !is_digit(s[i]),
    ensures
        digit_prefix(s) == s.subrange(0, i),
    decreases i,
{
    if i == 0 {
        assert(s.subrange(0, 0) =~= Seq::<char>::empty());
    } else {
        let t = s.drop_first();
        assert forall|j: int| 0 <= j < i - 1 implies is_digit(t[j]) by {
            assert(t[j] == s[j + 1]);
        }
        lemma_digit_prefix_at(t, i - 1);
        assert(seq![s[0]] + t.subrange(0, i - 1) =~= s.subrange(0, i));
    }
}

/// A split always has at least one piece.
pub proof fn lemma_split_char_nonempty(s: Seq<char>, c: char)
    ensures
        split_char(s, c).len() >= 1,
{
    reveal_with_fuel(split_char, 1);
}

/// The value of the component `s[from..to]`.
fn component_value_exec(s: &[char], from: usize, to: usize) -> (r: u32)
    requires
        from <= to <= s@.len(),
    ensures
        r == component_value(s@.subrange(from as int, to as int)),
{
    let ghost seg = s@.subrange(from as int, to as int);
    let mut i = from;
    let mut acc: u64 = 0;
    let mut over = false;
    while i < to && '0' <= s[i] && s[i] <= '9'
        invariant
            from <= i <= to <= s@.len(),
            seg == s@.subrange(from as int, to as int),
            forall|j: int| from <= j < i ==> is_digit(s@[j]),
            over ==> decimal_value(s@.subrange(from as int, i as int)) > u32::MAX,
            !over ==> acc == decimal_value(s@.subrange(from as int, i as int)),
            !over ==> acc <= u32::MAX,
        decreases to - i,
    {
        let ghost d = s@.subrange(from as int, i as int);
        let ghost d2 = s@.subrange(from as int, i + 1);
        proof {
            assert(d2.drop_last() =~= d);
            assert(d2.last() == s@[i as int]);
        }
        if !over {
            let digit = (s[i] as u32 - '0' as u32) as u64;
            acc = acc * 10 + digit;
            if acc > 0xffff_ffff {
                over = true;
            }
        }
        i = i + 1;
    }
    proof {
        lemma_digit_prefix_at(seg, i - from);
        assert(seg.subrange(0, i - from) =~= s@.subrange(from as int, i as int));
    }
    if over || i == from {
        0
    } else {
        acc as u32
    }
}

/// The value of the component starting at `from` and, when a `.` ends it, the position
/// after that dot.
fn next_component(s: &[char], from: usize) -> (r: (u32, Option<usize>))
    requires
        from <= s@.len(),
    ensures
        ({
            let t = s@.subrange(from as int, s@.len() as int);
            let parts = split_char(t, '.');
            &&& r.0 == component_value(parts[0])
            &&& r.1 is None ==> parts.len() == 1
            &&& r.1 is Some ==> from < r.1->0 <= s@.len() && parts.len() > 1 && parts.drop_first()
                == split_char(s@.subrange(r.1->0 as int, s@.len() as int), '.')
        }),
{
    let ghost t = s@.subrange(from as int, s@.len() as int);
    match find_char_from(s, from, '.') {
        Some(k) => {
            assert(k < s.len());
            let v = component_value_exec(s, from, k);
            proof {
                assert(t.subrange(0, k - from) =~= s@.subrange(from as int, k as int));
                assert(t.subrange(k - from + 1, t.len() as int) =~= s@.subrange(
                    k + 1,
                    s@.len() as int,
                ));
                lemma_split_char_nonempty(s@.subrange(k + 1, s@.len() as int), '.');
                assert(split_char(t, '.') == seq![t.subrange(0, k - from)] + split_char(
                    t.subrange(k - from + 1, t.len() as int),
                    '.',
                ));
                assert(split_char(t, '.').drop_first() =~= split_char(
                    t.subrange(k - from + 1, t.len() as int),
                    '.',
                ));
            }
            (v, Some(k + 1))
        },
        None => {
            let v = component_value_exec(s, from, s.len());
            proof {
                assert(split_char(t, '.') == seq![t]);
            }
            (v, None)
        },
    }
}

/// Reads `(major, minor, patch)` from a version string such as `v1.2.3` or `0.3.1-beta`.
///
/// Leading `v`s are ignored; each of the first three dot-separated components counts by
/// its leading digits (0 when it has none or they overflow a `u32`), and a missing
/// component counts as 0.
pub fn parse_version(s: &str) -> (r: (u32, u32, u32))
    ensures
        r == version_numbers(s@),
{
    let cs = chars_of(s);
    let start = skip_char_run(&cs, 0, 'v');
    proof {
        assert(cs@.subrange(0, cs@.len() as int) =~= cs@);
    }
    let (major, next) = next_component(&cs, start);
    match next {
        None => (major, 0, 0),
        Some(p1) => {
            let (minor, next) = next_component(&cs, p1);
            match next {
                None => (major, minor, 0),
                Some(p2) => {
                    let (patch, _) = next_component(&cs, p2);
                    (major, minor, patch)
                },
            }
        },
    }
}

/// Lexicographic order of `(major, minor, patch)` triples.
pub open spec fn triple_order(a: (u32, u32, u32), b: (u32, u32, u32)) -> Ordering {
    if a.0 < b.0 {
        Ordering::Less
    } else if a.0 > b.0 {
        Ordering::Greater
    } else if a.1 < b.1 {
        Ordering::Less
    } else if a.1 > b.1 {
        Ordering::Greater
    } else if a.2 < b.2 {
        Ordering::Less
    } else if a.2 > b.2 {
        Ordering::Greater
    } else {
        Ordering::Equal
    }
}

/// The order of two version strings: that of their `(major, minor, patch)` triples.
pub open spec fn version_order(a: Seq<char>, b: Seq<char>) -> Ordering {
    triple_order(version_numbers(a), version_numbers(b))
}

/// The opposite order.
pub open spec fn flipped(o: Ordering) -> Ordering {
    match o {
        Ordering::Less => Ordering::Greater,
        Ordering::Equal => Ordering::Equal,
        Ordering::Greater => Ordering::Less,
    }
}

/// Compares two version strings by their `(major, minor, patch)` triples.
pub fn version_cmp(a: &str, b: &str) -> (r: Ordering)
    ensures
        r == version_order(a@, b@),
{
    let x = parse_version(a);
    let y = parse_version(b);
    if x.0 < y.0 {
        Ordering::Less
    } else if x.0 > y.0 {
        Ordering::Greater
    } else if x.1 < y.1 {
        Ordering::Less
    } else if x.1 > y.1 {
        Ordering::Greater
    } else if x.2 < y.2 {
        Ordering::Less
    } else if x.2 > y.2 {
        Ordering::Greater
    } else {
        Ordering::Equal
    }
}

/// Every version string compares equal to itself.
pub proof fn version_order_reflexive(a: Seq<char>)
    ensures
        version_order(a, a) == Ordering::Equal,
{
}

/// Comparing the other way round gives the opposite answer.
pub proof fn version_order_antisymmetric(a: Seq<char>, b: Seq<char>)
    ensures
        version_order(b, a) == flipped(version_order(a, b)),
{
}

/// Two version strings compare equal exactly when they read as the same triple.
pub proof fn version_order_equal_iff_same_numbers(a: Seq<char>, b: Seq<char>)
    ensures
        (version_order(a, b) == Ordering::Equal) <==> (version_numbers(a) == version_numbers(b)),
{
}

/// The order is transitive: `a < b` and `b < c` give `a < c`, and a version equal to
/// another compares with every third version the same way.
pub proof fn version_order_transitive(a: Seq<char>, b: Seq<char>, c: Seq<char>)
    ensures
        version_order(a, b) == Ordering::Less && version_order(b, c) == Ordering::Less
            ==> version_order(a, c) == Ordering::Less,
        version_order(a, b) == Ordering::Equal ==> version_order(a, c) == version_order(b, c),
{
}

/// A leading `v` does not change what a version string reads as (`v1.2.3` is `1.2.3`).
pub proof fn version_prefix_v_ignored(s: Seq<char>)
    ensures
        version_numbers(seq!['v'] + s) == version_numbers(s),
{
    let t = seq!['v'] + s;
    assert(t.drop_first() =~= s);
}

/// The decimal text of `n` is a non-empty run of digits that reads back as `n`.
proof fn lemma_decimal_reads_back(n: nat)
    ensures
        decimal(n).len() > 0,
        forall|j: int| 0 <= j < decimal(n).len() ==> is_digit(#[trigger] decimal(n)[j]),
        decimal_value(decimal(n)) == n,
    decreases n,
{
    if n < 10 {
        let d = decimal(n);
        assert(d.drop_last() =~= Seq::<char>::empty());
        assert(digit_value(digit_char(n)) == n);
        assert(is_digit(d[0]));
        assert(decimal_value(d) == decimal_value(d.drop_last()) * 10 + digit_value(d.last()));
    } else {
        lemma_decimal_reads_back(n / 10);
        let d = decimal(n);
        assert(d.drop_last() =~= decimal(n / 10));
        assert(digit_value(digit_char(n % 10)) == n % 10);
        assert(d.last() == digit_char(n % 10));
        assert(is_digit(digit_char(n % 10)));
        assert(decimal_value(d) == decimal_value(decimal(n / 10)) * 10 + digit_value(d.last()));
        assert(n == (n / 10) * 10 + n % 10);
        assert forall|j: int| 0 <= j < d.len() implies is_digit(#[trigger] d[j]) by {
            if j < d.len() - 1 {
                assert(d[j] == decimal(n / 10)[j]);
            }
        }
    }
}

/// A number written in decimal reads back as that number when taken as a component.
proof fn lemma_component_of_decimal(x: u32)
    ensures
        component_value(decimal(x as nat)) == x,
        forall|j: int|
            0 <= j < decimal(x as nat).len() ==> #[trigger] decimal(x as nat)[j] != '.',
{
    let d = decimal(x as nat);
    lemma_decimal_reads_back(x as nat);
    lemma_digit_prefix_at(d, d.len() as int);
    assert(d.subrange(0, d.len() as int) =~= d);
    assert forall|j: int| 0 <= j < d.len() implies #[trigger] d[j] != '.' by {
        assert(is_digit(d[j]));
    }
}

/// Splitting `a.rest` at dots, with no dot in `a`, gives `a` and then the pieces of `rest`.
proof fn lemma_split_after_dot_free(a: Seq<char>, rest: Seq<char>)
    requires
        forall|j: int| 0 <= j < a.len() ==> #[trigger] a[j] != '.',
    ensures
        split_char(a + seq!['.'] + rest, '.') == seq![a] + split_char(rest, '.'),
{
    let s = a + seq!['.'] + rest;
    lemma_find_char_at(s, '.', a.len() as int);
    assert(s.subrange(0, a.len() as int) =~= a);
    assert(s.subrange(a.len() as int + 1, s.len() as int) =~= rest);
}

/// A piece with no dot splits into itself.
proof fn lemma_split_dot_free(a: Seq<char>)
    requires
        forall|j: int| 0 <= j < a.len() ==> #[trigger] a[j] != '.',
    ensures
        split_char(a, '.') == seq![a],
{
    lemma_find_char_at(a, '.', -1);
}

/// Three numbers written as `x.y.z` read back as `(x, y, z)`, with or without a leading `v`.
pub proof fn version_text_round_trip(x: u32, y: u32, z: u32)
    ensures
        version_numbers(decimal(x as nat) + "."@ + decimal(y as nat) + "."@ + decimal(z as nat))
            == (x, y, z),
        version_numbers("v"@ + decimal(x as nat) + "."@ + decimal(y as nat) + "."@ + decimal(
            z as nat,
        )) == (x, y, z),
{
    reveal_strlit(".");
    reveal_strlit("v");
    let (dx, dy, dz) = (decimal(x as nat), decimal(y as nat), decimal(z as nat));
    lemma_component_of_decimal(x);
    lemma_component_of_decimal(y);
    lemma_component_of_decimal(z);
    let text = dx + "."@ + dy + "."@ + dz;
    let tail = dy + "."@ + dz;
    assert(text =~= dx + seq!['.'] + tail);
    assert(tail =~= dy + seq!['.'] + dz);
    lemma_split_dot_free(dz);
    lemma_split_after_dot_free(dy, dz);
    lemma_split_after_dot_free(dx, tail);
    let parts = split_char(text, '.');
    assert(parts =~= seq![dx, dy, dz]);
    lemma_decimal_reads_back(x as nat);
    assert(is_digit(dx[0]));
    assert(trim_start_char(text, 'v') == text);
    version_prefix_v_ignored(text);
    assert("v"@ + dx + "."@ + dy + "."@ + dz =~= seq!['v'] + text);
}

} // verus!

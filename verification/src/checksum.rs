//! Checking a downloaded release asset against the published `SHA256SUMS` file.
use vstd::prelude::*;

use crate::text::{chars_of, contains, contains_exec, first_word, first_word_of, lines, lines_of, push_char, same_text, string_of, views};

verus! {

/// The SHA-256 digest of `data`.
pub uninterp spec fn sha256(data: Seq<u8>) -> Seq<u8>;

/// Hashes `data` with `sha2::Sha256::digest`; the result is named `sha256(data)` and is
/// 32 bytes long, the output size of SHA-256.
#[verifier::external_body]
fn sha256_digest(data: &[u8]) -> (r: Vec<u8>)
    ensures
        r@ == sha256(data@),
        r@.len() == 32,
{
    <sha2::Sha256 as sha2::Digest>::digest(data).to_vec()
}

/// The lower-case hexadecimal digit of `d`.
pub open spec fn hex_digit(d: nat) -> char {
    if d < 10 {
        crate::text::digit_char(d)
    } else if d == 10 {
        'a'
    } else if d == 11 {
        'b'
    } else if d == 12 {
        'c'
    } else if d == 13 {
        'd'
    } else if d == 14 {
        'e'
    } else {
        'f'
    }
}

/// `format!("{:02x}")` of every byte, concatenated.
pub open spec fn hex_lower(bytes: Seq<u8>) -> Seq<char>
    decreases bytes.len(),
{
    if bytes.len() == 0 {
        seq![]
    } else {
        hex_lower(bytes.drop_last()) + seq![
            hex_digit((bytes.last() / 16) as nat),
            hex_digit((bytes.last() % 16) as nat),
        ]
    }
}

/// The first line that contains `p`.
pub open spec fn first_line_containing(ls: Seq<Seq<char>>, p: Seq<char>) -> Option<Seq<char>>
    decreases ls.len(),
{
    if ls.len() == 0 {
        None
    } else if contains(ls[0], p) {
        Some(ls[0])
    } else {
        first_line_containing(ls.drop_first(), p)
    }
}

/// The published hash of an asset: the first word of the first line that names it.
pub open spec fn published_hash(sums: Seq<char>, asset: Seq<char>) -> Option<Seq<char>> {
    match first_line_containing(lines(sums), asset) {
        Some(l) => first_word(l),
        None => None,
    }
}

/// Why a download is rejected.
pub enum ChecksumError {
    /// The checksum file does not list the asset.
    MissingHash,
    /// The digest of the download differs from the published one.
    Mismatch { expected: String, actual: String },
}

/// The value of a [`ChecksumError`].
pub enum ChecksumErrorView {
    MissingHash,
    Mismatch(Seq<char>, Seq<char>),
}

impl View for ChecksumError {
    type V = ChecksumErrorView;

    open spec fn view(&self) -> ChecksumErrorView {
        match self {
            ChecksumError::MissingHash => ChecksumErrorView::MissingHash,
            ChecksumError::Mismatch { expected, actual } => ChecksumErrorView::Mismatch(
                expected@,
                actual@,
            ),
        }
    }
}

/// The verdict on a download whose SHA-256 digest is `digest`.
pub open spec fn checksum_outcome(sums: Seq<char>, asset: Seq<char>, digest: Seq<u8>) -> Result<
    (),
    ChecksumErrorView,
> {
    match published_hash(sums, asset) {
        None => Err(ChecksumErrorView::MissingHash),
        Some(e) => if hex_lower(digest) == e {
            Ok(())
        } else {
            Err(ChecksumErrorView::Mismatch(e, hex_lower(digest)))
        },
    }
}

/// The lower-case hexadecimal digit of `d`.
fn hex_digit_exec(d: u8) -> (c: char)
    requires
        d < 16,
    ensures
        c == hex_digit(d as nat),
{
    if d < 10 {
        if d == 0 {
            '0'
        } else if d == 1 {
            '1'
        } else if d == 2 {
            '2'
        } else if d == 3 {
            '3'
        } else if d == 4 {
            '4'
        } else if d == 5 {
            '5'
        } else if d == 6 {
            '6'
        } else if d == 7 {
            '7'
        } else if d == 8 {
            '8'
        } else {
            '9'
        }
    } else if d == 10 {
        'a'
    } else if d == 11 {
        'b'
    } else if d == 12 {
        'c'
    } else if d == 13 {
        'd'
    } else if d == 14 {
        'e'
    } else {
        'f'
    }
}

/// The bytes as lower-case hexadecimal, two digits each.
pub fn to_hex_lower(bytes: &[u8]) -> (r: String)
    ensures
        r@ == hex_lower(bytes@),
{
    let mut r = String::new();
    let mut i: usize = 0;
    while i < bytes.len()
        invariant
            i <= bytes@.len(),
            r@ == hex_lower(bytes@.take(i as int)),
        decreases bytes.len() - i,
    {
        let b = bytes[i];
        let ghost before = r@;
        push_char(&mut r, hex_digit_exec(b / 16));
        push_char(&mut r, hex_digit_exec(b % 16));
        proof {
            let t = bytes@.take(i + 1);
            assert(t.drop_last() =~= bytes@.take(i as int));
            assert(t.last() == b);
            assert(r@ =~= hex_lower(t));
        }
        i = i + 1;
    }
    assert(bytes@.take(bytes@.len() as int) =~= bytes@);
    r
}

/// The hash that the checksum file publishes for `asset`.
pub fn find_published_hash(sums: &str, asset: &str) -> (r: Option<String>)
    ensures
        r is None <==> published_hash(sums@, asset@) is None,
        r matches Some(h) ==> published_hash(sums@, asset@) == Some(h@),
{
    let cs = chars_of(sums);
    let ls = lines_of(&cs);
    let p = chars_of(asset);
    let ghost all = views(ls@);
    assert(all.subrange(0, all.len() as int) =~= all);
    let mut i: usize = 0;
    while i < ls.len()
        invariant
            i <= ls@.len(),
            all == views(ls@),
            all == lines(sums@),
            p@ == asset@,
            first_line_containing(all, asset@) == first_line_containing(
                all.subrange(i as int, all.len() as int),
                asset@,
            ),
        decreases ls.len() - i,
    {
        proof {
            let rest = all.subrange(i as int, all.len() as int);
            assert(rest[0] == ls@[i as int]@);
            assert(rest.drop_first() =~= all.subrange(i + 1, all.len() as int));
        }
        if contains_exec(&ls[i], &p) {
            return match first_word_of(&ls[i]) {
                Some(w) => Some(string_of(&w, 0, w.len())),
                None => None,
            };
        }
        i = i + 1;
    }
    None
}

/// The verdict on a download whose SHA-256 digest is `digest`: rejected when the checksum
/// file does not list the asset or lists another hash than the digest's hexadecimal form.
pub fn checksum_verdict(sums: &str, asset: &str, digest: &[u8]) -> (r: Result<(), ChecksumError>)
    ensures
        match checksum_outcome(sums@, asset@, digest@) {
            Ok(_) => r is Ok,
            Err(e) => r matches Err(x) && x@ == e,
        },
{
    match find_published_hash(sums, asset) {
        None => Err(ChecksumError::MissingHash),
        Some(expected) => {
            let actual = to_hex_lower(digest);
            if same_text(actual.as_str(), expected.as_str()) {
                Ok(())
            } else {
                Err(ChecksumError::Mismatch { expected, actual })
            }
        },
    }
}

/// Checks a downloaded asset against the checksum file.
pub fn verify_download(sums: &str, asset: &str, data: &[u8]) -> (r: Result<(), ChecksumError>)
    ensures
        match checksum_outcome(sums@, asset@, sha256(data@)) {
            Ok(_) => r is Ok,
            Err(e) => r matches Err(x) && x@ == e,
        },
{
    let digest = sha256_digest(data);
    checksum_verdict(sums, asset, &digest)
}

/// The hexadecimal form has two digits per byte, so a SHA-256 digest reads as 64 digits.
pub proof fn hex_length(bytes: Seq<u8>)
    ensures
        hex_lower(bytes).len() == 2 * bytes.len(),
        bytes.len() == 32 ==> hex_lower(bytes).len() == 64,
    decreases bytes.len(),
{
    if bytes.len() > 0 {
        hex_length(bytes.drop_last());
    }
}

} // verus!

//! The decisions of `odyn update-self`: which channel, which release asset, whether to
//! update, and whether a download matches its published SHA-256.
use std::cmp::Ordering;

use vstd::prelude::*;
use vstd::utf8::encode_utf8;

use crate::text::{chars_of, find_char, find_char_from, push_str, same_text, skip_char_run, slice_chars, split_sub, string_of, trim_start_char, views};
use crate::version::{version_cmp, version_order};

verus! {

// ---------------------------------------------------------------------------------------------
// Flags and channels
// ---------------------------------------------------------------------------------------------

/// The release channel `update-self` follows.
pub enum Channel {
    /// The latest stable release (`force_stable`: even when the local version is newer).
    Stable { force_stable: bool },
    /// The latest pre-release.
    PreRelease,
    /// A build of the main branch from source.
    Nightly,
}

/// Two flags of `update-self` that cannot be combined.
pub enum FlagConflict {
    /// `--pre-release` with `--nightly`.
    PreReleaseNightly,
    /// `--pre-release` with `--force-stable`.
    PreReleaseForceStable,
    /// `--nightly` with `--force-stable`.
    NightlyForceStable,
}

/// The channel chosen by the flags of `update-self`, or the first pair of flags that
/// conflict (checked in this order).
pub fn update_channel(pre_release: bool, nightly: bool, force_stable: bool) -> (r: Result<
    Channel,
    FlagConflict,
>)
    ensures
        pre_release && nightly ==> r matches Err(FlagConflict::PreReleaseNightly),
        pre_release && !nightly && force_stable ==> r matches Err(
            FlagConflict::PreReleaseForceStable,
        ),
        !pre_release && nightly && force_stable ==> r matches Err(
            FlagConflict::NightlyForceStable,
        ),
        pre_release && !nightly && !force_stable ==> r matches Ok(Channel::PreRelease),
        !pre_release && nightly && !force_stable ==> r matches Ok(Channel::Nightly),
        !pre_release && !nightly ==> (r matches Ok(Channel::Stable { force_stable: f })
            && f == force_stable),
{
    if pre_release && nightly {
        Err(FlagConflict::PreReleaseNightly)
    } else if pre_release && force_stable {
        Err(FlagConflict::PreReleaseForceStable)
    } else if nightly && force_stable {
        Err(FlagConflict::NightlyForceStable)
    } else if pre_release {
        Ok(Channel::PreRelease)
    } else if nightly {
        Ok(Channel::Nightly)
    } else {
        Ok(Channel::Stable { force_stable })
    }
}

// ---------------------------------------------------------------------------------------------
// Release assets
// ---------------------------------------------------------------------------------------------

/// The release asset built for an OS and architecture, if there is one.
pub open spec fn asset_name(os: Seq<char>, arch: Seq<char>) -> Option<Seq<char>> {
    if os == "linux"@ && arch == "x86_64"@ {
        Some("odyn-linux-x86_64"@)
    } else if os == "linux"@ && arch == "aarch64"@ {
        Some("odyn-linux-aarch64"@)
    } else if os == "linux"@ && arch == "x86"@ {
        Some("odyn-linux-i686"@)
    } else if os == "linux"@ && arch == "riscv64"@ {
        Some("odyn-linux-riscv64"@)
    } else if os == "linux"@ && arch == "arm"@ {
        Some("odyn-linux-armv7"@)
    } else if os == "linux"@ && arch == "powerpc64"@ {
        Some("odyn-linux-powerpc64le"@)
    } else if os == "linux"@ && arch == "s390x"@ {
        Some("odyn-linux-s390x"@)
    } else if os == "linux"@ && arch == "sparc64"@ {
        Some("odyn-linux-sparc64"@)
    } else if os == "windows"@ && arch == "x86_64"@ {
        Some("odyn-windows-x86_64.exe"@)
    } else if os == "windows"@ && arch == "x86"@ {
        Some("odyn-windows-i686.exe"@)
    } else if os == "macos"@ && arch == "x86_64"@ {
        Some("odyn-macos-x86_64"@)
    } else if os == "macos"@ && arch == "aarch64"@ {
        Some("odyn-macos-aarch64"@)
    } else if os == "android"@ && arch == "x86_64"@ {
        Some("odyn-android-x86_64"@)
    } else if os == "android"@ && arch == "aarch64"@ {
        Some("odyn-android-aarch64"@)
    } else if os == "android"@ && arch == "arm"@ {
        Some("odyn-android-armv7"@)
    } else if os == "freebsd"@ && arch == "x86_64"@ {
        Some("odyn-freebsd-x86_64"@)
    } else if os == "freebsd"@ && arch == "x86"@ {
        Some("odyn-freebsd-i686"@)
    } else if os == "netbsd"@ && arch == "x86_64"@ {
        Some("odyn-netbsd-x86_64"@)
    } else {
        None
    }
}

/// The release asset for an OS and architecture; `None` for an unsupported platform.
pub fn binary_name(os: &str, arch: &str) -> (r: Option<&'static str>)
    ensures
        asset_name(os@, arch@) is None <==> r is None,
        asset_name(os@, arch@) matches Some(n) ==> r matches Some(x) && x@ == n,
{
    let linux = same_text(os, "linux");
    let windows = same_text(os, "windows");
    let macos = same_text(os, "macos");
    let android = same_text(os, "android");
    let freebsd = same_text(os, "freebsd");
    let netbsd = same_text(os, "netbsd");
    let x86_64 = same_text(arch, "x86_64");
    let aarch64 = same_text(arch, "aarch64");
    let x86 = same_text(arch, "x86");
    let arm = same_text(arch, "arm");
    if linux && x86_64 {
        Some("odyn-linux-x86_64")
    } else if linux && aarch64 {
        Some("odyn-linux-aarch64")
    } else if linux && x86 {
        Some("odyn-linux-i686")
    } else if linux && same_text(arch, "riscv64") {
        Some("odyn-linux-riscv64")
    } else if linux && arm {
        Some("odyn-linux-armv7")
    } else if linux && same_text(arch, "powerpc64") {
        Some("odyn-linux-powerpc64le")
    } else if linux && same_text(arch, "s390x") {
        Some("odyn-linux-s390x")
    } else if linux && same_text(arch, "sparc64") {
        Some("odyn-linux-sparc64")
    } else if windows && x86_64 {
        Some("odyn-windows-x86_64.exe")
    } else if windows && x86 {
        Some("odyn-windows-i686.exe")
    } else if macos && x86_64 {
        Some("odyn-macos-x86_64")
    } else if macos && aarch64 {
        Some("odyn-macos-aarch64")
    } else if android && x86_64 {
        Some("odyn-android-x86_64")
    } else if android && aarch64 {
        Some("odyn-android-aarch64")
    } else if android && arm {
        Some("odyn-android-armv7")
    } else if freebsd && x86_64 {
        Some("odyn-freebsd-x86_64")
    } else if freebsd && x86 {
        Some("odyn-freebsd-i686")
    } else if netbsd && x86_64 {
        Some("odyn-netbsd-x86_64")
    } else {
        None
    }
}

/// The checksum file published for an OS: `SHA256SUMS` for Linux and Windows builds,
/// `SHA256SUMS-github` for the others.
pub fn sums_filename(os: &str) -> (r: &'static str)
    ensures
        (os@ == "linux"@ || os@ == "windows"@) ==> r@ == "SHA256SUMS"@,
        !(os@ == "linux"@ || os@ == "windows"@) ==> r@ == "SHA256SUMS-github"@,
{
    if same_text(os, "linux") || same_text(os, "windows") {
        "SHA256SUMS"
    } else {
        "SHA256SUMS-github"
    }
}

/// The download URL of a release asset.
pub open spec fn asset_url(tag: Seq<char>, file: Seq<char>) -> Seq<char> {
    "https://codeberg.org/razkar/odyn/releases/download/v"@ + tag + "/"@ + file
}

/// The download URL of a file of release `v<tag>`.
pub fn release_asset_url(tag: &str, file: &str) -> (r: String)
    ensures
        r@ == asset_url(tag@, file@),
{
    let mut r = String::new();
    push_str(&mut r, "https://codeberg.org/razkar/odyn/releases/download/v");
    push_str(&mut r, tag);
    push_str(&mut r, "/");
    push_str(&mut r, file);
    r
}

// ---------------------------------------------------------------------------------------------
// Reading the forge's JSON replies
// ---------------------------------------------------------------------------------------------

/// `trim_start_matches([' ', '\t'])`.
pub open spec fn trim_blanks(s: Seq<char>) -> Seq<char>
    decreases s.len(),
{
    if s.len() > 0 && (s[0] == ' ' || s[0] == '\t') {
        trim_blanks(s.drop_first())
    } else {
        s
    }
}

/// The text before the first `"` (all of `s` when there is none).
pub open spec fn before_quote(s: Seq<char>) -> Seq<char> {
    let q = find_char(s, '"');
    if q < 0 {
        s
    } else {
        s.subrange(0, q)
    }
}

/// The string value that starts a piece following a `"key":`: blanks skipped, an opening
/// quote required, then the text up to the closing quote.
pub open spec fn quoted_value(piece: Seq<char>) -> Option<Seq<char>> {
    let t = trim_blanks(piece);
    if t.len() > 0 && t[0] == '"' {
        Some(before_quote(t.drop_first()))
    } else {
        None
    }
}

/// The value of the first `"tag_name":` of a reply, as the latest-release request reads it.
pub open spec fn first_tag(body: Seq<char>) -> Option<Seq<char>> {
    let pieces = split_sub(body, "\"tag_name\":"@);
    if pieces.len() > 1 {
        quoted_value(pieces[1])
    } else {
        None
    }
}

/// The first readable value among the pieces from position `i` on.
pub open spec fn first_readable(pieces: Seq<Seq<char>>, i: int) -> Option<Seq<char>>
    decreases pieces.len() - i,
{
    if i < 0 || i >= pieces.len() {
        None
    } else {
        match quoted_value(pieces[i]) {
            Some(v) => Some(v),
            None => first_readable(pieces, i + 1),
        }
    }
}

/// The first readable `"tag_name":` value of a reply, as the pre-release request reads it.
pub open spec fn first_readable_tag(body: Seq<char>) -> Option<Seq<char>> {
    first_readable(split_sub(body, "\"tag_name\":"@), 1)
}

/// The release tag as a version: its leading `v`s removed.
pub open spec fn tag_version(tag: Seq<char>) -> Seq<char> {
    trim_start_char(tag, 'v')
}

/// The first commit id of the main-branch reply.
pub open spec fn nightly_id(body: Seq<char>) -> Option<Seq<char>> {
    let pieces = split_sub(body, "\"id\":"@);
    if pieces.len() > 1 {
        quoted_value(pieces[1])
    } else {
        None
    }
}

/// The pieces of `s` between the non-overlapping occurrences of the non-empty `p`.
pub fn split_pieces(s: &[char], p: &[char]) -> (r: Vec<Vec<char>>)
    requires
        p@.len() > 0,
    ensures
        views(r@) == split_sub(s@, p@),
{
    let mut r: Vec<Vec<char>> = Vec::new();
    let mut start: usize = 0;
    assert(s@.subrange(0, s@.len() as int) =~= s@);
    loop
        invariant
            p@.len() > 0,
            start <= s@.len(),
            views(r@) + split_sub(s@.subrange(start as int, s@.len() as int), p@) == split_sub(
                s@,
                p@,
            ),
        decreases s.len() - start,
    {
        let ghost t = s@.subrange(start as int, s@.len() as int);
        let ghost old_r = r@;
        let ghost st = start as int;
        match crate::text::find_sub_from(s, start, p) {
            Some(k) => {
                let piece = slice_chars(s, start, k);
                proof {
                    assert(t.subrange(0, k - st) =~= s@.subrange(st, k as int));
                    assert(t.subrange(k - st + p@.len(), t.len() as int) =~= s@.subrange(
                        k + p@.len(),
                        s@.len() as int,
                    ));
                    assert(split_sub(t, p@) == seq![t.subrange(0, k - st)] + split_sub(
                        t.subrange(k - st + p@.len(), t.len() as int),
                        p@,
                    ));
                }
                r.push(piece);
                start = k + p.len();
                proof {
                    assert(views(r@) =~= views(old_r).push(s@.subrange(st, k as int)));
                    assert(views(r@) + split_sub(s@.subrange(start as int, s@.len() as int), p@)
                        =~= views(old_r) + split_sub(t, p@));
                }
            },
            None => {
                let piece = slice_chars(s, start, s.len());
                r.push(piece);
                proof {
                    assert(split_sub(t, p@) == seq![t]);
                    assert(views(r@) =~= views(old_r).push(t));
                    assert(views(r@) =~= split_sub(s@, p@));
                }
                return r;
            },
        }
    }
}

/// The string value starting a piece that follows a `"key":`.
fn quoted_value_exec(piece: &[char]) -> (r: Option<Vec<char>>)
    ensures
        r is None <==> quoted_value(piece@) is None,
        r matches Some(v) ==> quoted_value(piece@) == Some(v@),
{
    let mut a: usize = 0;
    while a < piece.len() && (piece[a] == ' ' || piece[a] == '\t')
        invariant
            a <= piece@.len(),
            forall|j: int| 0 <= j < a ==> piece@[j] == ' ' || piece@[j] == '\t',
        decreases piece.len() - a,
    {
        a = a + 1;
    }
    proof {
        lemma_trim_blanks_at(piece@, a as int);
    }
    if a == piece.len() || piece[a] != '"' {
        return None;
    }
    let ghost rest = piece@.subrange(a + 1, piece@.len() as int);
    proof {
        assert(piece@.subrange(a as int, piece@.len() as int).drop_first() =~= rest);
    }
    match find_char_from(piece, a + 1, '"') {
        Some(q) => {
            proof {
                assert(rest.subrange(0, q - a - 1) =~= piece@.subrange(a + 1, q as int));
            }
            Some(slice_chars(piece, a + 1, q))
        },
        None => Some(slice_chars(piece, a + 1, piece.len())),
    }
}

/// `trim_blanks(s)` removes exactly the leading run `s[..i]` of blanks.
proof fn lemma_trim_blanks_at(s: Seq<char>, i: int)
    requires
        0 <= i <= s.len(),
        forall|j: int| 0 <= j < i ==> s[j] == ' ' || s[j] == '\t',
        i < s.len() ==> !(s[i] == ' ' || s[i] == '\t'),
    ensures
        trim_blanks(s) == s.subrange(i, s.len() as int),
    decreases i,
{
    if i == 0 {
        assert(s.subrange(0, s.len() as int) =~= s);
    } else {
        let t = s.drop_first();
        assert forall|j: int| 0 <= j < i - 1 implies t[j] == ' ' || t[j] == '\t' by {
            assert(t[j] == s[j + 1]);
        }
        lemma_trim_blanks_at(t, i - 1);
        assert(t.subrange(i - 1, t.len() as int) =~= s.subrange(i, s.len() as int));
    }
}

/// The version without leading `v`s.
fn tag_version_exec(tag: &[char]) -> (r: String)
    ensures
        r@ == tag_version(tag@),
{
    let a = skip_char_run(tag, 0, 'v');
    assert(tag@.subrange(0, tag@.len() as int) =~= tag@);
    string_of(tag, a, tag.len())
}

/// The version of the latest stable release, read from the forge's reply: the first
/// `"tag_name":` value without its leading `v`s; `None` when it cannot be read.
pub fn latest_stable_version(body: &str) -> (r: Option<String>)
    ensures
        r is None <==> first_tag(body@) is None,
        r matches Some(v) ==> v@ == tag_version(first_tag(body@)->0),
{
    let cs = chars_of(body);
    let key = chars_of("\"tag_name\":");
    proof {
        reveal_strlit("\"tag_name\":");
    }
    let pieces = split_pieces(&cs, &key);
    if pieces.len() < 2 {
        return None;
    }
    proof {
        assert(views(pieces@)[1] == pieces@[1]@);
    }
    match quoted_value_exec(&pieces[1]) {
        Some(v) => Some(tag_version_exec(&v)),
        None => None,
    }
}

/// The version of the latest pre-release, read from the forge's list of releases: the
/// first readable `"tag_name":` value without its leading `v`s.
pub fn latest_prerelease_version(body: &str) -> (r: Option<String>)
    ensures
        r is None <==> first_readable_tag(body@) is None,
        r matches Some(v) ==> v@ == tag_version(first_readable_tag(body@)->0),
{
    let cs = chars_of(body);
    let key = chars_of("\"tag_name\":");
    proof {
        reveal_strlit("\"tag_name\":");
    }
    let pieces = split_pieces(&cs, &key);
    let ghost pv = views(pieces@);
    let mut i: usize = 1;
    while i < pieces.len()
        invariant
            1 <= i,
            cs@ == body@,
            key@ == "\"tag_name\":"@,
            pv == views(pieces@),
            pv == split_sub(cs@, key@),
            first_readable(pv, 1) == first_readable(pv, i as int),
        decreases pieces.len() - i,
    {
        proof {
            assert(pv[i as int] == pieces@[i as int]@);
        }
        match quoted_value_exec(&pieces[i]) {
            Some(v) => {
                return Some(tag_version_exec(&v));
            },
            None => {},
        }
        i = i + 1;
    }
    None
}

/// The commit `--nightly` announces: the first eight bytes of the branch's first `"id":`
/// value (`None` when the reply has none, and the commit is shown as `unknown`).
pub open spec fn nightly_short_fits(body: Seq<char>) -> bool {
    nightly_id(body) matches Some(id) ==> vstd::utf8::is_char_boundary(encode_utf8(id), 8)
}

/// Whether the branch reply's commit id can be cut after eight bytes (a full commit id
/// always can).
pub fn nightly_commit_fits(body: &str) -> (r: bool)
    ensures
        r == nightly_short_fits(body@),
{
    match nightly_commit_id(body) {
        None => true,
        Some(id) => id.as_str().is_char_boundary(8),
    }
}

/// The first `"id":` value of the branch reply.
fn nightly_commit_id(body: &str) -> (r: Option<String>)
    ensures
        r is None <==> nightly_id(body@) is None,
        r matches Some(v) ==> v@ == nightly_id(body@)->0,
{
    let cs = chars_of(body);
    let key = chars_of("\"id\":");
    proof {
        reveal_strlit("\"id\":");
    }
    let pieces = split_pieces(&cs, &key);
    if pieces.len() < 2 {
        return None;
    }
    proof {
        assert(views(pieces@)[1] == pieces@[1]@);
    }
    match quoted_value_exec(&pieces[1]) {
        Some(v) => Some(string_of(&v, 0, v.len())),
        None => None,
    }
}

/// The short commit `--nightly` builds from: the first eight bytes of the branch's commit
/// id, or `None` when the reply names none.
pub fn nightly_commit(body: &str) -> (r: Option<String>)
    requires
        nightly_short_fits(body@),
    ensures
        r is None <==> nightly_id(body@) is None,
        r matches Some(c) ==> encode_utf8(c@) == encode_utf8(nightly_id(body@)->0).subrange(0, 8),
{
    match nightly_commit_id(body) {
        None => None,
        Some(id) => {
            let s = id.as_str();
            let (head, _) = s.split_at(8);
            Some(head.to_owned())
        },
    }
}

// ---------------------------------------------------------------------------------------------
// Whether to update
// ---------------------------------------------------------------------------------------------

/// What `update-self` does once it knows the latest version.
pub enum UpdateDecision {
    /// Already on that version.
    UpToDate,
    /// The local version is newer than the latest release: skipped.
    LocalNewer,
    /// Download and install it.
    Install,
}

/// The decision: nothing when the versions are the same text; without `--force-stable`, a
/// stable or pre-release update is skipped when the local version orders after the latest one.
pub open spec fn update_decision_of(
    current: Seq<char>,
    latest: Seq<char>,
    pre_release: bool,
    force_stable: bool,
) -> UpdateDecision {
    if latest == current {
        UpdateDecision::UpToDate
    } else if !force_stable && version_order(current, latest) == Ordering::Greater {
        UpdateDecision::LocalNewer
    } else {
        UpdateDecision::Install
    }
}

/// Whether `update-self` installs `latest` over `current`.
pub fn update_decision(current: &str, latest: &str, pre_release: bool, force_stable: bool) -> (r:
    UpdateDecision)
    ensures
        r == update_decision_of(current@, latest@, pre_release, force_stable),
{
    if same_text(latest, current) {
        UpdateDecision::UpToDate
    } else if !force_stable {
        match version_cmp(current, latest) {
            Ordering::Greater => UpdateDecision::LocalNewer,
            _ => UpdateDecision::Install,
        }
    } else {
        UpdateDecision::Install
    }
}

/// Asking for the version already installed never downloads anything, on any channel.
pub proof fn same_version_is_up_to_date(v: Seq<char>, pre_release: bool, force_stable: bool)
    ensures
        update_decision_of(v, v, pre_release, force_stable) == UpdateDecision::UpToDate,
{
}

/// An update, stable or pre-release, never goes back to an older version unless
/// `--force-stable` is given; with it, any other version is installed.
pub proof fn stable_update_never_downgrades(current: Seq<char>, latest: Seq<char>, pre_release: bool)
    ensures
        latest != current && version_order(current, latest) == Ordering::Greater
            ==> update_decision_of(current, latest, pre_release, false)
            == UpdateDecision::LocalNewer,
        latest != current ==> update_decision_of(current, latest, false, true)
            == UpdateDecision::Install,
        update_decision_of(current, latest, pre_release, false) == UpdateDecision::Install
            ==> version_order(current, latest) != Ordering::Greater,
{
}

/// The name the release assets give an architecture reported as `arch`
/// (`std::env::consts::ARCH`).
pub open spec fn release_arch(arch: Seq<char>) -> Seq<char> {
    if arch == "x86"@ {
        "i686"@
    } else if arch == "arm"@ {
        "armv7"@
    } else if arch == "powerpc64"@ {
        "powerpc64le"@
    } else {
        arch
    }
}

/// The file suffix of an executable on `os`.
pub open spec fn exe_suffix(os: Seq<char>) -> Seq<char> {
    if os == "windows"@ {
        ".exe"@
    } else {
        ""@
    }
}

/// The asset chosen for an OS and architecture is the build for that OS and architecture:
/// its name is `odyn-<os>-<arch>`, with the release's name for the architecture and `.exe`
/// on Windows.
pub proof fn asset_matches_platform(os: Seq<char>, arch: Seq<char>)
    ensures
        asset_name(os, arch) matches Some(n) ==> n == "odyn-"@ + os + "-"@ + release_arch(arch)
            + exe_suffix(os),
{
    reveal_strlit("-");
    reveal_strlit(".exe");
    reveal_strlit("aarch64");
    reveal_strlit("android");
    reveal_strlit("arm");
    reveal_strlit("armv7");
    reveal_strlit("freebsd");
    reveal_strlit("i686");
    reveal_strlit("linux");
    reveal_strlit("macos");
    reveal_strlit("netbsd");
    reveal_strlit("odyn-");
    reveal_strlit("odyn-android-aarch64");
    reveal_strlit("odyn-android-armv7");
    reveal_strlit("odyn-android-x86_64");
    reveal_strlit("odyn-freebsd-i686");
    reveal_strlit("odyn-freebsd-x86_64");
    reveal_strlit("odyn-linux-aarch64");
    reveal_strlit("odyn-linux-armv7");
    reveal_strlit("odyn-linux-i686");
    reveal_strlit("odyn-linux-powerpc64le");
    reveal_strlit("odyn-linux-riscv64");
    reveal_strlit("odyn-linux-s390x");
    reveal_strlit("odyn-linux-sparc64");
    reveal_strlit("odyn-linux-x86_64");
    reveal_strlit("odyn-macos-aarch64");
    reveal_strlit("odyn-macos-x86_64");
    reveal_strlit("odyn-netbsd-x86_64");
    reveal_strlit("odyn-windows-i686.exe");
    reveal_strlit("odyn-windows-x86_64.exe");
    reveal_strlit("powerpc64");
    reveal_strlit("powerpc64le");
    reveal_strlit("riscv64");
    reveal_strlit("s390x");
    reveal_strlit("sparc64");
    reveal_strlit("windows");
    reveal_strlit("x86");
    reveal_strlit("x86_64");
    reveal_strlit("");
    assert("x86_64"@.len() == 6 && "x86_64"@[0] == 'x');
    assert("aarch64"@.len() == 7 && "aarch64"@[0] == 'a');
    assert("riscv64"@.len() == 7 && "riscv64"@[0] == 'r');
    assert("s390x"@.len() == 5 && "s390x"@[0] == 's');
    assert("sparc64"@.len() == 7 && "sparc64"@[0] == 's');
    assert("x86"@.len() == 3 && "x86"@[0] == 'x');
    assert("arm"@.len() == 3 && "arm"@[0] == 'a');
    assert("powerpc64"@.len() == 9 && "powerpc64"@[0] == 'p');
    assert("linux"@.len() == 5 && "linux"@[0] == 'l');
    assert("windows"@.len() == 7 && "windows"@[0] == 'w');
    assert("macos"@.len() == 5 && "macos"@[0] == 'm');
    assert("android"@.len() == 7 && "android"@[0] == 'a');
    assert("freebsd"@.len() == 7 && "freebsd"@[0] == 'f');
    assert("netbsd"@.len() == 6 && "netbsd"@[0] == 'n');
    if os == "linux"@ && arch == "x86_64"@ {
        assert(asset_name(os, arch) == Some("odyn-linux-x86_64"@));
        assert("odyn-linux-x86_64"@ =~= "odyn-"@ + os + "-"@ + release_arch(arch) + exe_suffix(os));
    }
    if os == "linux"@ && arch == "aarch64"@ {
        assert(asset_name(os, arch) == Some("odyn-linux-aarch64"@));
        assert("odyn-linux-aarch64"@ =~= "odyn-"@ + os + "-"@ + release_arch(arch) + exe_suffix(os));
    }
    if os == "linux"@ && arch == "x86"@ {
        assert(asset_name(os, arch) == Some("odyn-linux-i686"@));
        assert("odyn-linux-i686"@ =~= "odyn-"@ + os + "-"@ + release_arch(arch) + exe_suffix(os));
    }
    if os == "linux"@ && arch == "riscv64"@ {
        assert(asset_name(os, arch) == Some("odyn-linux-riscv64"@));
        assert("odyn-linux-riscv64"@ =~= "odyn-"@ + os + "-"@ + release_arch(arch) + exe_suffix(os));
    }
    if os == "linux"@ && arch == "arm"@ {
        assert(asset_name(os, arch) == Some("odyn-linux-armv7"@));
        assert("odyn-linux-armv7"@ =~= "odyn-"@ + os + "-"@ + release_arch(arch) + exe_suffix(os));
    }
    if os == "linux"@ && arch == "powerpc64"@ {
        assert(asset_name(os, arch) == Some("odyn-linux-powerpc64le"@));
        assert("odyn-linux-powerpc64le"@ =~= "odyn-"@ + os + "-"@ + release_arch(arch) + exe_suffix(os));
    }
    if os == "linux"@ && arch == "s390x"@ {
        assert(asset_name(os, arch) == Some("odyn-linux-s390x"@));
        assert("odyn-linux-s390x"@ =~= "odyn-"@ + os + "-"@ + release_arch(arch) + exe_suffix(os));
    }
    if os == "linux"@ && arch == "sparc64"@ {
        assert(asset_name(os, arch) == Some("odyn-linux-sparc64"@));
        assert("odyn-linux-sparc64"@ =~= "odyn-"@ + os + "-"@ + release_arch(arch) + exe_suffix(os));
    }
    if os == "windows"@ && arch == "x86_64"@ {
        assert(asset_name(os, arch) == Some("odyn-windows-x86_64.exe"@));
        assert("odyn-windows-x86_64.exe"@ =~= "odyn-"@ + os + "-"@ + release_arch(arch) + exe_suffix(os));
    }
    if os == "windows"@ && arch == "x86"@ {
        assert(asset_name(os, arch) == Some("odyn-windows-i686.exe"@));
        assert("odyn-windows-i686.exe"@ =~= "odyn-"@ + os + "-"@ + release_arch(arch) + exe_suffix(os));
    }
    if os == "macos"@ && arch == "x86_64"@ {
        assert(asset_name(os, arch) == Some("odyn-macos-x86_64"@));
        assert("odyn-macos-x86_64"@ =~= "odyn-"@ + os + "-"@ + release_arch(arch) + exe_suffix(os));
    }
    if os == "macos"@ && arch == "aarch64"@ {
        assert(asset_name(os, arch) == Some("odyn-macos-aarch64"@));
        assert("odyn-macos-aarch64"@ =~= "odyn-"@ + os + "-"@ + release_arch(arch) + exe_suffix(os));
    }
    if os == "android"@ && arch == "x86_64"@ {
        assert(asset_name(os, arch) == Some("odyn-android-x86_64"@));
        assert("odyn-android-x86_64"@ =~= "odyn-"@ + os + "-"@ + release_arch(arch) + exe_suffix(os));
    }
    if os == "android"@ && arch == "aarch64"@ {
        assert(asset_name(os, arch) == Some("odyn-android-aarch64"@));
        assert("odyn-android-aarch64"@ =~= "odyn-"@ + os + "-"@ + release_arch(arch) + exe_suffix(os));
    }
    if os == "android"@ && arch == "arm"@ {
        assert(asset_name(os, arch) == Some("odyn-android-armv7"@));
        assert("odyn-android-armv7"@ =~= "odyn-"@ + os + "-"@ + release_arch(arch) + exe_suffix(os));
    }
    if os == "freebsd"@ && arch == "x86_64"@ {
        assert(asset_name(os, arch) == Some("odyn-freebsd-x86_64"@));
        assert("odyn-freebsd-x86_64"@ =~= "odyn-"@ + os + "-"@ + release_arch(arch) + exe_suffix(os));
    }
    if os == "freebsd"@ && arch == "x86"@ {
        assert(asset_name(os, arch) == Some("odyn-freebsd-i686"@));
        assert("odyn-freebsd-i686"@ =~= "odyn-"@ + os + "-"@ + release_arch(arch) + exe_suffix(os));
    }
    if os == "netbsd"@ && arch == "x86_64"@ {
        assert(asset_name(os, arch) == Some("odyn-netbsd-x86_64"@));
        assert("odyn-netbsd-x86_64"@ =~= "odyn-"@ + os + "-"@ + release_arch(arch) + exe_suffix(os));
    }
}

} // verus!

//! Resolving what `odyn get` is asked for (the Git source and the dependency name), and
//! what it does when a later step fails.
use vstd::prelude::*;

use crate::text::{chars_of, contains, occurs_at, contains_exec, ends_with, occurs_at_exec, push_str, same_text, starts_with, string_of, trim_end_char};

verus! {

/// `str::to_lowercase` (Unicode lower case mapping) of `s`.
pub uninterp spec fn lowercase(s: Seq<char>) -> Seq<char>;

/// Lower-cases a string with `str::to_lowercase`; the result is named `lowercase(s)`.
#[verifier::external_body]
pub(crate) fn to_lower(s: &str) -> (r: String)
    ensures
        r@ == lowercase(s@),
{
    s.to_lowercase()
}

/// `char::is_ascii_alphabetic`.
pub open spec fn is_ascii_letter(c: char) -> bool {
    ('a' <= c <= 'z') || ('A' <= c <= 'Z')
}

/// The source names a local path (absolute, relative, home, `file://` or a Windows drive):
/// such sources are refused so that lockfiles stay portable.
pub open spec fn looks_local(s: Seq<char>) -> bool {
    ||| starts_with(s, "/"@)
    ||| starts_with(s, "./"@)
    ||| starts_with(s, "../"@)
    ||| starts_with(s, "~"@)
    ||| starts_with(s, ".\\"@)
    ||| starts_with(s, "..\\"@)
    ||| starts_with(s, "file://"@)
    ||| (s.len() >= 3 && is_ascii_letter(s[0]) && s[1] == ':' && (s[2] == '\\' || s[2] == '/'))
}

/// How many times `c` occurs in `s`.
pub open spec fn count_char(s: Seq<char>, c: char) -> nat
    decreases s.len(),
{
    if s.len() == 0 {
        0
    } else {
        count_char(s.drop_last(), c) + if s.last() == c {
            1nat
        } else {
            0nat
        }
    }
}

/// A `user/repo` shorthand: no `://` and exactly one `/`.
pub open spec fn is_shorthand(s: Seq<char>) -> bool {
    !contains(s, "://"@) && count_char(s, '/') == 1
}

/// What a (lower-cased) platform name resolves shorthands against.
pub enum PlatformBase {
    /// The base URL of the forge.
    Base(Seq<char>),
    /// `gitea`, which has no single public instance.
    Gitea,
    /// A name that is not known.
    Unknown,
}

/// The forge base URL of a lower-cased platform name.
pub open spec fn platform_base(p: Seq<char>) -> PlatformBase {
    if p == "github"@ {
        PlatformBase::Base("https://github.com"@)
    } else if p == "codeberg"@ {
        PlatformBase::Base("https://codeberg.org"@)
    } else if p == "gitlab"@ {
        PlatformBase::Base("https://gitlab.com"@)
    } else if p == "sourcehut"@ || p == "sr.ht"@ {
        PlatformBase::Base("https://git.sr.ht"@)
    } else if p == "bitbucket"@ {
        PlatformBase::Base("https://bitbucket.org"@)
    } else if p == "gitea"@ {
        PlatformBase::Gitea
    } else if p == "savannah"@ {
        PlatformBase::Base("https://git.savannah.gnu.org/git"@)
    } else if p == "notabug"@ {
        PlatformBase::Base("https://notabug.org"@)
    } else if p == "disroot"@ {
        PlatformBase::Base("https://git.disroot.org"@)
    } else if p == "framagit"@ {
        PlatformBase::Base("https://framagit.org"@)
    } else {
        PlatformBase::Unknown
    }
}

/// The characters after the last `c` in `s` (all of `s` when there is none).
pub open spec fn after_last(s: Seq<char>, c: char) -> Seq<char>
    decreases s.len(),
{
    if s.len() == 0 || s.last() == c {
        seq![]
    } else {
        after_last(s.drop_last(), c).push(s.last())
    }
}

/// The name a source gets when none is given: its last path segment, trailing slashes
/// ignored.
pub open spec fn default_name(source: Seq<char>) -> Seq<char> {
    after_last(trim_end_char(source, '/'), '/')
}

/// `name` without one trailing `.git`.
pub open spec fn strip_git_suffix(name: Seq<char>) -> Seq<char> {
    if ends_with(name, ".git"@) {
        name.subrange(0, name.len() - ".git"@.len())
    } else {
        name
    }
}

/// Why a `get` request is refused before anything is cloned.
pub enum GetError {
    /// The source is a local path.
    LocalPath { source: String },
    /// A shorthand was given for `gitea`.
    GiteaShorthand,
    /// A shorthand was given for an unknown platform (lower-cased here).
    UnknownPlatform { platform: String, source: String },
    /// No name could be derived from the source.
    NoName { source: String },
}

/// The value of a [`GetError`].
pub enum GetErrorView {
    LocalPath(Seq<char>),
    GiteaShorthand,
    UnknownPlatform(Seq<char>, Seq<char>),
    NoName(Seq<char>),
}

impl View for GetError {
    type V = GetErrorView;

    open spec fn view(&self) -> GetErrorView {
        match self {
            GetError::LocalPath { source } => GetErrorView::LocalPath(source@),
            GetError::GiteaShorthand => GetErrorView::GiteaShorthand,
            GetError::UnknownPlatform { platform, source } => GetErrorView::UnknownPlatform(
                platform@,
                source@,
            ),
            GetError::NoName { source } => GetErrorView::NoName(source@),
        }
    }
}

/// The source and name that `odyn get` clones and pins.
pub struct GetTarget {
    pub source: String,
    pub name: String,
}

/// What `odyn get <source> [name] --platform <p>` resolves to, `lowered` being the
/// lower-cased platform name: local paths are refused; a `user/repo` shorthand is
/// prefixed with the platform's base URL; the name is the given one, as given, or else the
/// last path segment of the source without one `.git` suffix.
pub open spec fn get_target(
    source: Seq<char>,
    name: Option<Seq<char>>,
    lowered: Seq<char>,
) -> Result<(Seq<char>, Seq<char>), GetErrorView> {
    if looks_local(source) {
        Err(GetErrorView::LocalPath(source))
    } else {
        let resolved: Result<Seq<char>, GetErrorView> = if is_shorthand(source) {
            match platform_base(lowered) {
                PlatformBase::Base(b) => Ok(b + "/"@ + source),
                PlatformBase::Gitea => Err(GetErrorView::GiteaShorthand),
                PlatformBase::Unknown => Err(GetErrorView::UnknownPlatform(lowered, source)),
            }
        } else {
            Ok(source)
        };
        match resolved {
            Err(e) => Err(e),
            Ok(src) => {
                let raw = match name {
                    Some(n) => n,
                    None => default_name(src),
                };
                if raw.len() == 0 {
                    Err(GetErrorView::NoName(src))
                } else if name is Some {
                    Ok((src, raw))
                } else {
                    Ok((src, strip_git_suffix(raw)))
                }
            },
        }
    }
}

/// The view of an optional string.
pub open spec fn opt_text(o: Option<&str>) -> Option<Seq<char>> {
    match o {
        Some(s) => Some(s@),
        None => None,
    }
}

/// Whether `s` names a local path.
pub fn is_local_path(s: &str) -> (r: bool)
    ensures
        r == looks_local(s@),
{
    let cs = chars_of(s);
    let p0 = chars_of("/");
    let p1 = chars_of("./");
    let p2 = chars_of("../");
    let p3 = chars_of("~");
    let p4 = chars_of(".\\");
    let p5 = chars_of("..\\");
    let p6 = chars_of("file://");
    let hit = occurs_at_exec(&cs, &p0, 0) || occurs_at_exec(&cs, &p1, 0) || occurs_at_exec(
        &cs,
        &p2,
        0,
    ) || occurs_at_exec(&cs, &p3, 0) || occurs_at_exec(&cs, &p4, 0) || occurs_at_exec(&cs, &p5, 0)
        || occurs_at_exec(&cs, &p6, 0);
    if hit {
        return true;
    }
    cs.len() >= 3 && (('a' <= cs[0] && cs[0] <= 'z') || ('A' <= cs[0] && cs[0] <= 'Z')) && cs[1]
        == ':' && (cs[2] == '\\' || cs[2] == '/')
}

/// How many times `c` occurs in `s`.
fn count_char_exec(s: &[char], c: char) -> (r: usize)
    ensures
        r == count_char(s@, c),
{
    let mut n: usize = 0;
    let mut i: usize = 0;
    while i < s.len()
        invariant
            i <= s@.len(),
            n == count_char(s@.take(i as int), c),
            n <= i,
        decreases s.len() - i,
    {
        assert(s@.take(i + 1).drop_last() =~= s@.take(i as int));
        if s[i] == c {
            n = n + 1;
        }
        i = i + 1;
    }
    assert(s@.take(s@.len() as int) =~= s@);
    n
}

/// The base URL of a lower-cased platform name.
fn platform_base_exec(p: &str) -> (r: Result<&'static str, bool>)
    ensures
        platform_base(p@) matches PlatformBase::Base(b) ==> r matches Ok(u) && u@ == b,
        platform_base(p@) is Gitea ==> r == Err::<&'static str, bool>(true),
        platform_base(p@) is Unknown ==> r == Err::<&'static str, bool>(false),
{
    if same_text(p, "github") {
        Ok("https://github.com")
    } else if same_text(p, "codeberg") {
        Ok("https://codeberg.org")
    } else if same_text(p, "gitlab") {
        Ok("https://gitlab.com")
    } else if same_text(p, "sourcehut") || same_text(p, "sr.ht") {
        Ok("https://git.sr.ht")
    } else if same_text(p, "bitbucket") {
        Ok("https://bitbucket.org")
    } else if same_text(p, "gitea") {
        Err(true)
    } else if same_text(p, "savannah") {
        Ok("https://git.savannah.gnu.org/git")
    } else if same_text(p, "notabug") {
        Ok("https://notabug.org")
    } else if same_text(p, "disroot") {
        Ok("https://git.disroot.org")
    } else if same_text(p, "framagit") {
        Ok("https://framagit.org")
    } else {
        Err(false)
    }
}

/// `after_last(s, c)` is `s[k + 1..]` for the last position `k` of `c` (or all of `s`).
proof fn lemma_after_last_at(s: Seq<char>, c: char, k: int)
    requires
        -1 <= k < s.len(),
        k >= 0 ==> s[k] == c,
        forall|j: int| k < j < s.len() ==> s[j] != c,
    ensures
        after_last(s, c) == s.subrange(k + 1, s.len() as int),
    decreases s.len(),
{
    if s.len() == 0 {
    } else if k == s.len() - 1 {
        assert(s.subrange(k + 1, s.len() as int) =~= Seq::<char>::empty());
    } else {
        let t = s.drop_last();
        lemma_after_last_at(t, c, k);
        assert(t.subrange(k + 1, t.len() as int).push(s.last()) =~= s.subrange(
            k + 1,
            s.len() as int,
        ));
    }
}

/// The name derived from a source: its last path segment, trailing slashes ignored.
fn default_name_exec(src: &[char]) -> (r: Vec<char>)
    ensures
        r@ == default_name(src@),
{
    let mut end = src.len();
    while end > 0 && src[end - 1] == '/'
        invariant
            end <= src@.len(),
            forall|j: int| end <= j < src@.len() ==> src@[j] == '/',
        decreases end,
    {
        end = end - 1;
    }
    proof {
        crate::text::lemma_trim_end_char_at(src@, '/', end as int);
    }
    let ghost t = src@.subrange(0, end as int);
    let mut k = end;
    while k > 0 && src[k - 1] != '/'
        invariant
            k <= end <= src@.len(),
            forall|j: int| k <= j < end ==> src@[j] != '/',
        decreases k,
    {
        k = k - 1;
    }
    proof {
        lemma_after_last_at(t, '/', k - 1);
        assert(t.subrange(k as int, t.len() as int) =~= src@.subrange(k as int, end as int));
    }
    crate::text::slice_chars(src, k, end)
}

/// `name` without one trailing `.git`.
fn strip_git_suffix_exec(name: &[char]) -> (r: String)
    ensures
        r@ == strip_git_suffix(name@),
{
    let suffix = chars_of(".git");
    if name.len() >= suffix.len() && occurs_at_exec(name, &suffix, name.len() - suffix.len()) {
        string_of(name, 0, name.len() - suffix.len())
    } else {
        assert(name@.subrange(0, name@.len() as int) =~= name@);
        string_of(name, 0, name.len())
    }
}

/// Resolves the source and name of `odyn get`, given the lower-cased platform name.
pub fn resolve_get_with(source: &str, name: Option<&str>, lowered: &str) -> (r: Result<
    GetTarget,
    GetError,
>)
    ensures
        match get_target(source@, opt_text(name), lowered@) {
            Ok(t) => r matches Ok(g) && g.source@ == t.0 && g.name@ == t.1,
            Err(e) => r matches Err(x) && x@ == e,
        },
{
    if is_local_path(source) {
        return Err(GetError::LocalPath { source: source.to_owned() });
    }
    let cs = chars_of(source);
    let sep = chars_of("://");
    let src: String = if !contains_exec(&cs, &sep) && count_char_exec(&cs, '/') == 1 {
        match platform_base_exec(lowered) {
            Ok(base) => {
                let mut u = String::new();
                push_str(&mut u, base);
                push_str(&mut u, "/");
                push_str(&mut u, source);
                u
            },
            Err(true) => {
                return Err(GetError::GiteaShorthand);
            },
            Err(false) => {
                return Err(
                    GetError::UnknownPlatform {
                        platform: lowered.to_owned(),
                        source: source.to_owned(),
                    },
                );
            },
        }
    } else {
        source.to_owned()
    };
    match name {
        Some(n) => {
            let nc = chars_of(n);
            if nc.len() == 0 {
                return Err(GetError::NoName { source: src });
            }
            Ok(GetTarget { source: src, name: n.to_owned() })
        },
        None => {
            let sc = chars_of(src.as_str());
            let raw = default_name_exec(&sc);
            if raw.len() == 0 {
                return Err(GetError::NoName { source: src });
            }
            let n = strip_git_suffix_exec(&raw);
            Ok(GetTarget { source: src, name: n })
        },
    }
}

/// Resolves the source and name of `odyn get <source> [name] --platform <platform>`.
pub fn resolve_get(source: &str, name: Option<&str>, platform: &str) -> (r: Result<
    GetTarget,
    GetError,
>)
    ensures
        match get_target(source@, opt_text(name), lowercase(platform@)) {
            Ok(t) => r matches Ok(g) && g.source@ == t.0 && g.name@ == t.1,
            Err(e) => r matches Err(x) && x@ == e,
        },
{
    let lowered = to_lower(platform);
    resolve_get_with(source, name, lowered.as_str())
}

// ---------------------------------------------------------------------------------------------
// When `odyn get` fails after the resolution
// ---------------------------------------------------------------------------------------------

/// What went wrong in `odyn get` once the target was resolved.
pub enum GetFailure {
    /// `git clone` or `git checkout` could not be started; `error` says why.
    NotRun { error: String },
    /// `git clone` failed.
    Clone,
    /// `git checkout <commit>` failed in the new clone.
    Checkout { commit: String },
    /// The commit could not be read after the checkout of a given commit.
    HeadAfterCheckout { error: String },
    /// The HEAD commit of the new clone could not be read.
    Head { error: String },
    /// The lockfile could not be saved.
    Save { error: String },
}

/// The value of a [`GetFailure`].
pub enum GetFailureView {
    NotRun(Seq<char>),
    Clone,
    Checkout(Seq<char>),
    HeadAfterCheckout(Seq<char>),
    Head(Seq<char>),
    Save(Seq<char>),
}

impl View for GetFailure {
    type V = GetFailureView;

    open spec fn view(&self) -> GetFailureView {
        match self {
            GetFailure::NotRun { error } => GetFailureView::NotRun(error@),
            GetFailure::Clone => GetFailureView::Clone,
            GetFailure::Checkout { commit } => GetFailureView::Checkout(commit@),
            GetFailure::HeadAfterCheckout { error } => GetFailureView::HeadAfterCheckout(error@),
            GetFailure::Head { error } => GetFailureView::Head(error@),
            GetFailure::Save { error } => GetFailureView::Save(error@),
        }
    }
}

/// What `odyn get` does about a failure: whether it removes the new clone, and the error
/// it stops with.
pub struct GetCleanup {
    pub remove_clone: bool,
    pub message: String,
}

/// The new clone is removed exactly when one was made: after any failure that comes once
/// `git clone` has succeeded.
pub open spec fn removes_clone(f: GetFailureView) -> bool {
    !(f is NotRun || f is Clone)
}

/// The error `odyn get` stops with.
pub open spec fn get_failure_message(f: GetFailureView) -> Seq<char> {
    match f {
        GetFailureView::NotRun(e) => e,
        GetFailureView::Clone => "git clone failed"@,
        GetFailureView::Checkout(c) => "failed to checkout commit '"@ + c
            + "'. maybe it was a typo? (partial clone removed)"@,
        GetFailureView::HeadAfterCheckout(e) => "failed to resolve HEAD after checkout: "@ + e,
        GetFailureView::Head(e) => "failed to read HEAD commit: "@ + e,
        GetFailureView::Save(e) => "failed to save lockfile (partial clone removed): "@ + e,
    }
}

/// `text + tail` as a new string.
fn then_text(text: &str, tail: &str) -> (r: String)
    ensures
        r@ == text@ + tail@,
{
    let mut r = String::new();
    push_str(&mut r, text);
    push_str(&mut r, tail);
    r
}

/// How `odyn get` cleans up after `failure`.
pub fn get_cleanup(failure: GetFailure) -> (r: GetCleanup)
    ensures
        r.remove_clone == removes_clone(failure@),
        r.message@ == get_failure_message(failure@),
{
    match failure {
        GetFailure::NotRun { error } => GetCleanup { remove_clone: false, message: error },
        GetFailure::Clone => GetCleanup {
            remove_clone: false,
            message: "git clone failed".to_owned(),
        },
        GetFailure::Checkout { commit } => {
            let mut m = then_text("failed to checkout commit '", commit.as_str());
            push_str(&mut m, "'. maybe it was a typo? (partial clone removed)");
            GetCleanup { remove_clone: true, message: m }
        },
        GetFailure::HeadAfterCheckout { error } => GetCleanup {
            remove_clone: true,
            message: then_text("failed to resolve HEAD after checkout: ", error.as_str()),
        },
        GetFailure::Head { error } => GetCleanup {
            remove_clone: true,
            message: then_text("failed to read HEAD commit: ", error.as_str()),
        },
        GetFailure::Save { error } => GetCleanup {
            remove_clone: true,
            message: then_text("failed to save lockfile (partial clone removed): ", error.as_str()),
        },
    }
}

// ---------------------------------------------------------------------------------------------
// Laws
// ---------------------------------------------------------------------------------------------

/// A local path is always refused, whatever the name and platform.
pub proof fn local_paths_refused(source: Seq<char>, name: Option<Seq<char>>, lowered: Seq<char>)
    requires
        looks_local(source),
    ensures
        get_target(source, name, lowered) == Err::<(Seq<char>, Seq<char>), GetErrorView>(
            GetErrorView::LocalPath(source),
        ),
{
}

/// A full URL is used as given: the platform plays no part for a source that is not a
/// `user/repo` shorthand.
pub proof fn full_urls_ignore_platform(
    source: Seq<char>,
    name: Option<Seq<char>>,
    p: Seq<char>,
    q: Seq<char>,
)
    requires
        !is_shorthand(source),
    ensures
        get_target(source, name, p) == get_target(source, name, q),
        get_target(source, name, p) matches Ok(t) ==> t.0 == source,
{
}

/// An explicit name is used as given, `.git` suffix and all; only a name derived from the
/// source loses one `.git` suffix.
pub proof fn given_name_kept(source: Seq<char>, n: Seq<char>, lowered: Seq<char>)
    requires
        get_target(source, Some(n), lowered) is Ok,
    ensures
        get_target(source, Some(n), lowered) matches Ok(t) && t.1 == n,
        get_target(source, None, lowered) matches Ok(t) ==> t.1 == strip_git_suffix(
            default_name(t.0),
        ),
{
}

/// Each supported platform resolves shorthands against its own forge: the base URL is an
/// `https://` URL that names the platform (`sourcehut` is another name of `sr.ht`), and a
/// `user/repo` shorthand is cloned from that base.
pub proof fn platforms_resolve_to_their_forge(p: Seq<char>, source: Seq<char>)
    ensures
        platform_base(p) matches PlatformBase::Base(b) ==> starts_with(b, "https://"@) && (
        contains(b, p) || p == "sourcehut"@),
        platform_base("sourcehut"@) == platform_base("sr.ht"@),
        is_shorthand(source) && !looks_local(source) ==> (platform_base(p) matches PlatformBase::Base(
            b,
        ) ==> (get_target(source, None, p) matches Ok(t) ==> t.0 == b + "/"@ + source)),
{
    reveal_strlit("github");
    reveal_strlit("codeberg");
    reveal_strlit("gitlab");
    reveal_strlit("sourcehut");
    reveal_strlit("sr.ht");
    reveal_strlit("bitbucket");
    reveal_strlit("gitea");
    reveal_strlit("savannah");
    reveal_strlit("notabug");
    reveal_strlit("disroot");
    reveal_strlit("framagit");
    reveal_strlit("https://github.com");
    reveal_strlit("https://codeberg.org");
    reveal_strlit("https://gitlab.com");
    reveal_strlit("https://git.sr.ht");
    reveal_strlit("https://bitbucket.org");
    reveal_strlit("https://git.savannah.gnu.org/git");
    reveal_strlit("https://notabug.org");
    reveal_strlit("https://git.disroot.org");
    reveal_strlit("https://framagit.org");
    reveal_strlit("https://");
    if p == "github"@ {
        reveal_strlit("github");
        reveal_strlit("https://github.com");
        assert("https://github.com"@.subrange(8, 14) =~= "github"@);
        assert(occurs_at("https://github.com"@, "github"@, 8));
    }
    if p == "codeberg"@ {
        reveal_strlit("codeberg");
        reveal_strlit("https://codeberg.org");
        assert("https://codeberg.org"@.subrange(8, 16) =~= "codeberg"@);
        assert(occurs_at("https://codeberg.org"@, "codeberg"@, 8));
    }
    if p == "gitlab"@ {
        reveal_strlit("gitlab");
        reveal_strlit("https://gitlab.com");
        assert("https://gitlab.com"@.subrange(8, 14) =~= "gitlab"@);
        assert(occurs_at("https://gitlab.com"@, "gitlab"@, 8));
    }
    if p == "sr.ht"@ {
        reveal_strlit("sr.ht");
        reveal_strlit("https://git.sr.ht");
        assert("https://git.sr.ht"@.subrange(12, 17) =~= "sr.ht"@);
        assert(occurs_at("https://git.sr.ht"@, "sr.ht"@, 12));
    }
    if p == "bitbucket"@ {
        reveal_strlit("bitbucket");
        reveal_strlit("https://bitbucket.org");
        assert("https://bitbucket.org"@.subrange(8, 17) =~= "bitbucket"@);
        assert(occurs_at("https://bitbucket.org"@, "bitbucket"@, 8));
    }
    if p == "savannah"@ {
        reveal_strlit("savannah");
        reveal_strlit("https://git.savannah.gnu.org/git");
        assert("https://git.savannah.gnu.org/git"@.subrange(12, 20) =~= "savannah"@);
        assert(occurs_at("https://git.savannah.gnu.org/git"@, "savannah"@, 12));
    }
    if p == "notabug"@ {
        reveal_strlit("notabug");
        reveal_strlit("https://notabug.org");
        assert("https://notabug.org"@.subrange(8, 15) =~= "notabug"@);
        assert(occurs_at("https://notabug.org"@, "notabug"@, 8));
    }
    if p == "disroot"@ {
        reveal_strlit("disroot");
        reveal_strlit("https://git.disroot.org");
        assert("https://git.disroot.org"@.subrange(12, 19) =~= "disroot"@);
        assert(occurs_at("https://git.disroot.org"@, "disroot"@, 12));
    }
    if p == "framagit"@ {
        reveal_strlit("framagit");
        reveal_strlit("https://framagit.org");
        assert("https://framagit.org"@.subrange(8, 16) =~= "framagit"@);
        assert(occurs_at("https://framagit.org"@, "framagit"@, 8));
    }
    assert("sourcehut"@.len() == 9 && "sr.ht"@.len() == 5 && "github"@.len() == 6);
    assert("codeberg"@.len() == 8 && "gitlab"@.len() == 6);
    assert(platform_base("sourcehut"@) == PlatformBase::Base("https://git.sr.ht"@));
    assert(platform_base("sr.ht"@) == PlatformBase::Base("https://git.sr.ht"@));
    if let PlatformBase::Base(b) = platform_base(p) {
        assert(b.subrange(0, 8) =~= "https://"@);
    }
}

} // verus!

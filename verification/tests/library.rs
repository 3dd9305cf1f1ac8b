use std::cmp::Ordering;

use odyn::checksum::{checksum_verdict, find_published_hash, to_hex_lower, verify_download, ChecksumError};
use odyn::cli::{
    clone_option_args, entry_action, git_version_line, run, verbose_lines, version_banner, Command,
    EntryAction, RunError,
};
use odyn::git_output::{head_commit, parse_porcelain_status};
use odyn::lockfile::{short, AddPlan, Dep, Lockfile};
use odyn::progress::{
    classify_clone_line, clone_failure_lines, parse_u64_exec, progress_bar_exec, render_progress,
    CloneLine, CloneStage,
};
use odyn::project::{
    gen_readme, license_file, license_file_with, migrate_ols, migrate_precheck, ols_migration_check,
    project_layout, License, LicenseFile, MigrateError, ProjectItem,
};
use odyn::release::{
    binary_name, latest_prerelease_version, latest_stable_version, nightly_commit,
    nightly_commit_fits, release_asset_url, sums_filename, update_channel, update_decision,
    Channel, FlagConflict, UpdateDecision,
};
use odyn::report::{cmd_status, render_status, status_line, updated_line, HeadObservation};
use odyn::source::{get_cleanup, is_local_path, resolve_get, resolve_get_with, GetError, GetFailure};
use odyn::sync::{
    conflict_report, is_skipped, nothing_to_sync, restore_plan, sync_finished_line, sync_next,
    sync_start, sync_state, update_fetch_args, DepState, GitOutcome, RestorePlan, RestoreStep,
    SyncAction, SyncEntry, SyncObservation,
};
use odyn::text::{decimal_string, pad_left_exec};
use odyn::version::{parse_version, version_cmp};

fn dep(name: &str, source: &str, commit: &str) -> Dep {
    Dep::new(name.to_string(), source.to_string(), commit.to_string())
}

fn names(l: &Lockfile) -> Vec<String> {
    l.dep.iter().map(|d| d.name.clone()).collect()
}

// ----------------------------------------------------------------------------------------
// versions
// ----------------------------------------------------------------------------------------

#[test]
fn version_components_overflow_and_prefixes() {
    assert_eq!(parse_version("4294967295"), (4294967295, 0, 0));
    assert_eq!(parse_version("4294967296.1"), (0, 1, 0));
    assert_eq!(parse_version("vv1.2"), (1, 2, 0));
    assert_eq!(parse_version("1..3"), (1, 0, 3));
    assert_eq!(parse_version("+1.2"), (0, 2, 0));
    assert_eq!(parse_version("v"), (0, 0, 0));
    assert_eq!(parse_version("007.08.9"), (7, 8, 9));
}

#[test]
fn version_order_laws_on_examples() {
    // reflexive, antisymmetric, transitive
    assert_eq!(version_cmp("0.3.1-beta", "0.3.1-beta"), Ordering::Equal);
    assert_eq!(version_cmp("0.2.9", "0.10.0"), Ordering::Less);
    assert_eq!(version_cmp("0.10.0", "0.2.9"), Ordering::Greater);
    assert_eq!(version_cmp("0.2.9", "1.0.0"), Ordering::Less);
    // equal exactly when the triples are equal
    assert_eq!(version_cmp("1.0", "v1.0.0"), Ordering::Equal);
    assert_eq!(version_cmp("1.0.0-rc.1", "1.0.0"), Ordering::Equal);
    // a leading v is ignored
    assert_eq!(parse_version("v0.3.0"), parse_version("0.3.0"));
}

// ----------------------------------------------------------------------------------------
// text
// ----------------------------------------------------------------------------------------

#[test]
fn text_helpers_exact_values() {
    assert_eq!(decimal_string(0), "0");
    assert_eq!(decimal_string(18446744073709551615), "18446744073709551615");
    assert_eq!(pad_left_exec("Ok", 12), "          Ok");
    assert_eq!(pad_left_exec("Compressing!", 3), "Compressing!");
}

#[test]
fn short_counts_characters() {
    assert_eq!(short("ééééééééé"), "ééééééé");
    assert_eq!(short("12345678"), "1234567");
    assert_eq!(short("1234567"), "1234567");
}

// ----------------------------------------------------------------------------------------
// git output
// ----------------------------------------------------------------------------------------

#[test]
fn head_commit_is_trimmed() {
    assert_eq!(head_commit("  a1b2c3\n"), "a1b2c3");
    assert_eq!(head_commit("\n"), "");
}

#[test]
fn porcelain_status_reads_commit_and_changes() {
    let clean = "# branch.oid 0123abcd\n# branch.head main\n";
    let r = parse_porcelain_status(clean).unwrap();
    assert_eq!(r.0, "0123abcd");
    assert!(!r.1);

    let dirty = "# branch.oid 0123abcd \r\n# branch.head main\r\n1 .M N... 100644 100644 100644 a b src/x.odin\r\n";
    let r = parse_porcelain_status(dirty).unwrap();
    assert_eq!(r.0, "0123abcd");
    assert!(r.1);

    assert!(parse_porcelain_status("# branch.head main\n").is_none());
    assert!(parse_porcelain_status("").is_none());
}

// ----------------------------------------------------------------------------------------
// status
// ----------------------------------------------------------------------------------------

#[test]
fn status_reports_each_dependency() {
    let deps = vec![
        dep("math", "https://github.com/a/math", "a1b2c3d4e5f6"),
        dep("json", "https://github.com/a/json", "f4e5d6c7b8a9"),
        dep("gone", "https://github.com/a/gone", "000000000000"),
        dep("bad", "https://github.com/a/bad", "111111111111"),
    ];
    let observed = vec![
        HeadObservation::At("a1b2c3d4e5f6".to_string()),
        HeadObservation::At("9a8b7c6d5e4f".to_string()),
        HeadObservation::Missing,
        HeadObservation::Unreadable("boom".to_string()),
    ];
    let report = cmd_status(&deps, &observed);
    assert!(!report.all_ok);
    let lines: Vec<(String, String, String)> = report
        .lines
        .iter()
        .map(|l| (l.label.clone(), l.style.clone(), l.message.clone()))
        .collect();
    assert_eq!(
        lines,
        vec![
            ("Ok".to_string(), "success".to_string(), "'math' at a1b2c3d".to_string()),
            (
                "Modified".to_string(),
                "error".to_string(),
                "'json': expected f4e5d6c but found 9a8b7c6".to_string()
            ),
            ("Missing".to_string(), "error".to_string(), "'gone'".to_string()),
            ("Error".to_string(), "error".to_string(), "'bad': boom".to_string()),
        ]
    );
}

#[test]
fn status_all_ok_and_empty() {
    let deps = vec![dep("math", "u", "c1")];
    let report = cmd_status(&deps, &[HeadObservation::At("c1".to_string())]);
    assert!(report.all_ok);
    let empty = cmd_status(&[], &[]);
    assert!(empty.all_ok);
    assert_eq!(empty.lines.len(), 1);
    assert_eq!(empty.lines[0].message, "no dependencies");
    assert_eq!(render_status(&empty.lines[0]), "[info]      Status[/] no dependencies");
}

#[test]
fn status_line_markup_and_update_line() {
    let l = status_line("Synced", "done", "'math'".to_string());
    assert_eq!(render_status(&l), "[done]      Synced[/] 'math'");
    let long = status_line("AVeryLongLabel", "warn", "m".to_string());
    assert_eq!(render_status(&long), "[warn]AVeryLongLabel[/] m");
    let u = updated_line("math", "0123456789abcdef");
    assert_eq!(u.label, "Updated");
    assert_eq!(u.message, "'math' \u{2192} 0123456");
}

// ----------------------------------------------------------------------------------------
// sync
// ----------------------------------------------------------------------------------------

fn present(head: &str, dirty: bool) -> SyncObservation {
    SyncObservation::Present {
        head: head.to_string(),
        dirty,
    }
}

#[test]
fn sync_states() {
    let d = dep("math", "u", "c1");
    assert!(matches!(sync_state(&d, &SyncObservation::Absent, false), DepState::Missing));
    assert!(matches!(sync_state(&d, &present("c1", false), false), DepState::Pinned));
    assert!(matches!(sync_state(&d, &present("c1", false), true), DepState::Pinned));
    assert!(matches!(sync_state(&d, &present("c1", true), false), DepState::Dirty));
    assert!(matches!(sync_state(&d, &present("c1", true), true), DepState::Missing));
    assert!(matches!(sync_state(&d, &present("c2", false), true), DepState::Missing));
    match sync_state(&d, &present("c2", false), false) {
        DepState::Modified { actual } => assert_eq!(actual, "c2"),
        _ => panic!("expected a modified state"),
    }
}

#[test]
fn force_never_blocks_example() {
    let d = dep("math", "u", "c1");
    for obs in [present("c2", true), present("c1", true), present("c2", false)] {
        let s = sync_state(&d, &obs, true);
        assert!(matches!(s, DepState::Missing | DepState::Pinned));
    }
}

#[test]
fn skip_list() {
    let skip = vec!["math".to_string(), "json".to_string()];
    assert!(is_skipped(&skip, "json"));
    assert!(!is_skipped(&skip, "JSON"));
    assert!(!is_skipped(&[], "math"));
}

#[test]
fn conflicts_list_modified_then_dirty() {
    let entries = vec![
        SyncEntry {
            dep: dep("a", "u", "aaaaaaaaaa"),
            state: DepState::Dirty,
        },
        SyncEntry {
            dep: dep("b", "u", "bbbbbbbbbb"),
            state: DepState::Modified {
                actual: "cccccccccc".to_string(),
            },
        },
        SyncEntry {
            dep: dep("c", "u", "c"),
            state: DepState::Pinned,
        },
    ];
    let lines = conflict_report(&entries).unwrap();
    assert_eq!(
        lines,
        vec![
            "[error]       Error[/] some deps have local changes:".to_string(),
            "[error]       Error[/] 'b': expected 'bbbbbbb' but found 'ccccccc'".to_string(),
            "[error]       Error[/] 'a': has uncommitted local changes".to_string(),
        ]
    );
    let fine = vec![SyncEntry {
        dep: dep("c", "u", "c"),
        state: DepState::Missing,
    }];
    assert!(conflict_report(&fine).is_none());
}

#[test]
fn restore_plans() {
    assert!(matches!(restore_plan(false, false), RestorePlan::Clone));
    assert!(matches!(restore_plan(false, true), RestorePlan::Clone));
    assert!(matches!(restore_plan(true, true), RestorePlan::Unshallow));
    assert!(matches!(restore_plan(true, false), RestorePlan::Fetch));
}

#[test]
fn sync_and_update_small_decisions() {
    assert_eq!(sync_finished_line(true).message, "sync complete (some dependencies were skipped)");
    assert_eq!(sync_finished_line(false).message, "all dependencies up to date");
    assert_eq!(update_fetch_args(true), vec!["fetch", "origin", "--quiet", "--unshallow"]);
    assert_eq!(update_fetch_args(false), vec!["fetch", "origin", "--quiet"]);
}

// ----------------------------------------------------------------------------------------
// get
// ----------------------------------------------------------------------------------------

fn target(source: &str, name: Option<&str>, platform: &str) -> (String, String) {
    match resolve_get(source, name, platform) {
        Ok(t) => (t.source, t.name),
        Err(_) => panic!("expected a target"),
    }
}

#[test]
fn get_shorthands_and_urls() {
    assert_eq!(
        target("odin-community/math", None, "github"),
        ("https://github.com/odin-community/math".to_string(), "math".to_string())
    );
    // the platform is matched without regard to case
    assert_eq!(
        target("bergberg/mathberg", None, "CodeBerg"),
        ("https://codeberg.org/bergberg/mathberg".to_string(), "mathberg".to_string())
    );
    assert_eq!(
        target("u/r", None, "sr.ht"),
        ("https://git.sr.ht/u/r".to_string(), "r".to_string())
    );
    assert_eq!(
        target("https://github.com/odin-community/math.git", None, "nonsense"),
        ("https://github.com/odin-community/math.git".to_string(), "math".to_string())
    );
    assert_eq!(
        target("https://example.com/a/lib///", None, "github"),
        ("https://example.com/a/lib///".to_string(), "lib".to_string())
    );
    assert_eq!(
        target("odin-community/math", Some("mymath.git"), "github"),
        ("https://github.com/odin-community/math".to_string(), "mymath.git".to_string())
    );
    assert_eq!(
        target("git@host:a/b.git", None, "github"),
        ("https://github.com/git@host:a/b.git".to_string(), "b".to_string())
    );
}

#[test]
fn get_errors() {
    assert!(matches!(
        resolve_get("./lib", None, "github"),
        Err(GetError::LocalPath { .. })
    ));
    assert!(matches!(
        resolve_get("C:\\libs\\math", None, "github"),
        Err(GetError::LocalPath { .. })
    ));
    assert!(matches!(
        resolve_get("file:///tmp/x", None, "github"),
        Err(GetError::LocalPath { .. })
    ));
    assert!(matches!(
        resolve_get("u/r", None, "Gitea"),
        Err(GetError::GiteaShorthand)
    ));
    match resolve_get("u/r", None, "MyForge") {
        Err(GetError::UnknownPlatform { platform, source }) => {
            assert_eq!(platform, "myforge");
            assert_eq!(source, "u/r");
        }
        _ => panic!("expected an unknown platform"),
    }
    match resolve_get_with("https://h/x", Some(""), "github") {
        Err(GetError::NoName { source }) => assert_eq!(source, "https://h/x"),
        _ => panic!("expected no name"),
    }
}

#[test]
fn local_paths() {
    for p in ["/abs", "./rel", "../up", "~/home", ".\\win", "..\\win", "file://x", "d:/x"] {
        assert!(is_local_path(p), "{p}");
    }
    for p in ["u/r", "https://x/y", "1:/x", "ab", "d:x"] {
        assert!(!is_local_path(p), "{p}");
    }
}

#[test]
fn clone_options() {
    let extra = vec!["--filter=blob:none".to_string()];
    assert_eq!(
        clone_option_args(Some(1), &extra),
        vec!["--depth".to_string(), "1".to_string(), "--filter=blob:none".to_string()]
    );
    assert_eq!(clone_option_args(None, &[]), Vec::<String>::new());
}

// ----------------------------------------------------------------------------------------
// lockfile
// ----------------------------------------------------------------------------------------

#[test]
fn lockfile_add_plan() {
    let mut l = Lockfile::empty();
    assert!(matches!(l.plan_add("https://a/math", "math"), AddPlan::Add));
    l.push_dep(dep("math", "https://a/math", "c1"));
    assert!(matches!(l.plan_add("https://a/math", "other"), AddPlan::AlreadyPresent));
    assert!(matches!(l.plan_add("https://b/math", "math"), AddPlan::NameTaken));
    assert!(matches!(l.plan_add("https://b/math", "bmath"), AddPlan::Add));
    assert!(l.contains_name("math"));
    assert!(l.contains_source("https://a/math"));
    assert!(!l.contains_name("bmath"));
}

#[test]
fn lockfile_remove_only_named() {
    let mut l = Lockfile::empty();
    l.push_dep(dep("a", "ua", "c1"));
    l.push_dep(dep("b", "ub", "c2"));
    l.push_dep(dep("c", "uc", "c3"));
    l.remove_named("b");
    assert_eq!(names(&l), vec!["a".to_string(), "c".to_string()]);
    l.remove_named("zzz");
    assert_eq!(names(&l), vec!["a".to_string(), "c".to_string()]);
    assert_eq!(l.dep[1].commit, "c3");
}

#[test]
fn lockfile_repin_only_named() {
    let mut l = Lockfile::empty();
    l.push_dep(dep("a", "ua", "c1"));
    l.push_dep(dep("b", "ub", "c2"));
    l.repin("b", "new");
    assert_eq!(l.dep[0].commit, "c1");
    assert_eq!(l.dep[1].commit, "new");
    assert_eq!(l.dep[1].source, "ub");
    l.repin("zzz", "x");
    assert_eq!(l.dep[0].commit, "c1");
    assert_eq!(l.dep[1].commit, "new");
}

// ----------------------------------------------------------------------------------------
// clone progress
// ----------------------------------------------------------------------------------------

#[test]
fn clone_lines() {
    match classify_clone_line("Receiving objects:  45% (45/100), 1.00 MiB") {
        CloneLine::Progress { stage, pct } => {
            assert!(matches!(stage, CloneStage::Cloning));
            assert_eq!(pct, 45);
        }
        _ => panic!("expected progress"),
    }
    match classify_clone_line("Resolving deltas: +7% (1/14)") {
        CloneLine::Progress { stage, pct } => {
            assert!(matches!(stage, CloneStage::Resolving));
            assert_eq!(pct, 7);
        }
        _ => panic!("expected progress"),
    }
    assert!(matches!(
        classify_clone_line("Resolving deltas: 100% (3/3), done."),
        CloneLine::Done
    ));
    assert!(matches!(
        classify_clone_line("Compressing objects: lots% "),
        CloneLine::Unreadable
    ));
    assert!(matches!(classify_clone_line("Compressing objects"), CloneLine::Unreadable));
    assert!(matches!(
        classify_clone_line("fatal: repository not found"),
        CloneLine::Message
    ));
}

#[test]
fn numbers_as_git_prints_them() {
    assert_eq!(parse_u64_exec(&['4', '2']), Some(42));
    assert_eq!(parse_u64_exec(&['+', '4']), Some(4));
    assert_eq!(parse_u64_exec(&['+']), None);
    assert_eq!(parse_u64_exec(&[]), None);
    assert_eq!(parse_u64_exec(&['-', '1']), None);
    let max: Vec<char> = "18446744073709551615".chars().collect();
    assert_eq!(parse_u64_exec(&max), Some(u64::MAX));
    let over: Vec<char> = "18446744073709551616".chars().collect();
    assert_eq!(parse_u64_exec(&over), None);
}

#[test]
fn progress_bars() {
    assert_eq!(progress_bar_exec(0), format!(">{}", " ".repeat(16)));
    assert_eq!(progress_bar_exec(50), format!("{}>{}", "=".repeat(7), " ".repeat(8)));
    assert_eq!(progress_bar_exec(99), format!("{}>{}", "=".repeat(14), " ".repeat(1)));
    assert_eq!(progress_bar_exec(100), "=".repeat(16));
    assert_eq!(progress_bar_exec(250), "=".repeat(16));
    assert_eq!(
        render_progress(&CloneStage::Cloning, "math", 50),
        format!(
            "\r[load]     Cloning[/] 'math' [[{}>{}]]  50% \r",
            "=".repeat(7),
            " ".repeat(8)
        )
    );
}

#[test]
fn failure_lines_trimmed() {
    let kept = vec![
        "fatal: not found\n".to_string(),
        "   ".to_string(),
        "remote: x".to_string(),
    ];
    assert_eq!(
        clone_failure_lines(&kept),
        vec!["fatal: not found".to_string(), "remote: x".to_string()]
    );
}

// ----------------------------------------------------------------------------------------
// update-self
// ----------------------------------------------------------------------------------------

#[test]
fn update_flags() {
    assert!(matches!(update_channel(true, true, true), Err(FlagConflict::PreReleaseNightly)));
    assert!(matches!(
        update_channel(true, false, true),
        Err(FlagConflict::PreReleaseForceStable)
    ));
    assert!(matches!(
        update_channel(false, true, true),
        Err(FlagConflict::NightlyForceStable)
    ));
    assert!(matches!(update_channel(true, false, false), Ok(Channel::PreRelease)));
    assert!(matches!(update_channel(false, true, false), Ok(Channel::Nightly)));
    assert!(matches!(
        update_channel(false, false, true),
        Ok(Channel::Stable { force_stable: true })
    ));
}

#[test]
fn release_assets() {
    assert_eq!(binary_name("linux", "x86_64"), Some("odyn-linux-x86_64"));
    assert_eq!(binary_name("linux", "powerpc64"), Some("odyn-linux-powerpc64le"));
    assert_eq!(binary_name("windows", "x86"), Some("odyn-windows-i686.exe"));
    assert_eq!(binary_name("android", "arm"), Some("odyn-android-armv7"));
    assert_eq!(binary_name("netbsd", "aarch64"), None);
    assert_eq!(binary_name("solaris", "sparc64"), None);
    assert_eq!(sums_filename("linux"), "SHA256SUMS");
    assert_eq!(sums_filename("windows"), "SHA256SUMS");
    assert_eq!(sums_filename("macos"), "SHA256SUMS-github");
    assert_eq!(
        release_asset_url("0.3.0", "odyn-linux-x86_64"),
        "https://codeberg.org/razkar/odyn/releases/download/v0.3.0/odyn-linux-x86_64"
    );
}

#[test]
fn release_tags() {
    let latest = r#"{"id":7,"tag_name": "v0.2.0","name":"x"}"#;
    assert_eq!(latest_stable_version(latest), Some("0.2.0".to_string()));
    assert_eq!(latest_stable_version(r#"{"tag_name":7}"#), None);
    assert_eq!(latest_stable_version("{}"), None);
    let list = r#"[{"tag_name":null},{"tag_name":	"vv0.3.0-rc1"},{"tag_name":"v0.2.0"}]"#;
    assert_eq!(latest_prerelease_version(list), Some("0.3.0-rc1".to_string()));
    assert_eq!(latest_prerelease_version(r#"[{"tag_name":null}]"#), None);
}

#[test]
fn nightly_commits() {
    let body = r#"{"name":"main","commit":{"id": "0123456789abcdef0123","message":"m"}}"#;
    assert!(nightly_commit_fits(body));
    assert_eq!(nightly_commit(body), Some("01234567".to_string()));
    assert!(nightly_commit_fits("{}"));
    assert_eq!(nightly_commit("{}"), None);
    assert!(!nightly_commit_fits(r#"{"id":"abc"}"#));
}

#[test]
fn update_decisions() {
    assert!(matches!(update_decision("0.3.0", "0.3.0", false, false), UpdateDecision::UpToDate));
    assert!(matches!(update_decision("0.3.0", "0.2.0", false, false), UpdateDecision::LocalNewer));
    assert!(matches!(update_decision("0.3.0", "0.2.0", false, true), UpdateDecision::Install));
    assert!(matches!(update_decision("0.3.0", "0.2.0", true, false), UpdateDecision::LocalNewer));
    assert!(matches!(update_decision("0.3.0", "0.4.0-rc1", true, false), UpdateDecision::Install));
    assert!(matches!(update_decision("0.3.0", "0.4.0", false, false), UpdateDecision::Install));
    // different text, same version: installed
    assert!(matches!(update_decision("0.3.0", "0.3", false, false), UpdateDecision::Install));
}

#[test]
fn checksums() {
    assert_eq!(to_hex_lower(&[0x00, 0x0f, 0xa0, 0xff]), "000fa0ff");
    let sums = "aaaa  odyn-linux-x86_64\nbbbb  odyn-windows-x86_64.exe\n";
    assert_eq!(find_published_hash(sums, "odyn-windows-x86_64.exe"), Some("bbbb".to_string()));
    assert_eq!(find_published_hash(sums, "odyn-macos-aarch64"), None);
    assert!(checksum_verdict("000fa0ff  f\n", "f", &[0x00, 0x0f, 0xa0, 0xff]).is_ok());
    match checksum_verdict("0000  f\n", "f", &[0x01]) {
        Err(ChecksumError::Mismatch { expected, actual }) => {
            assert_eq!(expected, "0000");
            assert_eq!(actual, "01");
        }
        _ => panic!("expected a mismatch"),
    }
    assert!(matches!(checksum_verdict("", "f", &[]), Err(ChecksumError::MissingHash)));
}

#[test]
fn sha256_of_downloads() {
    let abc = "ba7816bf8f01cfea414140de5dae2223b00361a396177a9cb410ff61f20015ad";
    let sums = format!("{abc}  odyn-linux-x86_64\n");
    assert!(verify_download(&sums, "odyn-linux-x86_64", b"abc").is_ok());
    match verify_download(&sums, "odyn-linux-x86_64", b"abd") {
        Err(ChecksumError::Mismatch { expected, .. }) => assert_eq!(expected, abc),
        _ => panic!("expected a mismatch"),
    }
}

// ----------------------------------------------------------------------------------------
// init
// ----------------------------------------------------------------------------------------

#[test]
fn init_files() {
    assert_eq!(gen_readme("myproject"), "# myproject\n");
    let main = odyn::project::gen_main_odin("demo");
    assert!(main.starts_with("package main\n"));
    assert!(main.contains("fmt.println(\"Hellope, demo!\")"));
    assert!(matches!(license_file("MIT"), LicenseFile::Known(License::Mit)));
    assert!(matches!(license_file("Apache"), LicenseFile::Known(License::Apache)));
    assert!(matches!(license_file_with("isc", "ISC"), LicenseFile::Known(License::Isc)));
    match license_file("WTFPL") {
        LicenseFile::Custom(t) => assert_eq!(t, "License: WTFPL\n"),
        _ => panic!("expected a custom license"),
    }
}

#[test]
fn init_layouts() {
    let full = project_layout(true, false);
    assert_eq!(full.len(), 6);
    assert!(matches!(full[1], ProjectItem::MainOdin { in_src: true }));
    assert!(matches!(full[2], ProjectItem::Readme));
    let flat = project_layout(false, true);
    assert_eq!(flat.len(), 5);
    assert!(matches!(flat[0], ProjectItem::DepsDir));
    assert!(matches!(flat[1], ProjectItem::MainOdin { in_src: false }));
    assert!(matches!(flat[4], ProjectItem::LicenseFile));
}

#[test]
fn migrate_checks() {
    assert!(matches!(migrate_precheck(true, true), Err(MigrateError::DepsDirExists)));
    assert!(matches!(migrate_precheck(false, true), Err(MigrateError::LockfileExists)));
    assert!(migrate_precheck(false, false).is_ok());
    assert!(matches!(ols_migration_check(&None), Err(MigrateError::NoCollections)));
    let with_deps = Some(vec![Some("core".to_string()), None, Some("deps".to_string())]);
    assert!(matches!(
        ols_migration_check(&with_deps),
        Err(MigrateError::DepsCollectionExists)
    ));
    let without = Some(vec![Some("core".to_string()), None]);
    assert!(ols_migration_check(&without).is_ok());
}

#[test]
fn migrate_ols_appends_deps_collection() {
    let text = r#"{"collections": [{"name": "core", "path": "/odin/core"}], "enable_format": true}"#;
    let out = match migrate_ols(text) {
        Ok(s) => s,
        Err(_) => panic!("expected a migrated ols.json"),
    };
    let v: serde_json::Value = serde_json::from_str(&out).unwrap();
    let cols = v["collections"].as_array().unwrap();
    assert_eq!(cols.len(), 2);
    assert_eq!(cols[0]["name"], "core");
    assert_eq!(cols[1]["name"], "deps");
    assert_eq!(cols[1]["path"], "odyn_deps");
    assert_eq!(v["enable_format"], true);
    assert!(out.contains('\n'));
}

#[test]
fn migrate_ols_errors() {
    match migrate_ols("{ not json") {
        Err(MigrateError::ParseFailed { message }) => assert!(!message.is_empty()),
        _ => panic!("expected a parse failure"),
    }
    assert!(matches!(migrate_ols(r#"{"enable_format": true}"#), Err(MigrateError::NoCollections)));
    assert!(matches!(migrate_ols(r#"{"collections": 3}"#), Err(MigrateError::NoCollections)));
    assert!(matches!(migrate_ols("[1, 2]"), Err(MigrateError::NoCollections)));
    assert!(matches!(
        migrate_ols(r#"{"collections": [{"name": "deps", "path": "x"}]}"#),
        Err(MigrateError::DepsCollectionExists)
    ));
    assert!(migrate_ols(r#"{"collections": []}"#).is_ok());
}

// ----------------------------------------------------------------------------------------
// commands and banner
// ----------------------------------------------------------------------------------------

#[test]
fn run_announcements() {
    let get = Command::Get {
        source: "u/r".to_string(),
        name: None,
        platform: "github".to_string(),
        commit: None,
        depth: None,
        extra_args: vec![],
    };
    let step = run(&get).ok().unwrap();
    assert_eq!(step.before.unwrap().message, "'u/r'");
    assert_eq!(step.after.unwrap().message, "dependency added");

    let init = Command::Init {
        project_name: Some("demo".to_string()),
        license: "mit".to_string(),
        with_readme: false,
        no_src: false,
        migrate: false,
    };
    let step = run(&init).ok().unwrap();
    assert_eq!(step.before.unwrap().message, "odin project 'demo'");
    assert_eq!(step.after.unwrap().message, "'demo'");
    assert_eq!(step.project_name, Some("demo".to_string()));

    let migrate = Command::Init {
        project_name: None,
        license: "mit".to_string(),
        with_readme: false,
        no_src: false,
        migrate: true,
    };
    let step = run(&migrate).ok().unwrap();
    assert_eq!(step.before.unwrap().label, "Migrating");
    assert_eq!(step.project_name, Some(String::new()));

    let nameless = Command::Init {
        project_name: None,
        license: "mit".to_string(),
        with_readme: false,
        no_src: false,
        migrate: false,
    };
    assert!(matches!(run(&nameless), Err(RunError::ProjectNameRequired)));

    let status = run(&Command::Status).ok().unwrap();
    assert!(status.before.is_none() && status.after.is_none());
    let remove = run(&Command::Remove { name: "m".to_string() }).ok().unwrap();
    assert_eq!(remove.before.unwrap().label, "Removing");
}

#[test]
fn entry_actions() {
    assert!(matches!(
        entry_action(true, true, false),
        EntryAction::ShowVersion { verbose: true }
    ));
    assert!(matches!(entry_action(false, true, false), EntryAction::VerboseWithoutVersion));
    assert!(matches!(entry_action(false, true, true), EntryAction::RunCommand));
    assert!(matches!(entry_action(false, false, false), EntryAction::RunCommand));
}

#[test]
fn version_banners() {
    assert_eq!(
        version_banner("release", None, "linux", "x86_64", "0.3.0"),
        "[bold blue]Odyn[/blue] v0.3.0 [yellow]Linux[/yellow] x86_64"
    );
    assert_eq!(
        version_banner("cargo", None, "windows", "x86", "0.3.0"),
        "[bold blue]Odyn[/blue] v0.3.0 [ansi(173)]Cargo Edition | [blue]Windows[/blue] x86"
    );
    assert_eq!(
        version_banner("source", Some("abc1234"), "plan9", "mips", "0.3.0"),
        "[bold blue]Odyn[/blue] v0.3.0 [ansi(62)]Nightly[/ansi(62)], commit abc1234 | plan9 mips"
    );
    assert_eq!(
        version_banner("other", None, "macos", "aarch64", "1.0.0"),
        "[bold blue]Odyn[/blue] v1.0.0  | [ansi(250)]macOS[/ansi(250)] aarch64"
    );
    assert_eq!(
        git_version_line(Some("git version 2.49.0\n")),
        "    [ansi(214)]git version 2.49.0[/ansi(214)][/bold]"
    );
    assert_eq!(
        git_version_line(None),
        "    [bright-red]Git Not Installed[/bright-red]"
    );
    let (a, b) = verbose_lines("/usr/local/bin/odyn", "2026-04-02");
    assert_eq!(a, "    [dim]installed at /usr/local/bin/odyn[/dim]");
    assert_eq!(b, "    [dim]built on 2026-04-02[/dim]");
}

// ----------------------------------------------------------------------------------------
// sync, step by step
// ----------------------------------------------------------------------------------------

fn line_triples(lines: &[odyn::report::StatusLine]) -> Vec<(String, String, String)> {
    lines.iter().map(|l| (l.label.clone(), l.style.clone(), l.message.clone())).collect()
}

fn expect_run(a: SyncAction) -> (Vec<(String, String, String)>, Vec<String>, bool, RestoreStep) {
    match a {
        SyncAction::Run { lines, args, in_checkout, step } => (line_triples(&lines), args, in_checkout, step),
        _ => panic!("expected a git command"),
    }
}

#[test]
fn sync_empty_lockfile_stops() {
    let l = nothing_to_sync(&Lockfile::empty()).unwrap();
    assert_eq!((l.label.as_str(), l.style.as_str(), l.message.as_str()), ("Sync", "info", "no dependencies to sync"));
    let mut lf = Lockfile::empty();
    lf.dep.push(dep("math", "https://h/math", "c1"));
    assert!(nothing_to_sync(&lf).is_none());
}

#[test]
fn sync_pinned_is_verified() {
    let d = dep("math", "https://h/math", "c1");
    match sync_start(&d, &DepState::Pinned, true, false) {
        SyncAction::Done { lines } => assert_eq!(
            line_triples(&lines),
            vec![("Verified".to_string(), "info".to_string(), "'math'".to_string())]
        ),
        _ => panic!("expected done"),
    }
}

#[test]
fn sync_clone_then_reset() {
    let d = dep("math", "https://h/math", "c1");
    let (lines, args, in_checkout, step) = expect_run(sync_start(&d, &DepState::Missing, false, false));
    assert_eq!(lines, vec![("Syncing".to_string(), "load".to_string(), "'math', cloning...".to_string())]);
    assert_eq!(args, vec!["clone", "https://h/math", "odyn_deps/math"]);
    assert!(!in_checkout);
    assert!(matches!(step, RestoreStep::Clone));
    let (lines, args, in_checkout, step) = expect_run(sync_next(&d, step, GitOutcome::Succeeded));
    assert!(lines.is_empty());
    assert_eq!(args, vec!["reset", "--hard", "c1"]);
    assert!(in_checkout);
    match sync_next(&d, step, GitOutcome::Succeeded) {
        SyncAction::Done { lines } => assert_eq!(
            line_triples(&lines),
            vec![("Synced".to_string(), "done".to_string(), "'math'".to_string())]
        ),
        _ => panic!("expected done"),
    }
    match sync_next(&d, RestoreStep::Clone, GitOutcome::Failed) {
        SyncAction::Fail { message } => assert_eq!(message, "failed to clone 'math'"),
        _ => panic!("expected a failure"),
    }
    match sync_next(&d, RestoreStep::Reset, GitOutcome::NotRun { message: "no git".to_string() }) {
        SyncAction::Fail { message } => assert_eq!(message, "no git"),
        _ => panic!("expected a failure"),
    }
}

#[test]
fn sync_unshallow_falls_back_to_pinned_fetch() {
    let d = dep("math", "https://h/math", "c1");
    let (lines, args, _, step) = expect_run(sync_start(&d, &DepState::Missing, true, true));
    assert_eq!(lines[0].2, "'math' with full history...");
    assert_eq!(args, vec!["fetch", "origin", "--quiet", "--unshallow"]);
    let (lines, args, _, step) = expect_run(sync_next(&d, step, GitOutcome::Failed));
    assert_eq!(
        lines,
        vec![(
            "Hint".to_string(),
            "info".to_string(),
            "unshallow failed for 'math', trying shallow fetch of pinned commit".to_string()
        )]
    );
    assert_eq!(args, vec!["fetch", "origin", "c1", "--quiet"]);
    assert!(matches!(step, RestoreStep::FetchPinned));
    let (lines, args, _, step) = expect_run(sync_next(&d, step, GitOutcome::Failed));
    assert_eq!(lines, vec![("Resetting".to_string(), "load".to_string(), "'math' to pinned commit...".to_string())]);
    assert_eq!(args, vec!["reset", "--hard", "c1"]);
    assert!(matches!(step, RestoreStep::Reset));
    match sync_next(&d, RestoreStep::Reset, GitOutcome::Failed) {
        SyncAction::Fail { message } => assert_eq!(message, "failed to reset 'math' to pinned commit"),
        _ => panic!("expected a failure"),
    }
}

#[test]
fn sync_fetch_failure_stops() {
    let d = dep("math", "https://h/math", "c1");
    let (lines, args, _, step) = expect_run(sync_start(&d, &DepState::Missing, true, false));
    assert_eq!(lines[0].2, "'math' before reset...");
    assert_eq!(args, vec!["fetch", "origin", "--quiet"]);
    match sync_next(&d, step, GitOutcome::Failed) {
        SyncAction::Fail { message } => assert_eq!(message, "failed to fetch 'math' before reset"),
        _ => panic!("expected a failure"),
    }
}

#[test]
fn version_round_trip_examples() {
    for (x, y, z) in [(0u32, 0u32, 0u32), (1, 2, 3), (10, 200, 3000), (u32::MAX, 7, u32::MAX)] {
        assert_eq!(parse_version(&format!("{x}.{y}.{z}")), (x, y, z));
        assert_eq!(parse_version(&format!("v{x}.{y}.{z}")), (x, y, z));
    }
}

#[test]
fn get_cleanup_removes_only_a_made_clone() {
    let c = get_cleanup(GetFailure::Clone);
    assert!(!c.remove_clone);
    assert_eq!(c.message, "git clone failed");
    let c = get_cleanup(GetFailure::NotRun { error: "no git".to_string() });
    assert!(!c.remove_clone);
    assert_eq!(c.message, "no git");
    let c = get_cleanup(GetFailure::Checkout { commit: "a1b2c69".to_string() });
    assert!(c.remove_clone);
    assert_eq!(c.message, "failed to checkout commit 'a1b2c69'. maybe it was a typo? (partial clone removed)");
    let c = get_cleanup(GetFailure::HeadAfterCheckout { error: "bad".to_string() });
    assert!(c.remove_clone);
    assert_eq!(c.message, "failed to resolve HEAD after checkout: bad");
    let c = get_cleanup(GetFailure::Head { error: "bad".to_string() });
    assert!(c.remove_clone);
    assert_eq!(c.message, "failed to read HEAD commit: bad");
    let c = get_cleanup(GetFailure::Save { error: "disk full".to_string() });
    assert!(c.remove_clone);
    assert_eq!(c.message, "failed to save lockfile (partial clone removed): disk full");
}

//! The commands of the tool, what each one announces before and after it runs, and the
//! version banner.
use vstd::prelude::*;

use crate::report::{line, quote, quoted, status_line, LineView, StatusLine};
use crate::text::{chars_of, decimal, decimal_string, push_str, same_text, string_of, trim, trim_chars};

verus! {

/// A command given on the command line.
pub enum Command {
    /// `odyn get <source> [name] [--platform] [--commit] [--depth] [-- <args>]`.
    Get {
        source: String,
        name: Option<String>,
        platform: String,
        commit: Option<String>,
        depth: Option<u32>,
        extra_args: Vec<String>,
    },
    /// `odyn init [name] [--license] [--with-readme] [--no-src] [--migrate]`.
    Init {
        project_name: Option<String>,
        license: String,
        with_readme: bool,
        no_src: bool,
        migrate: bool,
    },
    /// `odyn sync [--force] [--skip <name>]...`.
    Sync { force: bool, skip: Vec<String> },
    /// `odyn remove <name>`.
    Remove { name: String },
    /// `odyn update <name>`.
    Update { name: String },
    /// `odyn status`.
    Status,
    /// `odyn update-self [--pre-release] [--nightly] [--commit] [--force-stable]`.
    UpdateSelf { pre_release: bool, nightly: bool, commit: Option<String>, force_stable: bool },
    /// `odyn version [--verbose]`.
    Version { verbose: bool },
}

/// What the tool prints around a command, and the project name `init` works on.
pub struct RunStep {
    /// The status line printed before the command runs.
    pub before: Option<StatusLine>,
    /// The status line printed after it succeeds.
    pub after: Option<StatusLine>,
    /// For `init`: the project name (empty with `--migrate` and no name).
    pub project_name: Option<String>,
}

/// Why a command is refused before it runs.
pub enum RunError {
    /// `init` without a project name and without `--migrate`.
    ProjectNameRequired,
}

/// The optional line views.
pub open spec fn opt_line(o: Option<StatusLine>) -> Option<LineView> {
    match o {
        Some(l) => Some(l@),
        None => None,
    }
}

/// The line announced before a command.
pub open spec fn before_line(c: Command) -> Option<LineView> {
    match c {
        Command::Get { source, .. } => Some(line("Getting"@, "load"@, quoted(source@))),
        Command::Init { project_name, migrate, .. } => if migrate {
            Some(line("Migrating"@, "load"@, "current project"@))
        } else {
            Some(line("Creating"@, "load"@, "odin project "@ + quoted(init_name(project_name))))
        },
        Command::Remove { name } => Some(line("Removing"@, "load"@, quoted(name@))),
        _ => None,
    }
}

/// The line announced after a command succeeds.
pub open spec fn after_line(c: Command) -> Option<LineView> {
    match c {
        Command::Get { .. } => Some(line("Done"@, "success"@, "dependency added"@)),
        Command::Init { project_name, migrate, .. } => if migrate {
            Some(line("Migrated"@, "success"@, "project to Odyn"@))
        } else {
            Some(line("Created"@, "success"@, quoted(init_name(project_name))))
        },
        Command::Remove { .. } => Some(line("Removed"@, "success"@, "dependency removed"@)),
        _ => None,
    }
}

/// The project name `init` uses: the given one, or empty.
pub open spec fn init_name(n: Option<String>) -> Seq<char> {
    match n {
        Some(s) => s@,
        None => Seq::empty(),
    }
}

/// `init` is refused when it has neither a project name nor `--migrate`.
pub open spec fn refused(c: Command) -> bool {
    c matches Command::Init { project_name, migrate, .. } && !migrate && project_name is None
}

/// Checks a command and says what to print around it.
pub fn run(command: &Command) -> (r: Result<RunStep, RunError>)
    ensures
        refused(*command) <==> r is Err,
        r matches Ok(step) ==> opt_line(step.before) == before_line(*command) && opt_line(
            step.after,
        ) == after_line(*command),
        r matches Ok(step) ==> (command is Init <==> step.project_name is Some),
        r matches Ok(step) ==> (command matches Command::Init { project_name, .. } ==> (
        step.project_name matches Some(n) && n@ == init_name(*project_name))),
{
    match command {
        Command::Get { source, .. } => Ok(
            RunStep {
                before: Some(status_line("Getting", "load", quote(source.as_str()))),
                after: Some(status_line("Done", "success", "dependency added".to_owned())),
                project_name: None,
            },
        ),
        Command::Init { project_name, migrate, .. } => {
            if !*migrate && project_name.is_none() {
                return Err(RunError::ProjectNameRequired);
            }
            let name: String = match project_name {
                Some(n) => n.clone(),
                None => String::new(),
            };
            if *migrate {
                Ok(
                    RunStep {
                        before: Some(
                            status_line("Migrating", "load", "current project".to_owned()),
                        ),
                        after: Some(status_line("Migrated", "success", "project to Odyn".to_owned())),
                        project_name: Some(name),
                    },
                )
            } else {
                let mut m = String::new();
                push_str(&mut m, "odin project ");
                let q = quote(name.as_str());
                push_str(&mut m, q.as_str());
                let q2 = quote(name.as_str());
                Ok(
                    RunStep {
                        before: Some(status_line("Creating", "load", m)),
                        after: Some(status_line("Created", "success", q2)),
                        project_name: Some(name),
                    },
                )
            }
        },
        Command::Remove { name } => Ok(
            RunStep {
                before: Some(status_line("Removing", "load", quote(name.as_str()))),
                after: Some(status_line("Removed", "success", "dependency removed".to_owned())),
                project_name: None,
            },
        ),
        _ => Ok(RunStep { before: None, after: None, project_name: None }),
    }
}

/// What the tool does before looking at the subcommand.
pub enum EntryAction {
    /// `--version`: print the banner.
    ShowVersion { verbose: bool },
    /// `--verbose` alone: refused, since it only makes sense with the version.
    VerboseWithoutVersion,
    /// Run the subcommand.
    RunCommand,
}

/// `--version` wins; `--verbose` without a subcommand is refused; else the subcommand runs.
pub fn entry_action(version: bool, verbose: bool, has_command: bool) -> (r: EntryAction)
    ensures
        version ==> r == (EntryAction::ShowVersion { verbose }),
        !version && verbose && !has_command ==> (r is VerboseWithoutVersion),
        !version && (!verbose || has_command) ==> (r is RunCommand),
{
    if version {
        EntryAction::ShowVersion { verbose }
    } else if verbose && !has_command {
        EntryAction::VerboseWithoutVersion
    } else {
        EntryAction::RunCommand
    }
}

/// The options `git clone` gets before the source and destination: `--depth <n>` for a
/// shallow clone, then the extra arguments as given.
pub open spec fn clone_options(depth: Option<u32>, extra: Seq<Seq<char>>) -> Seq<Seq<char>> {
    match depth {
        Some(n) => seq!["--depth"@, decimal(n as nat)] + extra,
        None => extra,
    }
}

/// The options of the `git clone` that `odyn get` runs.
pub fn clone_option_args(depth: Option<u32>, extra_args: &[String]) -> (r: Vec<String>)
    ensures
        r@.map_values(|s: String| s@) == clone_options(
            depth,
            extra_args@.map_values(|s: String| s@),
        ),
{
    let mut r: Vec<String> = Vec::new();
    if let Some(n) = depth {
        r.push("--depth".to_owned());
        r.push(decimal_string(n as u64));
    }
    let ghost r0 = r@.map_values(|s: String| s@);
    let mut i: usize = 0;
    while i < extra_args.len()
        invariant
            i <= extra_args@.len(),
            r@.map_values(|s: String| s@) == r0 + extra_args@.map_values(|s: String| s@).take(
                i as int,
            ),
        decreases extra_args.len() - i,
    {
        let ghost before = r@;
        r.push(extra_args[i].clone());
        assert(r@.map_values(|s: String| s@) =~= r0 + extra_args@.map_values(|s: String| s@).take(
            i + 1,
        )) by {
            assert(r@.map_values(|s: String| s@) =~= before.map_values(|s: String| s@).push(
                extra_args@[i as int]@,
            ));
        }
        i = i + 1;
    }
    assert(extra_args@.map_values(|s: String| s@).take(extra_args@.len() as int)
        =~= extra_args@.map_values(|s: String| s@));
    proof {
        match depth {
            Some(n) => {
                assert(r0 =~= seq!["--depth"@, decimal(n as nat)]);
            },
            None => {
                assert(r0 =~= Seq::<Seq<char>>::empty());
            },
        }
    }
    r
}

// ---------------------------------------------------------------------------------------------
// The version banner
// ---------------------------------------------------------------------------------------------

/// The coloured name of an operating system (other names are shown as they are).
pub open spec fn os_label(os: Seq<char>) -> Seq<char> {
    if os == "linux"@ {
        "[yellow]Linux[/yellow]"@
    } else if os == "windows"@ {
        "[blue]Windows[/blue]"@
    } else if os == "macos"@ {
        "[ansi(250)]macOS[/ansi(250)]"@
    } else if os == "android"@ {
        "[green]Android[/green]"@
    } else if os == "freebsd"@ {
        "[bright-red]FreeBSD[/bright-red]"@
    } else if os == "netbsd"@ {
        "[ansi(214)]NetBSD[/ansi(214)]"@
    } else {
        os
    }
}

/// The label of the install method: `Cargo Edition`, `Nightly` (with the commit it was
/// built from, when known), the platform of a release binary, or nothing.
pub open spec fn edition_label(
    method: Seq<char>,
    hash: Option<Seq<char>>,
    os: Seq<char>,
    arch: Seq<char>,
) -> Seq<char> {
    if method == "cargo"@ {
        "[ansi(173)]Cargo Edition"@
    } else if method == "source"@ {
        match hash {
            Some(h) => "[ansi(62)]Nightly"@ + "[/ansi(62)], commit "@ + h,
            None => "[ansi(62)]Nightly"@,
        }
    } else if method == "release"@ {
        os_label(os) + " "@ + arch
    } else {
        Seq::empty()
    }
}

/// The first banner line: name, version and install method, then (for anything but a
/// release binary) the platform after a bar.
pub open spec fn banner_line(
    method: Seq<char>,
    hash: Option<Seq<char>>,
    os: Seq<char>,
    arch: Seq<char>,
    version: Seq<char>,
) -> Seq<char> {
    let head = "[bold blue]Odyn[/blue] v"@ + version + " "@ + edition_label(method, hash, os, arch);
    if method == "release"@ {
        head
    } else {
        head + " "@ + "| "@ + os_label(os) + " "@ + arch
    }
}

/// The coloured name of an operating system.
fn os_label_exec(os: &str) -> (r: String)
    ensures
        r@ == os_label(os@),
{
    let label = if same_text(os, "linux") {
        "[yellow]Linux[/yellow]"
    } else if same_text(os, "windows") {
        "[blue]Windows[/blue]"
    } else if same_text(os, "macos") {
        "[ansi(250)]macOS[/ansi(250)]"
    } else if same_text(os, "android") {
        "[green]Android[/green]"
    } else if same_text(os, "freebsd") {
        "[bright-red]FreeBSD[/bright-red]"
    } else if same_text(os, "netbsd") {
        "[ansi(214)]NetBSD[/ansi(214)]"
    } else {
        os
    };
    label.to_owned()
}

/// The first line of the version banner.
pub fn version_banner(method: &str, hash: Option<&str>, os: &str, arch: &str, version: &str) -> (r:
    String)
    ensures
        r@ == banner_line(method@, crate::source::opt_text(hash), os@, arch@, version@),
{
    let mut r = String::new();
    push_str(&mut r, "[bold blue]Odyn[/blue] v");
    push_str(&mut r, version);
    push_str(&mut r, " ");
    if same_text(method, "cargo") {
        push_str(&mut r, "[ansi(173)]Cargo Edition");
    } else if same_text(method, "source") {
        push_str(&mut r, "[ansi(62)]Nightly");
        if let Some(h) = hash {
            push_str(&mut r, "[/ansi(62)], commit ");
            push_str(&mut r, h);
        }
    } else if same_text(method, "release") {
        let l = os_label_exec(os);
        push_str(&mut r, l.as_str());
        push_str(&mut r, " ");
        push_str(&mut r, arch);
    }
    if !same_text(method, "release") {
        push_str(&mut r, " ");
        push_str(&mut r, "| ");
        let l = os_label_exec(os);
        push_str(&mut r, l.as_str());
        push_str(&mut r, " ");
        push_str(&mut r, arch);
    }
    assert(r@ =~= banner_line(method@, crate::source::opt_text(hash), os@, arch@, version@));
    r
}

/// The banner line about git: the output of `git --version` (trimmed) when git ran, else a
/// warning that it is not installed.
pub open spec fn git_line(output: Option<Seq<char>>) -> Seq<char> {
    match output {
        Some(v) => "    [ansi(214)]"@ + trim(v) + "[/ansi(214)][/bold]"@,
        None => "    [bright-red]Git Not Installed[/bright-red]"@,
    }
}

/// The banner line about git.
pub fn git_version_line(output: Option<&str>) -> (r: String)
    ensures
        r@ == git_line(crate::source::opt_text(output)),
{
    match output {
        Some(v) => {
            let cs = chars_of(v);
            let t = trim_chars(&cs);
            let ts = string_of(&t, 0, t.len());
            let mut r = String::new();
            push_str(&mut r, "    [ansi(214)]");
            push_str(&mut r, ts.as_str());
            push_str(&mut r, "[/ansi(214)][/bold]");
            r
        },
        None => "    [bright-red]Git Not Installed[/bright-red]".to_owned(),
    }
}

/// The two lines `--verbose` adds: where the binary is installed and when it was built.
pub fn verbose_lines(install_path: &str, build_date: &str) -> (r: (String, String))
    ensures
        r.0@ == "    [dim]installed at "@ + install_path@ + "[/dim]"@,
        r.1@ == "    [dim]built on "@ + build_date@ + "[/dim]"@,
{
    let mut a = String::new();
    push_str(&mut a, "    [dim]installed at ");
    push_str(&mut a, install_path);
    push_str(&mut a, "[/dim]");
    let mut b = String::new();
    push_str(&mut b, "    [dim]built on ");
    push_str(&mut b, build_date);
    push_str(&mut b, "[/dim]");
    (a, b)
}

} // verus!

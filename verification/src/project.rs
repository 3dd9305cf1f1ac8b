//! What `odyn init` creates: the project layout, the starter program, the README and the
//! license choice; and the checks of `odyn init --migrate`.
use vstd::prelude::*;

use crate::source::{lowercase, to_lower};
use crate::text::{push_str, same_text};

verus! {

/// The starter `main.odin` of a project named `name`.
pub open spec fn main_odin(name: Seq<char>) -> Seq<char> {
    "package main\n\nimport \"core:fmt\"\n\nmain :: proc() {\n\tfmt.println(\"Hellope, "@ + name
        + "!\")\n}\n"@
}

/// The starter `main.odin` of a project named `name`: a program that greets it.
pub fn gen_main_odin(name: &str) -> (r: String)
    ensures
        r@ == main_odin(name@),
{
    let mut r = String::new();
    push_str(&mut r, "package main\n\nimport \"core:fmt\"\n\nmain :: proc() {\n\tfmt.println(\"Hellope, ");
    push_str(&mut r, name);
    push_str(&mut r, "!\")\n}\n");
    r
}

/// The `README.md` stub: the project name as a title.
pub open spec fn readme(name: Seq<char>) -> Seq<char> {
    "# "@ + name + "\n"@
}

/// The `README.md` stub of `--with-readme`.
pub fn gen_readme(name: &str) -> (r: String)
    ensures
        r@ == readme(name@),
{
    let mut r = String::new();
    push_str(&mut r, "# ");
    push_str(&mut r, name);
    push_str(&mut r, "\n");
    r
}

/// The licenses `--license` knows by name.
pub enum License {
    Mit,
    Apache,
    Gpl3,
    Bsd2,
    Bsd3,
    Mpl2,
    Unlicense,
    Zlib,
    Isc,
}

/// The name by which `--license` selects a known license.
pub open spec fn license_id(l: License) -> Seq<char> {
    match l {
        License::Mit => "mit"@,
        License::Apache => "apache"@,
        License::Gpl3 => "gpl3"@,
        License::Bsd2 => "bsd2"@,
        License::Bsd3 => "bsd3"@,
        License::Mpl2 => "mpl2"@,
        License::Unlicense => "unlicense"@,
        License::Zlib => "zlib"@,
        License::Isc => "isc"@,
    }
}

/// What the `LICENSE` file holds.
pub enum LicenseFile {
    /// The text of a known license.
    Known(License),
    /// `License: <name>` for a name that is not known.
    Custom(String),
}

/// The license named by a lower-cased `--license` value, if it is a known one.
pub open spec fn known_license(lowered: Seq<char>) -> Option<License> {
    if lowered == "mit"@ {
        Some(License::Mit)
    } else if lowered == "apache"@ {
        Some(License::Apache)
    } else if lowered == "gpl3"@ {
        Some(License::Gpl3)
    } else if lowered == "bsd2"@ {
        Some(License::Bsd2)
    } else if lowered == "bsd3"@ {
        Some(License::Bsd3)
    } else if lowered == "mpl2"@ {
        Some(License::Mpl2)
    } else if lowered == "unlicense"@ {
        Some(License::Unlicense)
    } else if lowered == "zlib"@ {
        Some(License::Zlib)
    } else if lowered == "isc"@ {
        Some(License::Isc)
    } else {
        None
    }
}

/// The `LICENSE` file for a `--license` value `license`, given also in lower case as
/// `lowered`: a known license when `lowered` names one, else a plain `License: <value>` line
/// with the value as given.
pub fn license_file_with(lowered: &str, license: &str) -> (r: LicenseFile)
    ensures
        known_license(lowered@) matches Some(l) ==> r == LicenseFile::Known(l),
        known_license(lowered@) is None ==> (r matches LicenseFile::Custom(t) && t@
            == "License: "@ + license@ + "\n"@),
        r matches LicenseFile::Known(l) ==> lowered@ == license_id(l),
{
    if same_text(lowered, "mit") {
        LicenseFile::Known(License::Mit)
    } else if same_text(lowered, "apache") {
        LicenseFile::Known(License::Apache)
    } else if same_text(lowered, "gpl3") {
        LicenseFile::Known(License::Gpl3)
    } else if same_text(lowered, "bsd2") {
        LicenseFile::Known(License::Bsd2)
    } else if same_text(lowered, "bsd3") {
        LicenseFile::Known(License::Bsd3)
    } else if same_text(lowered, "mpl2") {
        LicenseFile::Known(License::Mpl2)
    } else if same_text(lowered, "unlicense") {
        LicenseFile::Known(License::Unlicense)
    } else if same_text(lowered, "zlib") {
        LicenseFile::Known(License::Zlib)
    } else if same_text(lowered, "isc") {
        LicenseFile::Known(License::Isc)
    } else {
        let mut t = String::new();
        push_str(&mut t, "License: ");
        push_str(&mut t, license);
        push_str(&mut t, "\n");
        LicenseFile::Custom(t)
    }
}

/// The `LICENSE` file for a `--license` value: known names are matched without regard to
/// case; any other value is written as given.
pub fn license_file(license: &str) -> (r: LicenseFile)
    ensures
        known_license(lowercase(license@)) matches Some(l) ==> r == LicenseFile::Known(l),
        known_license(lowercase(license@)) is None ==> (r matches LicenseFile::Custom(t) && t@
            == "License: "@ + license@ + "\n"@),
        r matches LicenseFile::Known(l) ==> lowercase(license@) == license_id(l),
{
    let lowered = to_lower(license);
    license_file_with(lowered.as_str(), license)
}

/// One item that `odyn init` creates inside the project directory, in creation order.
pub enum ProjectItem {
    /// The `odyn_deps/` directory.
    DepsDir,
    /// `main.odin`, inside `src/` unless `--no-src`.
    MainOdin { in_src: bool },
    /// `README.md`.
    Readme,
    /// `ols.json`, registering `odyn_deps/` as the `deps` collection.
    OlsJson,
    /// The empty `Odyn.lock`.
    Lockfile,
    /// `LICENSE`.
    LicenseFile,
}

/// What `odyn init` creates, in order: `odyn_deps/`, `main.odin` (in `src/` unless
/// `no_src`), `README.md` with `with_readme`, `ols.json`, `Odyn.lock`, `LICENSE`.
pub open spec fn project_items(with_readme: bool, no_src: bool) -> Seq<ProjectItem> {
    seq![ProjectItem::DepsDir, ProjectItem::MainOdin { in_src: !no_src }] + (if with_readme {
        seq![ProjectItem::Readme]
    } else {
        seq![]
    }) + seq![ProjectItem::OlsJson, ProjectItem::Lockfile, ProjectItem::LicenseFile]
}

/// The items `odyn init` creates.
pub fn project_layout(with_readme: bool, no_src: bool) -> (r: Vec<ProjectItem>)
    ensures
        r@ == project_items(with_readme, no_src),
{
    let mut r: Vec<ProjectItem> = Vec::new();
    r.push(ProjectItem::DepsDir);
    r.push(ProjectItem::MainOdin { in_src: !no_src });
    if with_readme {
        r.push(ProjectItem::Readme);
    }
    r.push(ProjectItem::OlsJson);
    r.push(ProjectItem::Lockfile);
    r.push(ProjectItem::LicenseFile);
    assert(r@ =~= project_items(with_readme, no_src));
    r
}

/// Why `odyn init --migrate` stops.
pub enum MigrateError {
    /// `odyn_deps/` exists already.
    DepsDirExists,
    /// `Odyn.lock` exists already.
    LockfileExists,
    /// `ols.json` has no `collections` array.
    NoCollections,
    /// `ols.json` has a collection named `deps` already.
    DepsCollectionExists,
    /// `ols.json` is not JSON; `message` is what the JSON reader said.
    ParseFailed { message: String },
}

/// A project is migrated only when it has neither `odyn_deps/` nor `Odyn.lock`.
pub fn migrate_precheck(deps_dir_exists: bool, lockfile_exists: bool) -> (r: Result<
    (),
    MigrateError,
>)
    ensures
        deps_dir_exists ==> r matches Err(MigrateError::DepsDirExists),
        !deps_dir_exists && lockfile_exists ==> r matches Err(MigrateError::LockfileExists),
        !deps_dir_exists && !lockfile_exists ==> r is Ok,
{
    if deps_dir_exists {
        Err(MigrateError::DepsDirExists)
    } else if lockfile_exists {
        Err(MigrateError::LockfileExists)
    } else {
        Ok(())
    }
}

/// Some collection of `ols.json` is named `deps`.
pub open spec fn has_deps_collection(names: Seq<Option<Seq<char>>>) -> bool {
    exists|i: int| 0 <= i < names.len() && names[i] == Some("deps"@)
}

/// The views of the collection names.
pub open spec fn name_views(names: Seq<Option<String>>) -> Seq<Option<Seq<char>>> {
    names.map_values(
        |n: Option<String>|
            match n {
                Some(s) => Some(s@),
                None => None,
            },
    )
}

/// Whether the existing `ols.json` may get a `deps` collection, given the `name` of each
/// entry of its `collections` array (`None` when it has no such array): it must have the
/// array and no entry named `deps`.
pub fn ols_migration_check(collection_names: &Option<Vec<Option<String>>>) -> (r: Result<
    (),
    MigrateError,
>)
    ensures
        collection_names is None ==> r matches Err(MigrateError::NoCollections),
        collection_names matches Some(v) ==> (has_deps_collection(name_views(v@)) ==> r matches Err(
            MigrateError::DepsCollectionExists,
        )) && (!has_deps_collection(name_views(v@)) ==> r is Ok),
{
    match collection_names {
        None => Err(MigrateError::NoCollections),
        Some(v) => {
            let ghost nv = name_views(v@);
            let mut i: usize = 0;
            while i < v.len()
                invariant
                    i <= v@.len(),
                    nv == name_views(v@),
                    collection_names matches Some(w) && w@ == v@,
                    forall|j: int| 0 <= j < i ==> nv[j] != Some("deps"@),
                decreases v.len() - i,
            {
                match &v[i] {
                    Some(n) => {
                        if same_text(n.as_str(), "deps") {
                            assert(nv[i as int] == Some("deps"@));
                            return Err(MigrateError::DepsCollectionExists);
                        }
                    },
                    None => {},
                }
                i = i + 1;
            }
            Ok(())
        },
    }
}

// ---------------------------------------------------------------------------------------------
// Editing `ols.json`
// ---------------------------------------------------------------------------------------------

/// What `serde_json` reads from the text of `ols.json`: `None` when the text is not JSON;
/// `Some(None)` when it has no `collections` array; otherwise the `name` of each entry of
/// that array (`None` for an entry without a string `name`).
pub uninterp spec fn ols_collections(text: Seq<char>) -> Option<Option<Seq<Option<Seq<char>>>>>;

/// The message of the error that `serde_json::from_str` gives for `text`.
pub uninterp spec fn json_error(text: Seq<char>) -> Seq<char>;

/// The text of `ols.json` once an entry `{"name": name, "path": path}` is appended to its
/// `collections` array, pretty-printed by `serde_json`.
pub uninterp spec fn ols_with_collection(text: Seq<char>, name: Seq<char>, path: Seq<char>) -> Option<
    Seq<char>,
>;

/// The view of what [`read_ols_collections`] gives back.
pub open spec fn collections_view(c: Option<Vec<Option<String>>>) -> Option<
    Seq<Option<Seq<char>>>,
> {
    match c {
        Some(v) => Some(name_views(v@)),
        None => None,
    }
}

/// Parses `text` with `serde_json::from_str` into a `serde_json::Value` and picks out the
/// `name` of each entry of its `collections` array. What is read is named
/// `ols_collections(text)`; on a parse error the message is named `json_error(text)`.
#[verifier::external_body]
fn read_ols_collections(text: &str) -> (r: Result<Option<Vec<Option<String>>>, String>)
    ensures
        match ols_collections(text@) {
            None => r matches Err(m) && m@ == json_error(text@),
            Some(c) => r matches Ok(v) && collections_view(v) == c,
        },
{
    let json: serde_json::Value = serde_json::from_str(text).map_err(|e| e.to_string())?;
    Ok(json.get("collections").and_then(|v| v.as_array()).map(|a| {
        a.iter().map(|e| e.get("name").and_then(|n| n.as_str()).map(str::to_string)).collect()
    }))
}

/// Parses `text` with `serde_json::from_str`, appends `{"name": name, "path": path}` to its
/// `collections` array and prints the document with `serde_json::to_string_pretty`. There
/// is a result exactly when the text is JSON with a `collections` array (printing a parsed
/// document does not fail); it is named `ols_with_collection(text, name, path)`.
#[verifier::external_body]
fn append_collection(text: &str, name: &str, path: &str) -> (r: Option<String>)
    ensures
        r is Some <==> ols_collections(text@) matches Some(Some(_)),
        r matches Some(s) ==> Some(s@) == ols_with_collection(text@, name@, path@),
{
    let mut json: serde_json::Value = serde_json::from_str(text).ok()?;
    let collections = json.get_mut("collections")?.as_array_mut()?;
    let mut entry = serde_json::Map::new();
    entry.insert("name".to_string(), serde_json::Value::from(name));
    entry.insert("path".to_string(), serde_json::Value::from(path));
    collections.push(serde_json::Value::Object(entry));
    serde_json::to_string_pretty(&json).ok()
}

/// `odyn init --migrate` on an existing `ols.json`: the new text, with a `deps` collection
/// at `odyn_deps` appended, or why it cannot be migrated.
pub fn migrate_ols(text: &str) -> (r: Result<String, MigrateError>)
    ensures
        match ols_collections(text@) {
            None => r matches Err(MigrateError::ParseFailed { message }) && message@ == json_error(
                text@,
            ),
            Some(None) => r matches Err(MigrateError::NoCollections),
            Some(Some(names)) => if has_deps_collection(names) {
                r matches Err(MigrateError::DepsCollectionExists)
            } else {
                r matches Ok(s) && Some(s@) == ols_with_collection(text@, "deps"@, "odyn_deps"@)
            },
        },
{
    let names = match read_ols_collections(text) {
        Err(message) => {
            return Err(MigrateError::ParseFailed { message });
        },
        Ok(c) => c,
    };
    match ols_migration_check(&names) {
        Err(e) => Err(e),
        Ok(()) => match append_collection(text, "deps", "odyn_deps") {
            Some(s) => Ok(s),
            None => Err(MigrateError::NoCollections),
        },
    }
}

/// Each known license name selects its own license, and every known license has a name:
/// a value selects license `l` exactly when it is `l`'s name, so no two names give the same
/// license.
pub proof fn license_names_select_their_license(lowered: Seq<char>, l: License)
    ensures
        known_license(lowered) matches Some(k) ==> lowered == license_id(k),
        known_license(license_id(l)) == Some(l),
        known_license(lowered) == Some(l) <==> lowered == license_id(l),
{
    reveal_strlit("mit");
    reveal_strlit("apache");
    reveal_strlit("gpl3");
    reveal_strlit("bsd2");
    reveal_strlit("bsd3");
    reveal_strlit("mpl2");
    reveal_strlit("unlicense");
    reveal_strlit("zlib");
    reveal_strlit("isc");
    assert("apache"@.len() != "mit"@.len());
    assert("apache"@ != "mit"@);
    assert("gpl3"@.len() != "mit"@.len());
    assert("gpl3"@ != "mit"@);
    assert("gpl3"@.len() != "apache"@.len());
    assert("gpl3"@ != "apache"@);
    assert("bsd2"@.len() != "mit"@.len());
    assert("bsd2"@ != "mit"@);
    assert("bsd2"@.len() != "apache"@.len());
    assert("bsd2"@ != "apache"@);
    assert("bsd2"@[0] != "gpl3"@[0]);
    assert("bsd2"@ != "gpl3"@);
    assert("bsd3"@.len() != "mit"@.len());
    assert("bsd3"@ != "mit"@);
    assert("bsd3"@.len() != "apache"@.len());
    assert("bsd3"@ != "apache"@);
    assert("bsd3"@[0] != "gpl3"@[0]);
    assert("bsd3"@ != "gpl3"@);
    assert("bsd3"@[3] != "bsd2"@[3]);
    assert("bsd3"@ != "bsd2"@);
    assert("mpl2"@.len() != "mit"@.len());
    assert("mpl2"@ != "mit"@);
    assert("mpl2"@.len() != "apache"@.len());
    assert("mpl2"@ != "apache"@);
    assert("mpl2"@[0] != "gpl3"@[0]);
    assert("mpl2"@ != "gpl3"@);
    assert("mpl2"@[0] != "bsd2"@[0]);
    assert("mpl2"@ != "bsd2"@);
    assert("mpl2"@[0] != "bsd3"@[0]);
    assert("mpl2"@ != "bsd3"@);
    assert("unlicense"@.len() != "mit"@.len());
    assert("unlicense"@ != "mit"@);
    assert("unlicense"@.len() != "apache"@.len());
    assert("unlicense"@ != "apache"@);
    assert("unlicense"@.len() != "gpl3"@.len());
    assert("unlicense"@ != "gpl3"@);
    assert("unlicense"@.len() != "bsd2"@.len());
    assert("unlicense"@ != "bsd2"@);
    assert("unlicense"@.len() != "bsd3"@.len());
    assert("unlicense"@ != "bsd3"@);
    assert("unlicense"@.len() != "mpl2"@.len());
    assert("unlicense"@ != "mpl2"@);
    assert("zlib"@.len() != "mit"@.len());
    assert("zlib"@ != "mit"@);
    assert("zlib"@.len() != "apache"@.len());
    assert("zlib"@ != "apache"@);
    assert("zlib"@[0] != "gpl3"@[0]);
    assert("zlib"@ != "gpl3"@);
    assert("zlib"@[0] != "bsd2"@[0]);
    assert("zlib"@ != "bsd2"@);
    assert("zlib"@[0] != "bsd3"@[0]);
    assert("zlib"@ != "bsd3"@);
    assert("zlib"@[0] != "mpl2"@[0]);
    assert("zlib"@ != "mpl2"@);
    assert("zlib"@.len() != "unlicense"@.len());
    assert("zlib"@ != "unlicense"@);
    assert("isc"@[0] != "mit"@[0]);
    assert("isc"@ != "mit"@);
    assert("isc"@.len() != "apache"@.len());
    assert("isc"@ != "apache"@);
    assert("isc"@.len() != "gpl3"@.len());
    assert("isc"@ != "gpl3"@);
    assert("isc"@.len() != "bsd2"@.len());
    assert("isc"@ != "bsd2"@);
    assert("isc"@.len() != "bsd3"@.len());
    assert("isc"@ != "bsd3"@);
    assert("isc"@.len() != "mpl2"@.len());
    assert("isc"@ != "mpl2"@);
    assert("isc"@.len() != "unlicense"@.len());
    assert("isc"@ != "unlicense"@);
    assert("isc"@.len() != "zlib"@.len());
    assert("isc"@ != "zlib"@);
}

} // verus!

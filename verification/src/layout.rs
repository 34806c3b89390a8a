//! The layout of the game directory. A path is a list of components relative to
//! the game directory; the components are joined onto it one after another.
use vstd::prelude::*;

verus! {

use crate::text::views;

/// `versions/<version>`
pub open spec fn version_dir_path(version: Seq<char>) -> Seq<Seq<char>> {
    seq!["versions"@, version]
}

/// `versions/<version>/<version>.json`
pub open spec fn version_json_path(version: Seq<char>) -> Seq<Seq<char>> {
    seq!["versions"@, version, version + ".json"@]
}

/// `versions/<version>/<version>.jar`
pub open spec fn client_jar_path(version: Seq<char>) -> Seq<Seq<char>> {
    seq!["versions"@, version, version + ".jar"@]
}

/// `assets/indexes/<asset_index>.json`
pub open spec fn asset_index_path(asset_index: Seq<char>) -> Seq<Seq<char>> {
    seq!["assets"@, "indexes"@, asset_index + ".json"@]
}

/// The `k`-th directory that setup creates.
pub open spec fn setup_dir_path(version: Seq<char>, k: int) -> Seq<Seq<char>> {
    if k == 0 {
        version_dir_path(version)
    } else if k == 1 {
        seq!["libraries"@]
    } else if k == 2 {
        seq!["natives"@]
    } else if k == 3 {
        seq!["assets"@, "indexes"@]
    } else {
        seq!["assets"@, "objects"@]
    }
}

fn lit(s: &str) -> (r: String)
    ensures
        r@ == s@,
{
    String::from_str(s)
}

fn with_suffix(base: &str, suffix: &str) -> (r: String)
    ensures
        r@ == base@ + suffix@,
{
    let mut s = String::from_str(base);
    s.append(suffix);
    s
}

/// `versions/<version>`
pub fn version_dir(version: &str) -> (p: Vec<String>)
    ensures
        views(p@) == version_dir_path(version@),
{
    let p = vec![lit("versions"), lit(version)];
    assert(views(p@) =~= seq!["versions"@, version@]);
    p
}

/// `versions/<version>/<version>.json`, the version manifest.
pub fn version_json_file(version: &str) -> (p: Vec<String>)
    ensures
        views(p@) == version_json_path(version@),
{
    let p = vec![lit("versions"), lit(version), with_suffix(version, ".json")];
    assert(views(p@) =~= seq!["versions"@, version@, version@ + ".json"@]);
    p
}

/// `versions/<version>/<version>.jar`, the game client.
pub fn client_jar_file(version: &str) -> (p: Vec<String>)
    ensures
        views(p@) == client_jar_path(version@),
{
    let p = vec![lit("versions"), lit(version), with_suffix(version, ".jar")];
    assert(views(p@) =~= seq!["versions"@, version@, version@ + ".jar"@]);
    p
}

/// `libraries`, where the dependency jars and native packages are stored.
pub fn libraries_dir() -> (p: Vec<String>)
    ensures
        views(p@) == seq!["libraries"@],
{
    let p = vec![lit("libraries")];
    assert(views(p@) =~= seq!["libraries"@]);
    p
}

/// `natives`, where the native libraries are unpacked.
pub fn natives_dir() -> (p: Vec<String>)
    ensures
        views(p@) == seq!["natives"@],
{
    let p = vec![lit("natives")];
    assert(views(p@) =~= seq!["natives"@]);
    p
}

/// `assets`
pub fn assets_dir() -> (p: Vec<String>)
    ensures
        views(p@) == seq!["assets"@],
{
    let p = vec![lit("assets")];
    assert(views(p@) =~= seq!["assets"@]);
    p
}

/// `assets/indexes`
pub fn indexes_dir() -> (p: Vec<String>)
    ensures
        views(p@) == seq!["assets"@, "indexes"@],
{
    let p = vec![lit("assets"), lit("indexes")];
    assert(views(p@) =~= seq!["assets"@, "indexes"@]);
    p
}

/// `assets/objects`
pub fn objects_dir() -> (p: Vec<String>)
    ensures
        views(p@) == seq!["assets"@, "objects"@],
{
    let p = vec![lit("assets"), lit("objects")];
    assert(views(p@) =~= seq!["assets"@, "objects"@]);
    p
}

/// `assets/indexes/<asset_index>.json`
pub fn asset_index_file(asset_index: &str) -> (p: Vec<String>)
    ensures
        views(p@) == asset_index_path(asset_index@),
{
    let p = vec![lit("assets"), lit("indexes"), with_suffix(asset_index, ".json")];
    assert(views(p@) =~= seq!["assets"@, "indexes"@, asset_index@ + ".json"@]);
    p
}

/// `jre`, the bundled Java runtime.
pub fn jre_dir() -> (p: Vec<String>)
    ensures
        views(p@) == seq!["jre"@],
{
    let p = vec![lit("jre")];
    assert(views(p@) =~= seq!["jre"@]);
    p
}

/// `jre/jre.zip`, the downloaded runtime archive.
pub fn jre_archive_file() -> (p: Vec<String>)
    ensures
        views(p@) == seq!["jre"@, "jre.zip"@],
{
    let p = vec![lit("jre"), lit("jre.zip")];
    assert(views(p@) =~= seq!["jre"@, "jre.zip"@]);
    p
}

/// The directories that setup creates, in order: the version directory,
/// `libraries`, `natives`, `assets/indexes` and `assets/objects`.
pub fn setup_dirs(version: &str) -> (dirs: Vec<Vec<String>>)
    ensures
        dirs@.len() == 5,
        forall|k: int| 0 <= k < 5 ==> views(#[trigger] dirs@[k]@) == setup_dir_path(version@, k),
{
    vec![version_dir(version), libraries_dir(), natives_dir(), indexes_dir(), objects_dir()]
}

/// `bin/java.exe`, where a runtime's executable lies below its directory.
pub fn java_exe_in_runtime() -> (p: Vec<String>)
    ensures
        views(p@) == seq!["bin"@, "java.exe"@],
{
    let p = vec![lit("bin"), lit("java.exe")];
    assert(views(p@) =~= seq!["bin"@, "java.exe"@]);
    p
}

} // verus!

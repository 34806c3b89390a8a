//! The version manifest and the asset index, and the downloads that setup derives
//! from them. JSON objects used as maps are held as lists of (key, value) pairs.
use vstd::prelude::*;
use crate::text::views;
use crate::text::{last_segment, last_segment_of};

verus! {

/// Where the asset index of a version is published.
pub struct AssetIndexRef {
    pub id: String,
    pub url: String,
}

/// A downloadable file of a library.
pub struct Artifact {
    pub url: String,
    pub path: Option<String>,
}

/// The downloads of a library: its main jar and its per-platform classifiers.
pub struct Downloads {
    pub artifact: Option<Artifact>,
    pub classifiers: Option<Vec<(String, Artifact)>>,
}

/// A library of the version manifest; `natives` maps an operating system to
/// the classifier that holds its native package.
pub struct Library {
    pub downloads: Option<Downloads>,
    pub natives: Option<Vec<(String, String)>>,
}

/// The version manifest (`<version>.json`).
pub struct VersionFile {
    pub asset_index: AssetIndexRef,
    pub libraries: Vec<Library>,
    pub main_class: String,
}

/// An asset object, stored under its hash.
pub struct AssetObject {
    pub hash: String,
}

/// The asset index: asset names and their objects.
pub struct AssetIndexFile {
    pub objects: Vec<(String, AssetObject)>,
}

/// A file to fetch: its URL and its destination, relative to the game directory.
pub struct DownloadTask {
    pub url: String,
    pub dest: Vec<String>,
}

/// A download task as plain values: the URL and the destination's components.
pub open spec fn task_view(t: DownloadTask) -> (Seq<char>, Seq<Seq<char>>) {
    (t.url@, views(t.dest@))
}

pub open spec fn tasks_view(ts: Seq<DownloadTask>) -> Seq<(Seq<char>, Seq<Seq<char>>)> {
    ts.map_values(|t: DownloadTask| task_view(t))
}

/// The value of the first entry whose key is `key`.
pub open spec fn lookup<V>(entries: Seq<(String, V)>, key: Seq<char>) -> Option<V>
    decreases entries.len(),
{
    if entries.len() == 0 {
        None
    } else if entries[0].0@ == key {
        Some(entries[0].1)
    } else {
        lookup(entries.drop_first(), key)
    }
}

/// Position of the first entry whose key is `key`.
pub fn find_key<V>(entries: &Vec<(String, V)>, key: &str) -> (r: Option<usize>)
    ensures
        match r {
            Some(i) => {
                &&& i < entries@.len()
                &&& entries@[i as int].0@ == key@
                &&& forall|j: int| 0 <= j < i ==> (#[trigger] entries@[j]).0@ != key@
                &&& lookup(entries@, key@) == Some(entries@[i as int].1)
            },
            None => {
                &&& forall|j: int| 0 <= j < entries@.len() ==> (#[trigger] entries@[j]).0@ != key@
                &&& lookup(entries@, key@) is None
            },
        },
{
    let k = String::from_str(key);
    let n = entries.len();
    let mut i: usize = 0;
    assert(entries@.skip(0) =~= entries@);
    while i < n
        invariant
            n == entries@.len(),
            i <= n,
            k@ == key@,
            forall|j: int| 0 <= j < i ==> (#[trigger] entries@[j]).0@ != key@,
            lookup(entries@, key@) == lookup(entries@.skip(i as int), key@),
        decreases n - i,
    {
        assert(entries@.skip(i as int)[0] == entries@[i as int]);
        assert(entries@.skip(i as int).drop_first() =~= entries@.skip(i + 1));
        if entries[i].0 == k {
            return Some(i);
        }
        i = i + 1;
    }
    assert(entries@.skip(i as int).len() == 0);
    None
}

/// The file name under `libraries/` of an artifact: its declared path, else
/// the last segment of its URL.
pub open spec fn artifact_file(a: Artifact) -> Seq<char> {
    match a.path {
        Some(p) => p@,
        None => last_segment(a.url@),
    }
}

/// The download of an artifact into `libraries/`.
pub open spec fn artifact_task(a: Artifact) -> (Seq<char>, Seq<Seq<char>>) {
    (a.url@, seq!["libraries"@, artifact_file(a)])
}

/// The download task of an artifact into `libraries/`.
pub fn artifact_download(a: &Artifact) -> (t: DownloadTask)
    ensures
        task_view(t) == artifact_task(*a),
{
    let file = match &a.path {
        Some(p) => p.clone(),
        None => last_segment_of(a.url.as_str()),
    };
    let dest = vec![String::from_str("libraries"), file];
    let t = DownloadTask { url: a.url.clone(), dest };
    assert(views(t.dest@) =~= seq!["libraries"@, artifact_file(*a)]);
    t
}

/// The main jar of a library, if it declares one.
pub open spec fn library_jar(lib: Library) -> Option<Artifact> {
    match lib.downloads {
        Some(d) => d.artifact,
        None => None,
    }
}

/// The jar downloads of the libraries, in manifest order.
pub open spec fn jar_tasks(libs: Seq<Library>) -> Seq<(Seq<char>, Seq<Seq<char>>)>
    decreases libs.len(),
{
    if libs.len() == 0 {
        Seq::empty()
    } else {
        jar_tasks(libs.drop_last()) + match library_jar(libs.last()) {
            Some(a) => seq![artifact_task(a)],
            None => Seq::empty(),
        }
    }
}

/// The classifier of a library's native package for Windows, if there is one.
pub open spec fn library_native(lib: Library) -> Option<Artifact> {
    match lib.natives {
        Some(n) => match lookup(n@, "windows"@) {
            Some(key) => match lib.downloads {
                Some(d) => match d.classifiers {
                    Some(c) => lookup(c@, key@),
                    None => None,
                },
                None => None,
            },
            None => None,
        },
        None => None,
    }
}

/// The native-package downloads of the libraries, in manifest order.
pub open spec fn native_tasks(libs: Seq<Library>) -> Seq<(Seq<char>, Seq<Seq<char>>)>
    decreases libs.len(),
{
    if libs.len() == 0 {
        Seq::empty()
    } else {
        native_tasks(libs.drop_last()) + match library_native(libs.last()) {
            Some(a) => seq![artifact_task(a)],
            None => Seq::empty(),
        }
    }
}

fn jar_of(lib: &Library) -> (r: Option<&Artifact>)
    ensures
        match r {
            Some(a) => library_jar(*lib) == Some(*a),
            None => library_jar(*lib) is None,
        },
{
    match &lib.downloads {
        Some(d) => match &d.artifact {
            Some(a) => Some(a),
            None => None,
        },
        None => None,
    }
}

fn native_of(lib: &Library) -> (r: Option<&Artifact>)
    ensures
        match r {
            Some(a) => library_native(*lib) == Some(*a),
            None => library_native(*lib) is None,
        },
{
    proof {
        reveal_strlit("windows");
    }
    match &lib.natives {
        Some(n) => match find_key(n, "windows") {
            Some(i) => {
                let key = &n[i].1;
                match &lib.downloads {
                    Some(d) => match &d.classifiers {
                        Some(c) => match find_key(c, key.as_str()) {
                            Some(j) => Some(&c[j].1),
                            None => None,
                        },
                        None => None,
                    },
                    None => None,
                }
            },
            None => None,
        },
        None => None,
    }
}

/// The jar of every library that declares one, to be stored under
/// `libraries/<path>` (or the URL's last segment when no path is given).
pub fn library_downloads(vf: &VersionFile) -> (tasks: Vec<DownloadTask>)
    ensures
        tasks_view(tasks@) == jar_tasks(vf.libraries@),
{
    let libs = &vf.libraries;
    let n = libs.len();
    let mut tasks: Vec<DownloadTask> = Vec::new();
    let mut i: usize = 0;
    while i < n
        invariant
            n == libs@.len(),
            i <= n,
            tasks_view(tasks@) == jar_tasks(libs@.take(i as int)),
        decreases n - i,
    {
        assert(libs@.take(i + 1).drop_last() =~= libs@.take(i as int));
        assert(libs@.take(i + 1).last() == libs@[i as int]);
        match jar_of(&libs[i]) {
            Some(a) => {
                let t = artifact_download(a);
                tasks.push(t);
            },
            None => {},
        }
        assert(tasks_view(tasks@) =~= jar_tasks(libs@.take(i + 1)));
        i = i + 1;
    }
    assert(libs@.take(n as int) =~= libs@);
    tasks
}

/// The Windows native package of every library that names one and whose
/// downloads hold that classifier, to be stored like the jars.
pub fn native_downloads(vf: &VersionFile) -> (tasks: Vec<DownloadTask>)
    ensures
        tasks_view(tasks@) == native_tasks(vf.libraries@),
{
    let libs = &vf.libraries;
    let n = libs.len();
    let mut tasks: Vec<DownloadTask> = Vec::new();
    let mut i: usize = 0;
    while i < n
        invariant
            n == libs@.len(),
            i <= n,
            tasks_view(tasks@) == native_tasks(libs@.take(i as int)),
        decreases n - i,
    {
        assert(libs@.take(i + 1).drop_last() =~= libs@.take(i as int));
        assert(libs@.take(i + 1).last() == libs@[i as int]);
        match native_of(&libs[i]) {
            Some(a) => {
                let t = artifact_download(a);
                tasks.push(t);
            },
            None => {},
        }
        assert(tasks_view(tasks@) =~= native_tasks(libs@.take(i + 1)));
        i = i + 1;
    }
    assert(libs@.take(n as int) =~= libs@);
    tasks
}

/// The hash has a prefix made of its first two UTF-8 bytes: two one-byte
/// characters, or one two-byte character.
pub open spec fn hash_prefix_defined(h: Seq<char>) -> bool {
    &&& h.len() >= 1
    &&& (h[0] as u32) < 0x80 ==> h.len() >= 2 && (h[1] as u32) < 0x80
    &&& (h[0] as u32) >= 0x80 ==> (h[0] as u32) < 0x800
}

/// The characters of the first two UTF-8 bytes of `h`.
pub open spec fn hash_prefix(h: Seq<char>) -> Seq<char> {
    if (h[0] as u32) < 0x80 {
        h.take(2)
    } else {
        h.take(1)
    }
}

/// The server from which asset objects are fetched.
pub open spec fn resources_base() -> Seq<char> {
    "https://resources.download.minecraft.net"@
}

/// The download of an asset object: `<base>/<prefix>/<hash>` into
/// `assets/objects/<prefix>/<hash>`.
pub open spec fn object_task(h: Seq<char>) -> (Seq<char>, Seq<Seq<char>>) {
    (
        resources_base() + "/"@ + hash_prefix(h) + "/"@ + h,
        seq!["assets"@, "objects"@, hash_prefix(h), h],
    )
}

pub open spec fn object_tasks(objs: Seq<(String, AssetObject)>) -> Seq<(Seq<char>, Seq<Seq<char>>)> {
    objs.map_values(|o: (String, AssetObject)| object_task(o.1.hash@))
}

/// Every object of the index has a hash prefix.
pub open spec fn hashes_well_formed(idx: AssetIndexFile) -> bool {
    forall|i: int| 0 <= i < idx.objects@.len() ==> hash_prefix_defined(#[trigger] idx.objects@[i].1.hash@)
}

fn prefix_of(h: &str) -> (r: String)
    requires
        hash_prefix_defined(h@),
    ensures
        r@ == hash_prefix(h@),
{
    let c = h.get_char(0);
    if (c as u32) < 0x80 {
        String::from_str(h.substring_char(0, 2))
    } else {
        String::from_str(h.substring_char(0, 1))
    }
}

/// The download of one asset object.
pub fn object_download(h: &str) -> (t: DownloadTask)
    requires
        hash_prefix_defined(h@),
    ensures
        task_view(t) == object_task(h@),
{
    proof {
        reveal_strlit("https://resources.download.minecraft.net");
        reveal_strlit("/");
        reveal_strlit("assets");
        reveal_strlit("objects");
    }
    let prefix = prefix_of(h);
    let mut url = String::from_str("https://resources.download.minecraft.net");
    url.append("/");
    url.append(prefix.as_str());
    url.append("/");
    url.append(h);
    let dest = vec![String::from_str("assets"), String::from_str("objects"), prefix, String::from_str(h)];
    let t = DownloadTask { url, dest };
    assert(views(t.dest@) =~= object_task(h@).1);
    t
}

/// Every object of the asset index, in index order.
pub fn object_downloads(idx: &AssetIndexFile) -> (tasks: Vec<DownloadTask>)
    requires
        hashes_well_formed(*idx),
    ensures
        tasks_view(tasks@) == object_tasks(idx.objects@),
{
    let objs = &idx.objects;
    let n = objs.len();
    let mut tasks: Vec<DownloadTask> = Vec::new();
    let mut i: usize = 0;
    while i < n
        invariant
            n == objs@.len(),
            i <= n,
            hashes_well_formed(*idx),
            objs == &idx.objects,
            tasks_view(tasks@) == object_tasks(objs@.take(i as int)),
        decreases n - i,
    {
        assert(hash_prefix_defined(objs@[i as int].1.hash@));
        let ghost before = tasks@;
        let t = object_download(objs[i].1.hash.as_str());
        tasks.push(t);
        assert(tasks_view(tasks@) =~= tasks_view(before).push(task_view(t)));
        assert(object_tasks(objs@.take(i + 1)) =~= object_tasks(objs@.take(i as int)).push(
            object_task(objs@[i as int].1.hash@),
        ));
        i = i + 1;
    }
    assert(objs@.take(n as int) =~= objs@);
    tasks
}

/// Law: every jar and native package that setup fetches is stored directly
/// under `libraries/`.
pub proof fn lemma_library_downloads_stay_in_libraries(libs: Seq<Library>)
    ensures
        forall|i: int| 0 <= i < jar_tasks(libs).len() ==> (#[trigger] jar_tasks(libs)[i]).1.len() == 2
            && jar_tasks(libs)[i].1[0] == "libraries"@,
        forall|i: int| 0 <= i < native_tasks(libs).len() ==> (#[trigger] native_tasks(libs)[i]).1.len() == 2
            && native_tasks(libs)[i].1[0] == "libraries"@,
    decreases libs.len(),
{
    if libs.len() > 0 {
        lemma_library_downloads_stay_in_libraries(libs.drop_last());
        let a = jar_tasks(libs.drop_last());
        let b = native_tasks(libs.drop_last());
        assert forall|i: int| 0 <= i < jar_tasks(libs).len() implies (#[trigger] jar_tasks(libs)[i]).1.len() == 2
            && jar_tasks(libs)[i].1[0] == "libraries"@ by {
            if i < a.len() {
                assert(jar_tasks(libs)[i] == a[i]);
            }
        }
        assert forall|i: int| 0 <= i < native_tasks(libs).len() implies (#[trigger] native_tasks(libs)[i]).1.len() == 2
            && native_tasks(libs)[i].1[0] == "libraries"@ by {
            if i < b.len() {
                assert(native_tasks(libs)[i] == b[i]);
            }
        }
    }
}

/// Law: an asset object's address mirrors where it is stored: the server,
/// then the same two last components as its destination under
/// `assets/objects/`; for a hash of ASCII characters the directory is its first
/// two characters.
pub proof fn lemma_object_address_mirrors_destination(h: Seq<char>)
    requires
        hash_prefix_defined(h),
    ensures
        object_task(h).1.len() == 4,
        object_task(h).1[0] == "assets"@,
        object_task(h).1[1] == "objects"@,
        object_task(h).0 == resources_base() + "/"@ + object_task(h).1[2] + "/"@ + object_task(h).1[3],
        object_task(h).1[3] == h,
        (h[0] as u32) < 0x80 ==> object_task(h).1[2] == h.take(2),
{
}

/// No key occurs twice: what a JSON object read as a map guarantees.
pub open spec fn keys_distinct<V>(entries: Seq<(String, V)>) -> bool {
    forall|i: int, j: int| 0 <= i < j < entries.len() ==> (#[trigger] entries[i]).0@ != (#[trigger] entries[j]).0@
}

/// Law: in a list of pairs without a repeated key, looking a key up gives the
/// value stored with it, as a map does.
pub proof fn lemma_lookup_finds_each_entry<V>(entries: Seq<(String, V)>, i: int)
    requires
        keys_distinct(entries),
        0 <= i < entries.len(),
    ensures
        lookup(entries, entries[i].0@) == Some(entries[i].1),
    decreases entries.len(),
{
    if i > 0 {
        let rest = entries.drop_first();
        assert(entries[0].0@ != entries[i].0@);
        assert(rest[i - 1] == entries[i]);
        assert forall|a: int, b: int| 0 <= a < b < rest.len() implies (#[trigger] rest[a]).0@ != (#[trigger] rest[b]).0@ by {
            assert(rest[a] == entries[a + 1] && rest[b] == entries[b + 1]);
        }
        lemma_lookup_finds_each_entry(rest, i - 1);
    }
}

/// Whether no key occurs twice in `entries`.
pub fn has_distinct_keys<V>(entries: &Vec<(String, V)>) -> (r: bool)
    ensures
        r == keys_distinct(entries@),
{
    let n = entries.len();
    let mut i: usize = 0;
    while i < n
        invariant
            n == entries@.len(),
            i <= n,
            forall|a: int, b: int| 0 <= a < b < n && a < i ==> (#[trigger] entries@[a]).0@ != (#[trigger] entries@[b]).0@,
        decreases n - i,
    {
        let mut j: usize = i + 1;
        while j < n
            invariant
                n == entries@.len(),
                i < n,
                i + 1 <= j <= n,
                forall|a: int, b: int| 0 <= a < b < n && a < i ==> (#[trigger] entries@[a]).0@ != (#[trigger] entries@[b]).0@,
                forall|b: int| i < b < j ==> entries@[i as int].0@ != (#[trigger] entries@[b]).0@,
            decreases n - j,
        {
            if entries[i].0 == entries[j].0 {
                return false;
            }
            j = j + 1;
        }
        i = i + 1;
    }
    true
}

/// Every map of the manifest (each library's natives and classifiers) has
/// no repeated key.
pub open spec fn manifest_maps_distinct(vf: VersionFile) -> bool {
    forall|i: int| 0 <= i < vf.libraries@.len() ==> {
        let lib = #[trigger] vf.libraries@[i];
        &&& lib.natives matches Some(n) ==> keys_distinct(n@)
        &&& lib.downloads matches Some(d) ==> (d.classifiers matches Some(c) ==> keys_distinct(c@))
    }
}

/// Whether every map of the manifest has no repeated key.
pub fn manifest_maps_are_distinct(vf: &VersionFile) -> (r: bool)
    ensures
        r == manifest_maps_distinct(*vf),
{
    let n = vf.libraries.len();
    let mut i: usize = 0;
    while i < n
        invariant
            n == vf.libraries@.len(),
            i <= n,
            forall|k: int| 0 <= k < i ==> {
                let lib = #[trigger] vf.libraries@[k];
                &&& lib.natives matches Some(m) ==> keys_distinct(m@)
                &&& lib.downloads matches Some(d) ==> (d.classifiers matches Some(c) ==> keys_distinct(c@))
            },
        decreases n - i,
    {
        let lib = &vf.libraries[i];
        match &lib.natives {
            Some(m) => {
                if !has_distinct_keys(m) {
                    return false;
                }
            },
            None => {},
        }
        match &lib.downloads {
            Some(d) => match &d.classifiers {
                Some(c) => {
                    if !has_distinct_keys(c) {
                        return false;
                    }
                },
                None => {},
            },
            None => {},
        }
        i = i + 1;
    }
    true
}

/// Whether `h` has a hash prefix.
pub fn hash_has_prefix(h: &str) -> (r: bool)
    ensures
        r == hash_prefix_defined(h@),
{
    let n = h.unicode_len();
    if n == 0 {
        return false;
    }
    let c0 = h.get_char(0) as u32;
    if c0 < 0x80 {
        n >= 2 && (h.get_char(1) as u32) < 0x80
    } else {
        c0 < 0x800
    }
}

/// The asset index as setup needs it: every hash has a prefix, and no asset
/// name occurs twice.
pub open spec fn index_well_formed(idx: AssetIndexFile) -> bool {
    hashes_well_formed(idx) && keys_distinct(idx.objects@)
}

/// Whether the asset index is as setup needs it.
pub fn index_is_well_formed(idx: &AssetIndexFile) -> (r: bool)
    ensures
        r == index_well_formed(*idx),
{
    let n = idx.objects.len();
    let mut i: usize = 0;
    while i < n
        invariant
            n == idx.objects@.len(),
            i <= n,
            forall|k: int| 0 <= k < i ==> hash_prefix_defined(#[trigger] idx.objects@[k].1.hash@),
        decreases n - i,
    {
        if !hash_has_prefix(idx.objects[i].1.hash.as_str()) {
            return false;
        }
        i = i + 1;
    }
    has_distinct_keys(&idx.objects)
}

} // verus!

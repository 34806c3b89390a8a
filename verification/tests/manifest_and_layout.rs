use mclaunch::manifest::{hash_has_prefix, has_distinct_keys, index_is_well_formed, manifest_maps_are_distinct};
use mclaunch::layout::{
    asset_index_file, assets_dir, client_jar_file, indexes_dir, java_exe_in_runtime, jre_archive_file, jre_dir,
    libraries_dir, natives_dir, objects_dir, setup_dirs, version_dir, version_json_file,
};
use mclaunch::manifest::{
    find_key, library_downloads, native_downloads, object_download, object_downloads, Artifact, AssetIndexFile,
    AssetIndexRef, AssetObject, Downloads, Library, VersionFile,
};

fn s(x: &str) -> String {
    x.to_string()
}

fn art(url: &str, path: Option<&str>) -> Artifact {
    Artifact { url: s(url), path: path.map(s) }
}

fn manifest() -> VersionFile {
    VersionFile {
        asset_index: AssetIndexRef { id: s("1.8"), url: s("https://x/1.8.json") },
        libraries: vec![
            Library {
                downloads: Some(Downloads {
                    artifact: Some(art("https://libraries.minecraft.net/com/a/a-1.jar", Some("com/a/a-1.jar"))),
                    classifiers: None,
                }),
                natives: None,
            },
            Library { downloads: None, natives: None },
            Library {
                downloads: Some(Downloads {
                    artifact: Some(art("https://h/dir/b-2.jar", None)),
                    classifiers: Some(vec![
                        (s("natives-linux"), art("https://h/lin.jar", Some("n/lin.jar"))),
                        (s("natives-windows"), art("https://h/win.jar", Some("n/win.jar"))),
                    ]),
                }),
                natives: Some(vec![(s("linux"), s("natives-linux")), (s("windows"), s("natives-windows"))]),
            },
            Library {
                downloads: Some(Downloads {
                    artifact: None,
                    classifiers: Some(vec![(s("natives-osx"), art("https://h/osx.jar", None))]),
                }),
                natives: Some(vec![(s("windows"), s("natives-windows-64"))]),
            },
            Library {
                downloads: Some(Downloads {
                    artifact: None,
                    classifiers: Some(vec![(s("natives-windows"), art("https://h/dir/w2.jar", None))]),
                }),
                natives: Some(vec![(s("windows"), s("natives-windows"))]),
            },
        ],
        main_class: s("net.minecraft.client.main.Main"),
    }
}

#[test]
fn game_directory_layout() {
    assert_eq!(version_dir("1.8.9"), vec!["versions", "1.8.9"]);
    assert_eq!(version_json_file("1.8.9"), vec!["versions", "1.8.9", "1.8.9.json"]);
    assert_eq!(client_jar_file("1.8.9"), vec!["versions", "1.8.9", "1.8.9.jar"]);
    assert_eq!(libraries_dir(), vec!["libraries"]);
    assert_eq!(natives_dir(), vec!["natives"]);
    assert_eq!(assets_dir(), vec!["assets"]);
    assert_eq!(indexes_dir(), vec!["assets", "indexes"]);
    assert_eq!(objects_dir(), vec!["assets", "objects"]);
    assert_eq!(asset_index_file("1.8"), vec!["assets", "indexes", "1.8.json"]);
    assert_eq!(jre_dir(), vec!["jre"]);
    assert_eq!(jre_archive_file(), vec!["jre", "jre.zip"]);
    assert_eq!(java_exe_in_runtime(), vec!["bin", "java.exe"]);
    let dirs = setup_dirs("1.8.9");
    assert_eq!(dirs.len(), 5);
    assert_eq!(dirs[0], vec!["versions", "1.8.9"]);
    assert_eq!(dirs[4], vec!["assets", "objects"]);
}

#[test]
fn key_lookup_finds_first_match() {
    let entries = vec![(s("a"), 1), (s("b"), 2), (s("b"), 3)];
    assert_eq!(find_key(&entries, "b"), Some(1));
    assert_eq!(find_key(&entries, "a"), Some(0));
    assert_eq!(find_key(&entries, "c"), None);
}

#[test]
fn library_jars_to_fetch() {
    let tasks = library_downloads(&manifest());
    assert_eq!(tasks.len(), 2);
    assert_eq!(tasks[0].url, "https://libraries.minecraft.net/com/a/a-1.jar");
    assert_eq!(tasks[0].dest, vec!["libraries", "com/a/a-1.jar"]);
    assert_eq!(tasks[1].url, "https://h/dir/b-2.jar");
    assert_eq!(tasks[1].dest, vec!["libraries", "b-2.jar"]);
}

#[test]
fn native_packages_to_fetch() {
    let tasks = native_downloads(&manifest());
    assert_eq!(tasks.len(), 2);
    assert_eq!(tasks[0].url, "https://h/win.jar");
    assert_eq!(tasks[0].dest, vec!["libraries", "n/win.jar"]);
    assert_eq!(tasks[1].url, "https://h/dir/w2.jar");
    assert_eq!(tasks[1].dest, vec!["libraries", "w2.jar"]);
}

#[test]
fn asset_objects_to_fetch() {
    let idx = AssetIndexFile {
        objects: vec![
            (s("minecraft/sounds/a.ogg"), AssetObject { hash: s("bdf48ef6b5d0d23bbb02e17d04865216179f510a") }),
            (s("icons/icon_16x16.png"), AssetObject { hash: s("0a9d6f2b5d1a3c1b1b7e5a0f4f5e0c0b1a2b3c4d") }),
        ],
    };
    let tasks = object_downloads(&idx);
    assert_eq!(tasks.len(), 2);
    assert_eq!(
        tasks[0].url,
        "https://resources.download.minecraft.net/bd/bdf48ef6b5d0d23bbb02e17d04865216179f510a"
    );
    assert_eq!(tasks[0].dest, vec!["assets", "objects", "bd", "bdf48ef6b5d0d23bbb02e17d04865216179f510a"]);
    assert_eq!(tasks[1].dest[2], "0a");
}

#[test]
fn object_with_two_byte_first_char() {
    let t = object_download("éabc");
    assert_eq!(t.url, "https://resources.download.minecraft.net/é/éabc");
    assert_eq!(t.dest, vec!["assets", "objects", "é", "éabc"]);
    let t = object_download("ab");
    assert_eq!(t.dest, vec!["assets", "objects", "ab", "ab"]);
}

#[test]
fn distinct_keys() {
    assert!(has_distinct_keys(&vec![(s("a"), 1), (s("b"), 2)]));
    assert!(!has_distinct_keys(&vec![(s("a"), 1), (s("b"), 2), (s("a"), 3)]));
    assert!(has_distinct_keys::<u8>(&vec![]));
}

#[test]
fn manifest_maps_without_repeats() {
    assert!(manifest_maps_are_distinct(&manifest()));
    let mut m = manifest();
    m.libraries[2].natives = Some(vec![(s("windows"), s("x")), (s("windows"), s("y"))]);
    assert!(!manifest_maps_are_distinct(&m));
}

#[test]
fn hash_prefixes() {
    assert!(hash_has_prefix("ab"));
    assert!(hash_has_prefix("é"));
    assert!(!hash_has_prefix("a"));
    assert!(!hash_has_prefix(""));
    assert!(!hash_has_prefix("aé"));
    assert!(!hash_has_prefix("黑x"));
    let good = AssetIndexFile { objects: vec![(s("a"), AssetObject { hash: s("abcd") })] };
    assert!(index_is_well_formed(&good));
    let short = AssetIndexFile { objects: vec![(s("a"), AssetObject { hash: s("a") })] };
    assert!(!index_is_well_formed(&short));
    let repeated = AssetIndexFile {
        objects: vec![(s("a"), AssetObject { hash: s("abcd") }), (s("a"), AssetObject { hash: s("efgh") })],
    };
    assert!(!index_is_well_formed(&repeated));
}

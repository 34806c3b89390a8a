use mclaunch::launch::{collect_jars, DirEntry};
use mclaunch::fetch::{
    client_jar_url, combine_results, curl_args, query_temp_file_name, tar_args, version_manifest_url,
};
use mclaunch::java::{
    find_bundled_java, java_candidates, java_reports_version_8, next_java_step, output_mentions_java8, JavaStep,
    JreChild, JreEntry,
};
use mclaunch::jre::{azul_download_url, azul_packages_url, jre_setup_outcome, JsonValue};
use mclaunch::launch::{missing_client_text, not_java8_text, classpath, jar_walk_step, launch_args, LaunchParams, WalkStep};

fn s(x: &str) -> String {
    x.to_string()
}

#[test]
fn version_report_of_java8() {
    assert!(java_reports_version_8(b"", b"java version \"1.8.0_381\"\nJava(TM) SE Runtime"));
    assert!(java_reports_version_8(b"openjdk version \"1.8.0_402\"", b""));
    assert!(!java_reports_version_8(b"", b"openjdk version \"17.0.2\""));
    assert!(java_reports_version_8(b"1.", b"8"));
    assert!(java_reports_version_8(b"\xff1.8", b""));
    assert!(!java_reports_version_8(b"1\xff.8", b""));
    assert!(output_mentions_java8("1.8.0"));
    assert!(!output_mentions_java8("18"));
}

#[test]
fn candidate_order() {
    assert_eq!(java_candidates("java", None), vec!["java"]);
    assert_eq!(java_candidates("", Some(s("jre/x/bin/java.exe"))), vec!["jre/x/bin/java.exe", "java"]);
    assert_eq!(
        java_candidates("C:/jdk8/bin/java.exe", Some(s("jre/x/bin/java.exe"))),
        vec!["C:/jdk8/bin/java.exe", "jre/x/bin/java.exe", "java"]
    );
}

fn step_java(step: JavaStep) -> (String, bool) {
    match step {
        JavaStep::Use { java, announce } => (java, announce),
        _ => panic!("expected a runtime"),
    }
}

#[test]
fn resolution_probes_in_order() {
    let cands = vec![s("cfg/java"), s("bundled/java"), s("java")];
    assert!(matches!(next_java_step(&cands, &vec![]), JavaStep::Probe(0)));
    assert!(matches!(next_java_step(&cands, &vec![false]), JavaStep::Probe(1)));
    assert_eq!(step_java(next_java_step(&cands, &vec![false, true])), (s("bundled/java"), true));
    assert_eq!(step_java(next_java_step(&cands, &vec![true])), (s("cfg/java"), true));
    assert_eq!(step_java(next_java_step(&cands, &vec![false, false, true])), (s("java"), false));
    assert_eq!(step_java(next_java_step(&cands, &vec![false, false, false])), (s("cfg/java"), false));
}

#[test]
fn resolution_without_candidates() {
    match next_java_step(&vec![], &vec![]) {
        JavaStep::Missing(m) => assert!(m.starts_with("未找到任何 Java 运行环境")),
        _ => panic!("expected a missing runtime"),
    }
}

#[test]
fn bundled_runtime_search() {
    let file = JreEntry { is_dir: false, has_java: true, children: vec![] };
    let empty_dir = JreEntry { is_dir: true, has_java: false, children: vec![JreChild { is_dir: false, has_java: true }] };
    let nested = JreEntry {
        is_dir: true,
        has_java: false,
        children: vec![JreChild { is_dir: true, has_java: false }, JreChild { is_dir: true, has_java: true }],
    };
    let direct = JreEntry { is_dir: true, has_java: true, children: vec![] };
    assert_eq!(find_bundled_java(&vec![]), None);
    assert_eq!(find_bundled_java(&vec![file, empty_dir]), None);
    let entries = vec![
        JreEntry { is_dir: false, has_java: true, children: vec![] },
        nested,
        direct,
    ];
    assert_eq!(find_bundled_java(&entries), Some((1, Some(1))));
    let direct_first = vec![JreEntry { is_dir: true, has_java: true, children: vec![] }];
    assert_eq!(find_bundled_java(&direct_first), Some((0, None)));
}

#[test]
fn azul_answer() {
    let pkg = JsonValue::Object(vec![
        (s("name"), JsonValue::Str(s("zulu8.jre.zip"))),
        (s("download_url"), JsonValue::Str(s("https://cdn.azul.com/zulu8.zip"))),
        (s("size"), JsonValue::Number(s("42"))),
    ]);
    let doc = JsonValue::Array(vec![pkg]);
    assert_eq!(azul_download_url(&doc), Ok(s("https://cdn.azul.com/zulu8.zip")));
    let msg = Err(s("无法从 Azul API 获取 JRE 下载地址"));
    assert_eq!(azul_download_url(&JsonValue::Array(vec![])), msg);
    assert_eq!(azul_download_url(&JsonValue::Null), msg);
    let wrong = JsonValue::Array(vec![JsonValue::Object(vec![(s("download_url"), JsonValue::Number(s("1")))])]);
    assert_eq!(azul_download_url(&wrong), msg);
    assert!(azul_packages_url().starts_with("https://api.azul.com/metadata/v1/zulu/packages/?java_version=8"));
}

#[test]
fn runtime_setup_outcome() {
    assert_eq!(jre_setup_outcome(true), Ok(()));
    assert_eq!(jre_setup_outcome(false), Err(s("JRE 解压后未找到 java.exe，请检查 jre/ 目录。")));
}

#[test]
fn prechecks_before_start() {
    assert_eq!(
        missing_client_text("./versions/1.8.9/1.8.9.jar"),
        "找不到客户端 ./versions/1.8.9/1.8.9.jar。请先运行 `mclaunch setup` 下载离线资源。"
    );
    assert_eq!(
        not_java8_text(),
        "找到的 Java 不是 8（1.8.x 必须 Java 8）。请在 config.toml 的 java 字段指向 Java 8，或运行 `mclaunch setup` 下载捆绑 JRE。"
    );
}

#[test]
fn class_path() {
    assert_eq!(classpath("c.jar", &vec![]), "c.jar");
    assert_eq!(classpath("c.jar", &vec![s("a.jar"), s("b.jar")]), "c.jar;a.jar;b.jar");
}

#[test]
fn game_command_line() {
    let p = LaunchParams {
        max_ram_mb: 2048,
        natives_dir: s("./natives"),
        classpath: s("c.jar;a.jar"),
        username: s("Player"),
        version: s("1.8.9"),
        game_dir: s("."),
        assets_dir: s("./assets"),
        asset_index: s("1.8"),
    };
    let expected = vec![
        "-Xmx2048M",
        "-XX:+UseConcMarkSweepGC",
        "-XX:+CMSIncrementalMode",
        "-XX:-UseAdaptiveSizePolicy",
        "-Xmn128M",
        "-Djava.library.path=./natives",
        "-cp",
        "c.jar;a.jar",
        "net.minecraft.client.main.Main",
        "--username",
        "Player",
        "--version",
        "1.8.9",
        "--gameDir",
        ".",
        "--assetsDir",
        "./assets",
        "--assetIndex",
        "1.8",
        "--uuid",
        "00000000-0000-0000-0000-000000000000",
        "--accessToken",
        "null",
        "--userProperties",
        "{}",
        "--userType",
        "mojang",
    ];
    assert_eq!(launch_args(&p), expected);
}

#[test]
fn jar_search_steps() {
    assert_eq!(jar_walk_step(true, "org"), WalkStep::Descend);
    assert_eq!(jar_walk_step(true, "x.jar"), WalkStep::Descend);
    assert_eq!(jar_walk_step(false, "x.jar"), WalkStep::Collect);
    assert_eq!(jar_walk_step(false, "x.jar.sha1"), WalkStep::Skip);
}

#[test]
fn downloader_command_lines() {
    assert_eq!(
        curl_args("https://h/a.jar", "libs/a.jar"),
        vec!["-sL", "--retry", "3", "--retry-all-errors", "-o", "libs/a.jar", "https://h/a.jar"]
    );
    assert_eq!(tar_args("jre/jre.zip", "jre"), vec!["-xf", "jre/jre.zip", "-C", "jre"]);
    assert!(version_manifest_url().ends_with("/1.8.9.json"));
    assert!(client_jar_url().ends_with("/client.jar"));
    assert_eq!(query_temp_file_name(), "mclaunch_api_tmp.json");
}

#[test]
fn batch_outcomes() {
    assert_eq!(combine_results(vec![]), Ok(()));
    assert_eq!(combine_results(vec![Ok(()), Ok(())]), Ok(()));
    assert_eq!(combine_results(vec![Ok(()), Err(s("e1")), Ok(()), Err(s("e2"))]), Err(s("e1\ne2")));
    assert_eq!(combine_results(vec![Err(s("only"))]), Err(s("only")));
}

#[test]
fn jars_of_a_listing() {
    let file = |name: &str, path: &str| DirEntry { is_dir: false, name: s(name), path: Some(s(path)), children: vec![] };
    let listing = vec![
        file("README.txt", "l/README.txt"),
        DirEntry {
            is_dir: true,
            name: s("org"),
            path: Some(s("l/org")),
            children: vec![
                file("a.jar", "l/org/a.jar"),
                DirEntry { is_dir: true, name: s("x.jar"), path: Some(s("l/org/x.jar")), children: vec![file("b.jar", "l/org/x.jar/b.jar")] },
                file("a.jar.sha1", "l/org/a.jar.sha1"),
            ],
        },
        DirEntry { is_dir: false, name: s("c.jar"), path: None, children: vec![] },
    ];
    let mut out = vec![Some(s("first"))];
    collect_jars(&listing, &mut out);
    assert_eq!(out, vec![Some(s("first")), Some(s("l/org/a.jar")), Some(s("l/org/x.jar/b.jar")), None]);
}

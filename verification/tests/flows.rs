use mclaunch::jre::JsonValue;
use mclaunch::launch_flow::{launch_step, LaunchAction, LaunchEvent, LaunchInputs, LaunchStage};
use mclaunch::manifest::{
    Artifact, AssetIndexFile, AssetIndexRef, AssetObject, Downloads, Library, VersionFile,
};
use mclaunch::setup_flow::{setup_step, SetupAction, SetupEvent, SetupInputs, SetupStage};

fn s(x: &str) -> String {
    x.to_string()
}

fn inputs(cfg_java: &str) -> LaunchInputs {
    LaunchInputs {
        cfg_java: s(cfg_java),
        username: s("Player"),
        max_ram_mb: 1024,
        version: s("1.8.9"),
        asset_index: s("1.8"),
        game_dir: s("g"),
        client_jar: s("g/versions/1.8.9/1.8.9.jar"),
        libraries_dir: s("g/libraries"),
        natives_dir: s("g/natives"),
        assets_dir: s("g/assets"),
    }
}

/// Drives a game start, answering each action from the given outcomes, and
/// returns the actions described as text.
fn drive_launch(
    inp: &LaunchInputs,
    client_exists: bool,
    bundled: Option<&str>,
    java8: &dyn Fn(&str) -> bool,
    exit: Result<(), String>,
) -> Vec<String> {
    let mut log = Vec::new();
    let mut stage = LaunchStage::Start;
    let mut event = LaunchEvent::Begin;
    let mut exit = Some(exit);
    loop {
        let (next, action) = launch_step(inp, stage, event);
        stage = next;
        event = match action {
            LaunchAction::CheckExists(p) => {
                log.push(format!("exists? {}", p));
                LaunchEvent::Exists(client_exists)
            }
            LaunchAction::FindBundledJava => {
                log.push(s("find bundled"));
                LaunchEvent::Bundled(bundled.map(s))
            }
            LaunchAction::ProbeJava(j) => {
                log.push(format!("probe {}", j));
                LaunchEvent::Probed(java8(&j))
            }
            LaunchAction::Announce(m) => {
                log.push(format!("say {}", m));
                LaunchEvent::Shown
            }
            LaunchAction::CollectJars(d) => {
                log.push(format!("jars in {}", d));
                LaunchEvent::Jars(vec![s("g/libraries/a.jar"), s("g/libraries/b.jar")])
            }
            LaunchAction::Run { java, args } => {
                log.push(format!("run {} {}", java, args.join(" ")));
                LaunchEvent::Exited(exit.take().unwrap())
            }
            LaunchAction::Finish(r) => {
                log.push(format!("finish {:?}", r));
                return log;
            }
        };
    }
}

#[test]
fn launch_with_bundled_runtime() {
    let inp = inputs("java");
    let log = drive_launch(&inp, true, Some("g/jre/zulu/bin/java.exe"), &|j| j.contains("zulu"), Ok(()));
    assert_eq!(log[0], "exists? g/versions/1.8.9/1.8.9.jar");
    assert_eq!(log[1], "find bundled");
    assert_eq!(log[2], "probe g/jre/zulu/bin/java.exe");
    assert_eq!(log[3], "say [java] 使用: g/jre/zulu/bin/java.exe");
    assert_eq!(log[4], "probe g/jre/zulu/bin/java.exe");
    assert_eq!(log[5], "jars in g/libraries");
    assert_eq!(
        log[6],
        "run g/jre/zulu/bin/java.exe -Xmx1024M -XX:+UseConcMarkSweepGC -XX:+CMSIncrementalMode \
         -XX:-UseAdaptiveSizePolicy -Xmn128M -Djava.library.path=g/natives -cp \
         g/versions/1.8.9/1.8.9.jar;g/libraries/a.jar;g/libraries/b.jar net.minecraft.client.main.Main \
         --username Player --version 1.8.9 --gameDir g --assetsDir g/assets --assetIndex 1.8 \
         --uuid 00000000-0000-0000-0000-000000000000 --accessToken null --userProperties {} --userType mojang"
    );
    assert_eq!(log[7], "finish Ok(())");
    assert_eq!(log.len(), 8);
}

#[test]
fn launch_without_client() {
    let inp = inputs("java");
    let log = drive_launch(&inp, false, None, &|_| true, Ok(()));
    assert_eq!(log.len(), 2);
    assert_eq!(
        log[1],
        "finish Err(\"找不到客户端 g/versions/1.8.9/1.8.9.jar。请先运行 `mclaunch setup` 下载离线资源。\")"
    );
}

#[test]
fn launch_with_system_java_is_not_announced() {
    let inp = inputs("");
    let log = drive_launch(&inp, true, None, &|j| j == "java", Ok(()));
    assert_eq!(log[2], "probe java");
    assert_eq!(log[3], "probe java");
    assert_eq!(log[4], "jars in g/libraries");
}

#[test]
fn launch_falls_back_then_refuses_non_java8() {
    let inp = inputs("C:/jdk17/bin/java.exe");
    let log = drive_launch(&inp, true, Some("b/java.exe"), &|_| false, Ok(()));
    assert_eq!(log[2], "probe C:/jdk17/bin/java.exe");
    assert_eq!(log[3], "probe b/java.exe");
    assert_eq!(log[4], "probe java");
    assert_eq!(log[5], "probe C:/jdk17/bin/java.exe");
    assert!(log[6].starts_with("finish Err(\"找到的 Java 不是 8"));
    assert_eq!(log.len(), 7);
}

#[test]
fn launch_reports_game_failure() {
    let inp = inputs("java");
    let log = drive_launch(&inp, true, None, &|_| true, Err(s("游戏进程退出异常：exit code: 1")));
    assert_eq!(log.last().unwrap(), "finish Err(\"游戏进程退出异常：exit code: 1\")");
}

fn manifest() -> VersionFile {
    VersionFile {
        asset_index: AssetIndexRef { id: s("1.8"), url: s("https://x/indexes/1.8.json") },
        libraries: vec![
            Library {
                downloads: Some(Downloads {
                    artifact: Some(Artifact { url: s("https://l/a.jar"), path: Some(s("o/a.jar")) }),
                    classifiers: Some(vec![(
                        s("natives-windows"),
                        Artifact { url: s("https://l/n.jar"), path: Some(s("o/n.jar")) },
                    )]),
                }),
                natives: Some(vec![(s("windows"), s("natives-windows"))]),
            },
        ],
        main_class: s("net.minecraft.client.main.Main"),
    }
}

fn index() -> AssetIndexFile {
    AssetIndexFile { objects: vec![(s("a.ogg"), AssetObject { hash: s("abcdef") })] }
}

/// Drives setup; `fail_at` names an action (by its text) whose outcome is a failure.
fn drive_setup(fail_at: Option<&str>, jre_present: bool, jre_after: bool) -> Vec<String> {
    let inp = SetupInputs { game_dir: s("g"), version: s("1.8.9"), asset_index: s("1.8") };
    let mut log: Vec<String> = Vec::new();
    let mut stage = SetupStage::Start;
    let mut event = SetupEvent::Begin;
    let mut finds = 0;
    loop {
        let (next, notices, action) = setup_step(&inp, stage, event);
        for n in notices {
            log.push(format!("say {}", n));
        }
        stage = next;
        let text = match &action {
            SetupAction::MakeDir(d) => format!("mkdir {}", d.join("/")),
            SetupAction::Download { url, dest } => format!("get {} -> {}", url, dest.join("/")),
            SetupAction::DownloadAll(ts) => format!(
                "get all {}",
                ts.iter().map(|t| format!("{}->{}", t.url, t.dest.join("/"))).collect::<Vec<_>>().join(",")
            ),
            SetupAction::ReadManifest(p) => format!("read manifest {}", p.join("/")),
            SetupAction::ReadIndex(p) => format!("read index {}", p.join("/")),
            SetupAction::Extract { archive, dest } => format!("unpack {} -> {}", archive.join("/"), dest.join("/")),
            SetupAction::FindBundledJava => s("find bundled"),
            SetupAction::QueryRuntimes(u) => format!("query {}", u),
            SetupAction::Remove(p) => format!("remove {}", p.join("/")),
            SetupAction::Finish(r) => format!("finish {:?}", r),
        };
        log.push(text.clone());
        let fail = fail_at.map_or(false, |f| text.starts_with(f));
        let done = if fail { Err(format!("failed: {}", text)) } else { Ok(()) };
        event = match action {
            SetupAction::Finish(_) => return log,
            SetupAction::ReadManifest(_) => SetupEvent::Manifest(if fail { Err(s("bad manifest")) } else { Ok(manifest()) }),
            SetupAction::ReadIndex(_) => SetupEvent::Index(if fail { Err(s("bad index")) } else { Ok(index()) }),
            SetupAction::FindBundledJava => {
                finds += 1;
                SetupEvent::Found(if finds == 1 { jre_present } else { jre_after })
            }
            SetupAction::QueryRuntimes(_) => SetupEvent::Answer(if fail {
                Err(s("解析 Azul API 失败: x"))
            } else {
                Ok(JsonValue::Array(vec![JsonValue::Object(vec![(
                    s("download_url"),
                    JsonValue::Str(s("https://cdn/zulu.zip")),
                )])]))
            }),
            _ => SetupEvent::Done(done),
        };
    }
}

#[test]
fn full_setup_sequence() {
    let log = drive_setup(None, false, true);
    let expected = vec![
        "mkdir versions/1.8.9",
        "mkdir libraries",
        "mkdir natives",
        "mkdir assets/indexes",
        "mkdir assets/objects",
        "say [setup] 下载版本清单与客户端...",
        "get https://piston-meta.mojang.com/v1/packages/d546f1707a3f2b7d034eece5ea2e311eda875787/1.8.9.json -> versions/1.8.9/1.8.9.json",
        "get https://launcher.mojang.com/v1/objects/3870888a6c3d349d3771a3e9d16c9bf5e076b908/client.jar -> versions/1.8.9/1.8.9.jar",
        "read manifest versions/1.8.9/1.8.9.json",
        "say [setup] 并行下载 1 个依赖库...",
        "get all https://l/a.jar->libraries/o/a.jar",
        "get https://l/n.jar -> libraries/o/n.jar",
        "say [setup] 解压 1 个原生包到 natives/...",
        "unpack libraries/o/n.jar -> natives",
        "say [setup] 下载资源索引 1.8...",
        "get https://x/indexes/1.8.json -> assets/indexes/1.8.json",
        "read index assets/indexes/1.8.json",
        "say [setup] 并行下载 1 个资源对象...",
        "get all https://resources.download.minecraft.net/ab/abcdef->assets/objects/ab/abcdef",
        "mkdir jre",
        "find bundled",
        "say [setup] 查询便携 JRE 8 (Azul Zulu) ...",
        "query https://api.azul.com/metadata/v1/zulu/packages/?java_version=8&os=windows&arch=x64&archive_type=zip&java_package_type=jre&release_status=ga&latest=true",
        "say [setup] 下载 JRE 8 (约 40-60MB) ...",
        "get https://cdn/zulu.zip -> jre/jre.zip",
        "say [setup] 解压 JRE ...",
        "unpack jre/jre.zip -> jre",
        "remove jre/jre.zip",
        "find bundled",
        "say [setup] 捆绑 JRE 就绪（位于 jre/，无需另装 Java）。",
        "say [setup] 完成！离线游戏目录已就绪：g",
        "finish Ok(())",
    ];
    assert_eq!(log, expected);
}

#[test]
fn setup_skips_present_runtime() {
    let log = drive_setup(None, true, false);
    let n = log.len();
    assert_eq!(log[n - 4], "find bundled");
    assert_eq!(log[n - 3], "say [setup] 捆绑 JRE 已存在，跳过。");
    assert_eq!(log[n - 2], "say [setup] 完成！离线游戏目录已就绪：g");
    assert_eq!(log[n - 1], "finish Ok(())");
}

#[test]
fn setup_stops_at_first_failure() {
    let log = drive_setup(Some("mkdir natives"), false, true);
    assert_eq!(log.len(), 4);
    assert_eq!(log[3], "finish Err(\"failed: mkdir natives\")");
    let log = drive_setup(Some("read manifest"), false, true);
    assert_eq!(log.last().unwrap(), "finish Err(\"bad manifest\")");
    let log = drive_setup(Some("get all https://l"), false, true);
    assert_eq!(log.last().unwrap(), "finish Err(\"failed: get all https://l/a.jar->libraries/o/a.jar\")");
    let log = drive_setup(Some("query"), false, true);
    assert_eq!(log.last().unwrap(), "finish Err(\"解析 Azul API 失败: x\")");
}

#[test]
fn setup_ignores_unpack_failures() {
    let log = drive_setup(Some("unpack"), false, true);
    assert_eq!(log.last().unwrap(), "finish Ok(())");
}

#[test]
fn setup_fails_when_runtime_missing_after_unpack() {
    let log = drive_setup(None, false, false);
    assert_eq!(log.last().unwrap(), "finish Err(\"JRE 解压后未找到 java.exe，请检查 jre/ 目录。\")");
}

#[test]
fn resolved_runtime_resolves_to_itself() {
    let answers = |j: &str| j == "b/java.exe" || j == "java";
    let first = drive_launch(&inputs("C:/jdk17/bin/java.exe"), true, Some("b/java.exe"), &answers, Ok(()));
    assert_eq!(first[3], "probe b/java.exe");
    assert_eq!(first[4], "say [java] 使用: b/java.exe");
    let again = drive_launch(&inputs("b/java.exe"), true, Some("b/java.exe"), &answers, Ok(()));
    assert_eq!(again[2], "probe b/java.exe");
    assert_eq!(again[3], "say [java] 使用: b/java.exe");
    assert!(again[6].starts_with("run b/java.exe "));
}

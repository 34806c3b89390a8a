//! The course of `setup` as a state machine: the program shows the notices of
//! each step, performs its action and reports the outcome as the next event.
//!
//! Setup creates the game directory's layout, fetches the version manifest and
//! the client, the library jars, the Windows native packages (unpacked into
//! `natives/`), the asset index and the asset objects, and finally a bundled
//! Java runtime. It stops at the first failure, with that failure's message;
//! unpacking and removing the runtime archive cannot fail it.
use vstd::prelude::*;
use crate::fetch::{client_jar_url_spec, version_manifest_url_spec};
use crate::jre::{azul_download_url_spec, azul_packages_url_spec, jre_missing_after_unpack_message, no_jre_url_message, JsonValue};
use crate::layout::{asset_index_path, client_jar_path, setup_dir_path, version_json_path};
use crate::manifest::{
    index_well_formed, manifest_maps_distinct, native_tasks, jar_tasks, object_tasks, tasks_view, task_view, AssetIndexFile, DownloadTask,
    VersionFile,
};
use crate::text::{decimal, views};

verus! {

/// What setup works from.
pub struct SetupInputs {
    /// The game directory as configured.
    pub game_dir: String,
    pub version: String,
    pub asset_index: String,
}

/// Where setup stands.
pub enum SetupStage {
    Start,
    /// Creating the `done`-th directory of the layout.
    MakingDirs { done: usize },
    FetchingManifest,
    FetchingClient,
    ReadingManifest,
    /// Fetching the library jars; the native packages and the asset index come next.
    FetchingLibraries { natives: Vec<DownloadTask>, index_url: String },
    /// Fetching the native package at `next`.
    FetchingNatives { natives: Vec<DownloadTask>, index_url: String, next: usize },
    /// Unpacking the native package at `next`.
    UnpackingNatives { natives: Vec<DownloadTask>, index_url: String, next: usize },
    FetchingIndex,
    ReadingIndex,
    FetchingObjects,
    MakingJreDir,
    FindingJre,
    QueryingRuntimes,
    FetchingJre,
    UnpackingJre,
    RemovingArchive,
    RecheckingJre,
    Finished,
}

/// What the program is asked to do next; paths are relative to the game directory.
pub enum SetupAction {
    /// Create the directory and its parents.
    MakeDir(Vec<String>),
    /// Fetch one file.
    Download { url: String, dest: Vec<String> },
    /// Fetch the files in parallel and report the combined outcome.
    DownloadAll(Vec<DownloadTask>),
    /// Read and parse the version manifest.
    ReadManifest(Vec<String>),
    /// Read and parse the asset index.
    ReadIndex(Vec<String>),
    /// Unpack the archive into the directory; the outcome is not checked.
    Extract { archive: Vec<String>, dest: Vec<String> },
    /// Search `jre/` for a bundled runtime and report whether there is one.
    FindBundledJava,
    /// Fetch the answer of the query and parse it as JSON.
    QueryRuntimes(String),
    /// Remove the file; the outcome is not checked.
    Remove(Vec<String>),
    /// Setup is over, with this outcome.
    Finish(Result<(), String>),
}

/// The outcome of the last action.
pub enum SetupEvent {
    /// Setup is requested.
    Begin,
    Done(Result<(), String>),
    Manifest(Result<VersionFile, String>),
    Index(Result<AssetIndexFile, String>),
    Found(bool),
    Answer(Result<JsonValue, String>),
}

/// The event that each stage waits for. A manifest handed to setup has no
/// repeated key in its maps; an asset index has a directory prefix for every
/// hash and no repeated asset name.
pub open spec fn setup_accepts(stage: SetupStage, event: SetupEvent) -> bool {
    match stage {
        SetupStage::Start => event is Begin,
        SetupStage::MakingDirs { done } => event is Done && done < 5,
        SetupStage::FetchingManifest => event is Done,
        SetupStage::FetchingClient => event is Done,
        SetupStage::ReadingManifest => match event {
            SetupEvent::Manifest(Ok(vf)) => manifest_maps_distinct(vf),
            SetupEvent::Manifest(Err(_)) => true,
            _ => false,
        },
        SetupStage::FetchingLibraries { .. } => event is Done,
        SetupStage::FetchingNatives { natives, next, .. } => event is Done && next < natives@.len(),
        SetupStage::UnpackingNatives { natives, next, .. } => event is Done && next < natives@.len(),
        SetupStage::FetchingIndex => event is Done,
        SetupStage::ReadingIndex => match event {
            SetupEvent::Index(Ok(idx)) => index_well_formed(idx),
            SetupEvent::Index(Err(_)) => true,
            _ => false,
        },
        SetupStage::FetchingObjects => event is Done,
        SetupStage::MakingJreDir => event is Done,
        SetupStage::FindingJre => event is Found,
        SetupStage::QueryingRuntimes => event is Answer,
        SetupStage::FetchingJre => event is Done,
        SetupStage::UnpackingJre => event is Done,
        SetupStage::RemovingArchive => event is Done,
        SetupStage::RecheckingJre => event is Found,
        SetupStage::Finished => false,
    }
}

pub open spec fn notice_fetch_start() -> Seq<char> {
    "[setup] 下载版本清单与客户端..."@
}

pub open spec fn notice_libraries(n: nat) -> Seq<char> {
    "[setup] 并行下载 "@ + decimal(n) + " 个依赖库..."@
}

pub open spec fn notice_unpack_natives(n: nat) -> Seq<char> {
    "[setup] 解压 "@ + decimal(n) + " 个原生包到 natives/..."@
}

pub open spec fn notice_index(asset_index: Seq<char>) -> Seq<char> {
    "[setup] 下载资源索引 "@ + asset_index + "..."@
}

pub open spec fn notice_objects(n: nat) -> Seq<char> {
    "[setup] 并行下载 "@ + decimal(n) + " 个资源对象..."@
}

pub open spec fn notice_jre_present() -> Seq<char> {
    "[setup] 捆绑 JRE 已存在，跳过。"@
}

pub open spec fn notice_query() -> Seq<char> {
    "[setup] 查询便携 JRE 8 (Azul Zulu) ..."@
}

pub open spec fn notice_jre_download() -> Seq<char> {
    "[setup] 下载 JRE 8 (约 40-60MB) ..."@
}

pub open spec fn notice_jre_unpack() -> Seq<char> {
    "[setup] 解压 JRE ..."@
}

pub open spec fn notice_jre_ready() -> Seq<char> {
    "[setup] 捆绑 JRE 就绪（位于 jre/，无需另装 Java）。"@
}

pub open spec fn notice_done(game_dir: Seq<char>) -> Seq<char> {
    "[setup] 完成！离线游戏目录已就绪："@ + game_dir
}

/// The action fetches `url` into `dest`.
pub open spec fn is_download(a: SetupAction, url: Seq<char>, dest: Seq<Seq<char>>) -> bool {
    a matches SetupAction::Download { url: u, dest: d } && u@ == url && views(d@) == dest
}

/// The action ends setup with the failure `m`.
pub open spec fn is_failure(a: SetupAction, m: Seq<char>) -> bool {
    a matches SetupAction::Finish(r) && (r matches Err(e) && e@ == m)
}

/// The action ends setup successfully.
pub open spec fn is_success(a: SetupAction) -> bool {
    a matches SetupAction::Finish(r) && r is Ok
}

/// Fetching the asset index comes next.
pub open spec fn to_index(inp: SetupInputs, index_url: Seq<char>, s: SetupStage, a: SetupAction) -> bool {
    s is FetchingIndex && is_download(a, index_url, asset_index_path(inp.asset_index@))
}

/// What follows the library jars: the first native package, or, with none, the
/// asset index.
pub open spec fn after_libraries(
    inp: SetupInputs,
    natives: Seq<DownloadTask>,
    index_url: Seq<char>,
    s: SetupStage,
    notes: Seq<Seq<char>>,
    a: SetupAction,
) -> bool {
    if natives.len() > 0 {
        &&& notes.len() == 0
        &&& s matches SetupStage::FetchingNatives { natives: n, index_url: u, next } && n@ == natives
            && u@ == index_url && next == 0
        &&& is_download(a, task_view(natives[0]).0, task_view(natives[0]).1)
    } else {
        &&& notes == seq![notice_unpack_natives(0), notice_index(inp.asset_index@)]
        &&& to_index(inp, index_url, s, a)
    }
}

/// One step of setup.
pub open spec fn setup_transition(
    inp: SetupInputs,
    stage: SetupStage,
    event: SetupEvent,
    s: SetupStage,
    notes: Seq<Seq<char>>,
    a: SetupAction,
) -> bool {
    let failed = match event {
        SetupEvent::Done(Err(e)) => Some(e@),
        SetupEvent::Manifest(Err(e)) => Some(e@),
        SetupEvent::Index(Err(e)) => Some(e@),
        SetupEvent::Answer(Err(e)) => Some(e@),
        _ => None,
    };
    let fails_with = |m: Seq<char>| s is Finished && notes.len() == 0 && is_failure(a, m);
    match stage {
        SetupStage::Start => notes.len() == 0 && (s matches SetupStage::MakingDirs { done } && done == 0)
            && (a matches SetupAction::MakeDir(d) && views(d@) == setup_dir_path(inp.version@, 0)),
        SetupStage::MakingDirs { done } => match failed {
            Some(e) => fails_with(e),
            None => if done + 1 < 5 {
                notes.len() == 0 && (s matches SetupStage::MakingDirs { done: d2 } && d2 == done + 1)
                    && (a matches SetupAction::MakeDir(d) && views(d@) == setup_dir_path(
                    inp.version@,
                    done + 1,
                ))
            } else {
                notes == seq![notice_fetch_start()] && s is FetchingManifest && is_download(
                    a,
                    version_manifest_url_spec(),
                    version_json_path(inp.version@),
                )
            },
        },
        SetupStage::FetchingManifest => match failed {
            Some(e) => fails_with(e),
            None => notes.len() == 0 && s is FetchingClient && is_download(
                a,
                client_jar_url_spec(),
                client_jar_path(inp.version@),
            ),
        },
        SetupStage::FetchingClient => match failed {
            Some(e) => fails_with(e),
            None => notes.len() == 0 && s is ReadingManifest && (a matches SetupAction::ReadManifest(p)
                && views(p@) == version_json_path(inp.version@)),
        },
        SetupStage::ReadingManifest => match event {
            SetupEvent::Manifest(Ok(vf)) => {
                &&& notes == seq![notice_libraries(jar_tasks(vf.libraries@).len())]
                &&& s matches SetupStage::FetchingLibraries { natives, index_url } && tasks_view(natives@)
                    == native_tasks(vf.libraries@) && index_url@ == vf.asset_index.url@
                &&& a matches SetupAction::DownloadAll(ts) && tasks_view(ts@) == jar_tasks(vf.libraries@)
            },
            _ => fails_with(failed->0),
        },
        SetupStage::FetchingLibraries { natives, index_url } => match failed {
            Some(e) => fails_with(e),
            None => after_libraries(inp, natives@, index_url@, s, notes, a),
        },
        SetupStage::FetchingNatives { natives, index_url, next } => match failed {
            Some(e) => fails_with(e),
            None => if next + 1 < natives@.len() {
                &&& notes.len() == 0
                &&& s matches SetupStage::FetchingNatives { natives: n, index_url: u, next: k } && n@
                    == natives@ && u@ == index_url@ && k == next + 1
                &&& is_download(
                    a,
                    task_view(natives@[next + 1]).0,
                    task_view(natives@[next + 1]).1,
                )
            } else {
                &&& notes == seq![notice_unpack_natives(natives@.len())]
                &&& s matches SetupStage::UnpackingNatives { natives: n, index_url: u, next: k } && n@
                    == natives@ && u@ == index_url@ && k == 0
                &&& a matches SetupAction::Extract { archive, dest } && views(archive@) == task_view(
                    natives@[0],
                ).1 && views(dest@) == seq!["natives"@]
            },
        },
        SetupStage::UnpackingNatives { natives, index_url, next } => if next + 1 < natives@.len() {
            &&& notes.len() == 0
            &&& s matches SetupStage::UnpackingNatives { natives: n, index_url: u, next: k } && n@
                == natives@ && u@ == index_url@ && k == next + 1
            &&& a matches SetupAction::Extract { archive, dest } && views(archive@) == task_view(
                natives@[next + 1],
            ).1 && views(dest@) == seq!["natives"@]
        } else {
            notes == seq![notice_index(inp.asset_index@)] && to_index(inp, index_url@, s, a)
        },
        SetupStage::FetchingIndex => match failed {
            Some(e) => fails_with(e),
            None => notes.len() == 0 && s is ReadingIndex && (a matches SetupAction::ReadIndex(p) && views(
                p@,
            ) == asset_index_path(inp.asset_index@)),
        },
        SetupStage::ReadingIndex => match event {
            SetupEvent::Index(Ok(idx)) => {
                &&& notes == seq![notice_objects(idx.objects@.len())]
                &&& s is FetchingObjects
                &&& a matches SetupAction::DownloadAll(ts) && tasks_view(ts@) == object_tasks(idx.objects@)
            },
            _ => fails_with(failed->0),
        },
        SetupStage::FetchingObjects => match failed {
            Some(e) => fails_with(e),
            None => notes.len() == 0 && s is MakingJreDir && (a matches SetupAction::MakeDir(d) && views(d@)
                == seq!["jre"@]),
        },
        SetupStage::MakingJreDir => match failed {
            Some(e) => fails_with(e),
            None => notes.len() == 0 && s is FindingJre && a is FindBundledJava,
        },
        SetupStage::FindingJre => if event == SetupEvent::Found(true) {
            notes == seq![notice_jre_present(), notice_done(inp.game_dir@)] && s is Finished && is_success(a)
        } else {
            notes == seq![notice_query()] && s is QueryingRuntimes && (a matches SetupAction::QueryRuntimes(
                u,
            ) && u@ == azul_packages_url_spec())
        },
        SetupStage::QueryingRuntimes => match event {
            SetupEvent::Answer(Ok(doc)) => match azul_download_url_spec(doc) {
                Some(url) => notes == seq![notice_jre_download()] && s is FetchingJre && is_download(
                    a,
                    url,
                    seq!["jre"@, "jre.zip"@],
                ),
                None => fails_with(no_jre_url_message()),
            },
            _ => fails_with(failed->0),
        },
        SetupStage::FetchingJre => match failed {
            Some(e) => fails_with(e),
            None => notes == seq![notice_jre_unpack()] && s is UnpackingJre && (a matches SetupAction::Extract {
                archive,
                dest,
            } && views(archive@) == seq!["jre"@, "jre.zip"@] && views(dest@) == seq!["jre"@]),
        },
        SetupStage::UnpackingJre => notes.len() == 0 && s is RemovingArchive && (a matches SetupAction::Remove(
            p,
        ) && views(p@) == seq!["jre"@, "jre.zip"@]),
        SetupStage::RemovingArchive => notes.len() == 0 && s is RecheckingJre && a is FindBundledJava,
        SetupStage::RecheckingJre => if event == SetupEvent::Found(true) {
            notes == seq![notice_jre_ready(), notice_done(inp.game_dir@)] && s is Finished && is_success(a)
        } else {
            fails_with(jre_missing_after_unpack_message())
        },
        SetupStage::Finished => false,
    }
}

fn text_of(s: &str) -> (r: String)
    ensures
        r@ == s@,
{
    String::from_str(s)
}

fn counted(before: &str, n: usize, after: &str) -> (r: String)
    ensures
        r@ == before@ + decimal(n as nat) + after@,
{
    let mut m = String::from_str(before);
    let d = crate::text::decimal_string(n as u64);
    m.append(d.as_str());
    m.append(after);
    m
}

fn copy_task(t: &DownloadTask) -> (r: DownloadTask)
    ensures
        task_view(r) == task_view(*t),
{
    let mut dest: Vec<String> = Vec::new();
    let n = t.dest.len();
    let mut i: usize = 0;
    while i < n
        invariant
            n == t.dest@.len(),
            i <= n,
            views(dest@) == views(t.dest@).take(i as int),
        decreases n - i,
    {
        let ghost before = dest@;
        dest.push(t.dest[i].clone());
        assert(views(dest@) =~= views(before).push(t.dest@[i as int]@));
        assert(views(t.dest@).take(i + 1) =~= views(t.dest@).take(i as int).push(t.dest@[i as int]@));
        i = i + 1;
    }
    assert(views(t.dest@).take(n as int) =~= views(t.dest@));
    DownloadTask { url: t.url.clone(), dest }
}

fn failure(e: String) -> (r: (SetupStage, Vec<String>, SetupAction))
    ensures
        r.0 is Finished,
        r.1@.len() == 0,
        is_failure(r.2, e@),
{
    (SetupStage::Finished, Vec::new(), SetupAction::Finish(Err(e)))
}

fn index_step(inp: &SetupInputs, index_url: String) -> (r: (SetupStage, SetupAction))
    ensures
        to_index(*inp, index_url@, r.0, r.1),
{
    let dest = crate::layout::asset_index_file(inp.asset_index.as_str());
    (SetupStage::FetchingIndex, SetupAction::Download { url: index_url, dest })
}

fn notice_index_exec(inp: &SetupInputs) -> (r: String)
    ensures
        r@ == notice_index(inp.asset_index@),
{
    let mut m = text_of("[setup] 下载资源索引 ");
    m.append(inp.asset_index.as_str());
    m.append("...");
    m
}

fn libraries_done(inp: &SetupInputs, natives: Vec<DownloadTask>, index_url: String) -> (r: (
    SetupStage,
    Vec<String>,
    SetupAction,
))
    ensures
        after_libraries(*inp, natives@, index_url@, r.0, views(r.1@), r.2),
{
    if natives.len() > 0 {
        let t = copy_task(&natives[0]);
        (
            SetupStage::FetchingNatives { natives, index_url, next: 0 },
            Vec::new(),
            SetupAction::Download { url: t.url, dest: t.dest },
        )
    } else {
        let notes = vec![counted("[setup] 解压 ", 0, " 个原生包到 natives/..."), notice_index_exec(inp)];
        let (s, a) = index_step(inp, index_url);
        assert(views(notes@) =~= seq![notice_unpack_natives(0), notice_index(inp.asset_index@)]);
        (s, notes, a)
    }
}

fn unpack_native(natives: Vec<DownloadTask>, index_url: String, next: usize) -> (r: (SetupStage, SetupAction))
    requires
        next < natives@.len(),
    ensures
        r.0 matches SetupStage::UnpackingNatives { natives: n, index_url: u, next: k } && n@ == natives@ && u@
            == index_url@ && k == next,
        r.1 matches SetupAction::Extract { archive, dest } && views(archive@) == task_view(natives@[next as int]).1
            && views(dest@) == seq!["natives"@],
{
    let t = copy_task(&natives[next]);
    let dest = crate::layout::natives_dir();
    (SetupStage::UnpackingNatives { natives, index_url, next }, SetupAction::Extract { archive: t.dest, dest })
}

fn fetch_native(natives: Vec<DownloadTask>, index_url: String, next: usize) -> (r: (SetupStage, SetupAction))
    requires
        next < natives@.len(),
    ensures
        r.0 matches SetupStage::FetchingNatives { natives: n, index_url: u, next: k } && n@ == natives@ && u@
            == index_url@ && k == next,
        is_download(r.1, task_view(natives@[next as int]).0, task_view(natives@[next as int]).1),
{
    let t = copy_task(&natives[next]);
    (SetupStage::FetchingNatives { natives, index_url, next }, SetupAction::Download { url: t.url, dest: t.dest })
}

fn failure_of(event: SetupEvent) -> (r: String)
    requires
        match event {
            SetupEvent::Done(Err(_)) => true,
            SetupEvent::Manifest(Err(_)) => true,
            SetupEvent::Index(Err(_)) => true,
            SetupEvent::Answer(Err(_)) => true,
            _ => false,
        },
    ensures
        match event {
            SetupEvent::Done(Err(e)) => r == e,
            SetupEvent::Manifest(Err(e)) => r == e,
            SetupEvent::Index(Err(e)) => r == e,
            SetupEvent::Answer(Err(e)) => r == e,
            _ => false,
        },
{
    match event {
        SetupEvent::Done(Err(e)) => e,
        SetupEvent::Manifest(Err(e)) => e,
        SetupEvent::Index(Err(e)) => e,
        SetupEvent::Answer(Err(e)) => e,
        _ => String::new(),
    }
}

fn is_failed(event: &SetupEvent) -> (r: bool)
    ensures
        r == match *event {
            SetupEvent::Done(Err(_)) => true,
            SetupEvent::Manifest(Err(_)) => true,
            SetupEvent::Index(Err(_)) => true,
            SetupEvent::Answer(Err(_)) => true,
            _ => false,
        },
{
    match event {
        SetupEvent::Done(Err(_)) => true,
        SetupEvent::Manifest(Err(_)) => true,
        SetupEvent::Index(Err(_)) => true,
        SetupEvent::Answer(Err(_)) => true,
        _ => false,
    }
}

fn finished_with(first: &str, game_dir: &str) -> (r: (SetupStage, Vec<String>, SetupAction))
    ensures
        r.0 is Finished,
        views(r.1@) == seq![first@, notice_done(game_dir@)],
        is_success(r.2),
{
    let mut done = text_of("[setup] 完成！离线游戏目录已就绪：");
    done.append(game_dir);
    let notes = vec![text_of(first), done];
    assert(views(notes@) =~= seq![first@, notice_done(game_dir@)]);
    (SetupStage::Finished, notes, SetupAction::Finish(Ok(())))
}

/// Advances setup by one step on the outcome of the last action: the next
/// stage, the notices to show, and the next action.
pub fn setup_step(inp: &SetupInputs, stage: SetupStage, event: SetupEvent) -> (r: (
    SetupStage,
    Vec<String>,
    SetupAction,
))
    requires
        setup_accepts(stage, event),
    ensures
        setup_transition(*inp, stage, event, r.0, views(r.1@), r.2),
{
    let none: Vec<String> = Vec::new();
    assert(views(none@) =~= Seq::<Seq<char>>::empty());
    if is_failed(&event) {
        match &stage {
            SetupStage::UnpackingNatives { .. } => {},
            SetupStage::UnpackingJre => {},
            SetupStage::RemovingArchive => {},
            _ => {
                let e = failure_of(event);
                let r = failure(e);
                assert(views(r.1@) =~= Seq::<Seq<char>>::empty());
                return r;
            },
        }
    }
    match stage {
        SetupStage::Start => {
            let dirs = crate::layout::setup_dirs(inp.version.as_str());
            assert(views(dirs@[0]@) == setup_dir_path(inp.version@, 0));
            let mut dirs = dirs;
            let d = dirs.swap_remove(0);
            (SetupStage::MakingDirs { done: 0 }, none, SetupAction::MakeDir(d))
        },
        SetupStage::MakingDirs { done } => {
            if done + 1 < 5 {
                let dirs = crate::layout::setup_dirs(inp.version.as_str());
                let k = done + 1;
                assert(views(dirs@[k as int]@) == setup_dir_path(inp.version@, k as int));
                let mut dirs = dirs;
                let d = dirs.swap_remove(k);
                (SetupStage::MakingDirs { done: k }, none, SetupAction::MakeDir(d))
            } else {
                let notes = vec![text_of("[setup] 下载版本清单与客户端...")];
                assert(views(notes@) =~= seq![notice_fetch_start()]);
                let dest = crate::layout::version_json_file(inp.version.as_str());
                (
                    SetupStage::FetchingManifest,
                    notes,
                    SetupAction::Download { url: crate::fetch::version_manifest_url(), dest },
                )
            }
        },
        SetupStage::FetchingManifest => {
            let dest = crate::layout::client_jar_file(inp.version.as_str());
            (SetupStage::FetchingClient, none, SetupAction::Download { url: crate::fetch::client_jar_url(), dest })
        },
        SetupStage::FetchingClient => {
            let p = crate::layout::version_json_file(inp.version.as_str());
            (SetupStage::ReadingManifest, none, SetupAction::ReadManifest(p))
        },
        SetupStage::ReadingManifest => {
            match event {
                SetupEvent::Manifest(Ok(vf)) => {
                    let jars = crate::manifest::library_downloads(&vf);
                    let natives = crate::manifest::native_downloads(&vf);
                    let notes = vec![counted("[setup] 并行下载 ", jars.len(), " 个依赖库...")];
                    assert(tasks_view(jars@).len() == jars@.len());
                    assert(views(notes@) =~= seq![notice_libraries(jar_tasks(vf.libraries@).len())]);
                    let index_url = vf.asset_index.url;
                    (SetupStage::FetchingLibraries { natives, index_url }, notes, SetupAction::DownloadAll(jars))
                },
                _ => (SetupStage::Finished, Vec::new(), SetupAction::Finish(Ok(()))), // not reached: failures and other events end or are refused before
            }
        },
        SetupStage::FetchingLibraries { natives, index_url } => {
            libraries_done(inp, natives, index_url)
        },
        SetupStage::FetchingNatives { natives, index_url, next } => {
            let count = natives.len();
            if next + 1 < count {
                let (s, a) = fetch_native(natives, index_url, next + 1);
                (s, none, a)
            } else {
                let notes = vec![counted("[setup] 解压 ", natives.len(), " 个原生包到 natives/...")];
                assert(views(notes@) =~= seq![notice_unpack_natives(natives@.len())]);
                let (s, a) = unpack_native(natives, index_url, 0);
                (s, notes, a)
            }
        },
        SetupStage::UnpackingNatives { natives, index_url, next } => {
            let count = natives.len();
            if next + 1 < count {
                let (s, a) = unpack_native(natives, index_url, next + 1);
                (s, none, a)
            } else {
                let notes = vec![notice_index_exec(inp)];
                assert(views(notes@) =~= seq![notice_index(inp.asset_index@)]);
                let (s, a) = index_step(inp, index_url);
                (s, notes, a)
            }
        },
        SetupStage::FetchingIndex => {
            let p = crate::layout::asset_index_file(inp.asset_index.as_str());
            (SetupStage::ReadingIndex, none, SetupAction::ReadIndex(p))
        },
        SetupStage::ReadingIndex => {
            match event {
                SetupEvent::Index(Ok(idx)) => {
                    let objects = crate::manifest::object_downloads(&idx);
                    let notes = vec![counted("[setup] 并行下载 ", idx.objects.len(), " 个资源对象...")];
                    assert(views(notes@) =~= seq![notice_objects(idx.objects@.len())]);
                    (SetupStage::FetchingObjects, notes, SetupAction::DownloadAll(objects))
                },
                _ => (SetupStage::Finished, Vec::new(), SetupAction::Finish(Ok(()))), // not reached: failures and other events end or are refused before
            }
        },
        SetupStage::FetchingObjects => {
            (SetupStage::MakingJreDir, none, SetupAction::MakeDir(crate::layout::jre_dir()))
        },
        SetupStage::MakingJreDir => (SetupStage::FindingJre, none, SetupAction::FindBundledJava),
        SetupStage::FindingJre => {
            if matches!(event, SetupEvent::Found(true)) {
                finished_with("[setup] 捆绑 JRE 已存在，跳过。", inp.game_dir.as_str())
            } else {
                let notes = vec![text_of("[setup] 查询便携 JRE 8 (Azul Zulu) ...")];
                assert(views(notes@) =~= seq![notice_query()]);
                (
                    SetupStage::QueryingRuntimes,
                    notes,
                    SetupAction::QueryRuntimes(crate::jre::azul_packages_url()),
                )
            }
        },
        SetupStage::QueryingRuntimes => {
            match event {
                SetupEvent::Answer(Ok(doc)) => match crate::jre::azul_download_url(&doc) {
                    Ok(url) => {
                        let notes = vec![text_of("[setup] 下载 JRE 8 (约 40-60MB) ...")];
                        assert(views(notes@) =~= seq![notice_jre_download()]);
                        let dest = crate::layout::jre_archive_file();
                        (SetupStage::FetchingJre, notes, SetupAction::Download { url, dest })
                    },
                    Err(m) => {
                        let r = failure(m);
                        assert(views(r.1@) =~= Seq::<Seq<char>>::empty());
                        r
                    },
                },
                _ => (SetupStage::Finished, Vec::new(), SetupAction::Finish(Ok(()))), // not reached: failures and other events end or are refused before
            }
        },
        SetupStage::FetchingJre => {
            let notes = vec![text_of("[setup] 解压 JRE ...")];
            assert(views(notes@) =~= seq![notice_jre_unpack()]);
            (
                SetupStage::UnpackingJre,
                notes,
                SetupAction::Extract { archive: crate::layout::jre_archive_file(), dest: crate::layout::jre_dir() },
            )
        },
        SetupStage::UnpackingJre => {
            (SetupStage::RemovingArchive, none, SetupAction::Remove(crate::layout::jre_archive_file()))
        },
        SetupStage::RemovingArchive => (SetupStage::RecheckingJre, none, SetupAction::FindBundledJava),
        SetupStage::RecheckingJre => {
            let found = matches!(event, SetupEvent::Found(true));
            match crate::jre::jre_setup_outcome(found) {
                Ok(_) => finished_with("[setup] 捆绑 JRE 就绪（位于 jre/，无需另装 Java）。", inp.game_dir.as_str()),
                Err(m) => {
                    let r = failure(m);
                    assert(views(r.1@) =~= Seq::<Seq<char>>::empty());
                    r
                },
            }
        },
        SetupStage::Finished => (SetupStage::Finished, Vec::new(), SetupAction::Finish(Ok(()))), // not reached: failures and other events end or are refused before
    }
}

/// The outcome of the last action was a failure with message `m`.
pub open spec fn failed_with(event: SetupEvent, m: Seq<char>) -> bool {
    match event {
        SetupEvent::Done(Err(e)) => e@ == m,
        SetupEvent::Manifest(Err(e)) => e@ == m,
        SetupEvent::Index(Err(e)) => e@ == m,
        SetupEvent::Answer(Err(e)) => e@ == m,
        _ => false,
    }
}

/// The stages whose action cannot fail setup: unpacking an archive and
/// removing the runtime archive.
pub open spec fn outcome_ignored(stage: SetupStage) -> bool {
    stage is UnpackingNatives || stage is UnpackingJre || stage is RemovingArchive
}

/// Law: setup stops at the first failed action, with that action's message
/// and nothing more shown; only unpacking and removing the runtime archive
/// are allowed to fail without stopping it, and their outcome does not
/// matter.
pub proof fn lemma_setup_stops_at_first_failure(
    inp: SetupInputs,
    stage: SetupStage,
    event: SetupEvent,
    m: Seq<char>,
    s: SetupStage,
    notes: Seq<Seq<char>>,
    a: SetupAction,
)
    requires
        setup_accepts(stage, event),
        failed_with(event, m),
        setup_transition(inp, stage, event, s, notes, a),
    ensures
        !outcome_ignored(stage) ==> s is Finished && notes.len() == 0 && is_failure(a, m),
        outcome_ignored(stage) ==> !(a is Finish),
{
}

/// Law: setup succeeds only by finding a bundled runtime, either one that was
/// already there (then nothing is fetched for it) or the one just unpacked;
/// its last notice then names the game directory.
pub proof fn lemma_setup_succeeds_only_with_a_runtime(
    inp: SetupInputs,
    stage: SetupStage,
    event: SetupEvent,
    s: SetupStage,
    notes: Seq<Seq<char>>,
    a: SetupAction,
)
    requires
        setup_accepts(stage, event),
        setup_transition(inp, stage, event, s, notes, a),
        is_success(a),
    ensures
        stage is FindingJre || stage is RecheckingJre,
        event == SetupEvent::Found(true),
        s is Finished,
        notes.len() == 2 && notes[1] == notice_done(inp.game_dir@),
{
}

/// Every native package of the list is stored directly under `libraries/`.
pub open spec fn natives_in_libraries(ts: Seq<DownloadTask>) -> bool {
    forall|i: int| 0 <= i < ts.len() ==> (#[trigger] task_view(ts[i])).1.len() == 2 && task_view(ts[i]).1[0]
        == "libraries"@
}

/// What holds of every stage that setup passes through.
pub open spec fn setup_invariant(stage: SetupStage) -> bool {
    match stage {
        SetupStage::FetchingLibraries { natives, .. } => natives_in_libraries(natives@),
        SetupStage::FetchingNatives { natives, .. } => natives_in_libraries(natives@),
        SetupStage::UnpackingNatives { natives, .. } => natives_in_libraries(natives@),
        _ => true,
    }
}

/// A destination inside the layout of the game directory.
pub open spec fn in_layout(dest: Seq<Seq<char>>) -> bool {
    dest.len() >= 2 && (dest[0] == "versions"@ || dest[0] == "libraries"@ || dest[0] == "assets"@ || dest[0]
        == "jre"@)
}

/// Law: setup's invariant holds from the start and is kept by every step, and
/// every file that setup fetches, alone or in a batch, is stored inside the
/// layout: the version directory, `libraries/`, `assets/` or `jre/`.
pub proof fn lemma_setup_downloads_stay_in_layout(
    inp: SetupInputs,
    stage: SetupStage,
    event: SetupEvent,
    s: SetupStage,
    notes: Seq<Seq<char>>,
    a: SetupAction,
)
    requires
        setup_invariant(stage),
        setup_accepts(stage, event),
        setup_transition(inp, stage, event, s, notes, a),
    ensures
        setup_invariant(SetupStage::Start),
        setup_invariant(s),
        a matches SetupAction::Download { dest, .. } ==> in_layout(views(dest@)),
        a matches SetupAction::DownloadAll(ts) ==> forall|i: int|
            0 <= i < ts@.len() ==> in_layout(#[trigger] task_view(ts@[i]).1),
{
    match event {
        SetupEvent::Manifest(Ok(vf)) => {
            crate::manifest::lemma_library_downloads_stay_in_libraries(vf.libraries@);
            if stage is ReadingManifest {
                if let SetupStage::FetchingLibraries { natives, .. } = s {
                    assert forall|i: int| 0 <= i < natives@.len() implies (#[trigger] task_view(natives@[i])).1.len()
                        == 2 && task_view(natives@[i]).1[0] == "libraries"@ by {
                        assert(tasks_view(natives@)[i] == task_view(natives@[i]));
                        assert(tasks_view(natives@)[i] == native_tasks(vf.libraries@)[i]);
                    }
                }
                if let SetupAction::DownloadAll(ts) = a {
                    assert forall|i: int| 0 <= i < ts@.len() implies in_layout(#[trigger] task_view(ts@[i]).1) by {
                        assert(tasks_view(ts@)[i] == task_view(ts@[i]));
                        assert(tasks_view(ts@)[i] == jar_tasks(vf.libraries@)[i]);
                    }
                }
            }
        },
        SetupEvent::Index(Ok(idx)) => {
            if let SetupAction::DownloadAll(ts) = a {
                assert forall|i: int| 0 <= i < ts@.len() implies in_layout(#[trigger] task_view(ts@[i]).1) by {
                    assert(tasks_view(ts@)[i] == task_view(ts@[i]));
                    if stage is ReadingIndex {
                        assert(tasks_view(ts@).len() == ts@.len());
                        assert(object_tasks(idx.objects@).len() == idx.objects@.len());
                        assert(object_tasks(idx.objects@)[i] == crate::manifest::object_task(
                            idx.objects@[i].1.hash@,
                        ));
                    }
                }
            }
        },
        _ => {},
    }
}

} // verus!

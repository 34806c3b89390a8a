//! Whole runs of setup: what a run that ends successfully has done.
//!
//! A run is a list of stages, events and actions: step `i` takes `stages[i]`
//! and `events[i]` to `stages[i + 1]` and `actions[i]`, and `events[i + 1]` is
//! the outcome of `actions[i]`.
use vstd::prelude::*;
use crate::fetch::{client_jar_url_spec, version_manifest_url_spec};
use crate::layout::{asset_index_path, client_jar_path, setup_dir_path, version_json_path};
use crate::manifest::{jar_tasks, native_tasks, object_tasks, tasks_view, task_view, AssetIndexFile, VersionFile};
use crate::setup_flow::{
    after_libraries, is_download, is_success, setup_accepts, setup_transition, to_index, SetupAction, SetupEvent,
    SetupInputs, SetupStage,
};
use crate::text::views;

verus! {

/// `stages`, `events` and `actions` form a run of setup from its start.
pub open spec fn setup_run(
    inp: SetupInputs,
    stages: Seq<SetupStage>,
    events: Seq<SetupEvent>,
    actions: Seq<SetupAction>,
) -> bool {
    &&& stages.len() == events.len() + 1
    &&& actions.len() == events.len()
    &&& stages[0] is Start
    &&& forall|i: int|
        #![trigger stages[i]]
        0 <= i < events.len() ==> setup_accepts(stages[i], events[i]) && exists|notes: Seq<Seq<char>>|
            #[trigger] setup_transition(inp, stages[i], events[i], stages[i + 1], notes, actions[i])
}

/// Before stage `j`, the action at `m` succeeded.
pub open spec fn succeeded(events: Seq<SetupEvent>, m: int, j: int) -> bool {
    0 <= m && m + 1 < j && m + 1 < events.len() && (events[m + 1] matches SetupEvent::Done(r) && r is Ok)
}

/// Before stage `j`, the file at `url` was fetched into `dest`.
pub open spec fn fetched(
    events: Seq<SetupEvent>,
    actions: Seq<SetupAction>,
    j: int,
    url: Seq<char>,
    dest: Seq<Seq<char>>,
) -> bool {
    exists|m: int| succeeded(events, m, j) && #[trigger] is_download(actions[m], url, dest)
}

/// Before stage `j`, a batch of exactly `tasks` was fetched.
pub open spec fn batch_fetched(
    events: Seq<SetupEvent>,
    actions: Seq<SetupAction>,
    j: int,
    tasks: Seq<(Seq<char>, Seq<Seq<char>>)>,
) -> bool {
    exists|m: int|
        succeeded(events, m, j) && (#[trigger] actions[m] matches SetupAction::DownloadAll(ts) && tasks_view(ts@)
            == tasks)
}

/// Before stage `j`, the directory `d` was created.
pub open spec fn dir_made(events: Seq<SetupEvent>, actions: Seq<SetupAction>, j: int, d: Seq<Seq<char>>) -> bool {
    exists|m: int| succeeded(events, m, j) && (#[trigger] actions[m] matches SetupAction::MakeDir(x) && views(x@) == d)
}

/// Before stage `j`, the version manifest was read as `vf`.
pub open spec fn manifest_read(events: Seq<SetupEvent>, j: int, vf: VersionFile) -> bool {
    exists|m: int| 0 <= m < j && #[trigger] events[m] == SetupEvent::Manifest(Ok(vf))
}

/// Before stage `j`, the asset index was read as `idx`.
pub open spec fn index_read(events: Seq<SetupEvent>, j: int, idx: AssetIndexFile) -> bool {
    exists|m: int| 0 <= m < j && #[trigger] events[m] == SetupEvent::Index(Ok(idx))
}

/// Before stage `j`, the layout, the version manifest and the client are in place.
pub open spec fn base_done(inp: SetupInputs, ev: Seq<SetupEvent>, ac: Seq<SetupAction>, j: int) -> bool {
    &&& forall|k: int| 0 <= k < 5 ==> dir_made(ev, ac, j, #[trigger] setup_dir_path(inp.version@, k))
    &&& fetched(ev, ac, j, version_manifest_url_spec(), version_json_path(inp.version@))
    &&& fetched(ev, ac, j, client_jar_url_spec(), client_jar_path(inp.version@))
}

/// Before stage `j`, the manifest was read as `vf` and every library jar and
/// the first `n` native packages of `vf` were fetched.
pub open spec fn libraries_done(ev: Seq<SetupEvent>, ac: Seq<SetupAction>, j: int, vf: VersionFile, n: int) -> bool {
    &&& manifest_read(ev, j, vf)
    &&& batch_fetched(ev, ac, j, jar_tasks(vf.libraries@))
    &&& forall|t: int|
        0 <= t < n ==> fetched(ev, ac, j, (#[trigger] native_tasks(vf.libraries@)[t]).0, native_tasks(vf.libraries@)[t].1)
}

/// Before stage `j`, the package at `archive` was unpacked into `natives/`
/// (setup goes on whatever the unpacking reports).
pub open spec fn unpacked(ev: Seq<SetupEvent>, ac: Seq<SetupAction>, j: int, archive: Seq<Seq<char>>) -> bool {
    exists|m: int|
        0 <= m && m + 1 < j && m + 1 < ev.len() && (#[trigger] ac[m] matches SetupAction::Extract { archive: a, dest: d }
            && views(a@) == archive && views(d@) == seq!["natives"@])
}

/// Before stage `j`, the first `n` native packages of `vf` were unpacked.
pub open spec fn natives_unpacked(ev: Seq<SetupEvent>, ac: Seq<SetupAction>, j: int, vf: VersionFile, n: int) -> bool {
    forall|t: int| 0 <= t < n ==> unpacked(ev, ac, j, (#[trigger] native_tasks(vf.libraries@)[t]).1)
}

/// Before stage `j`, everything of the manifest `vf` and its asset index is in place.
pub open spec fn manifest_done(inp: SetupInputs, ev: Seq<SetupEvent>, ac: Seq<SetupAction>, j: int, vf: VersionFile) -> bool {
    &&& libraries_done(ev, ac, j, vf, native_tasks(vf.libraries@).len() as int)
    &&& natives_unpacked(ev, ac, j, vf, native_tasks(vf.libraries@).len() as int)
    &&& fetched(ev, ac, j, vf.asset_index.url@, asset_index_path(inp.asset_index@))
}

/// Before stage `j`, every asset object of the index read was fetched.
pub open spec fn objects_done(ev: Seq<SetupEvent>, ac: Seq<SetupAction>, j: int) -> bool {
    exists|idx: AssetIndexFile| index_read(ev, j, idx) && batch_fetched(ev, ac, j, object_tasks(idx.objects@))
}

/// Before stage `j`, all that precedes the runtime is in place.
pub open spec fn files_done(inp: SetupInputs, ev: Seq<SetupEvent>, ac: Seq<SetupAction>, j: int) -> bool {
    &&& base_done(inp, ev, ac, j)
    &&& exists|vf: VersionFile| manifest_done(inp, ev, ac, j, vf)
    &&& objects_done(ev, ac, j)
}

/// What a run has done when it reaches stage `j`, and which action is pending.
pub open spec fn run_invariant(inp: SetupInputs, st: Seq<SetupStage>, ev: Seq<SetupEvent>, ac: Seq<SetupAction>, j: int) -> bool {
    let pending = ac[j - 1];
    match st[j] {
        SetupStage::Start => j == 0,
        SetupStage::MakingDirs { done } => {
            &&& j >= 1
            &&& done < 5
            &&& forall|k: int| 0 <= k < done ==> dir_made(ev, ac, j, #[trigger] setup_dir_path(inp.version@, k))
            &&& pending matches SetupAction::MakeDir(d) && views(d@) == setup_dir_path(inp.version@, done as int)
        },
        SetupStage::FetchingManifest => {
            &&& j >= 1
            &&& forall|k: int| 0 <= k < 5 ==> dir_made(ev, ac, j, #[trigger] setup_dir_path(inp.version@, k))
            &&& is_download(pending, version_manifest_url_spec(), version_json_path(inp.version@))
        },
        SetupStage::FetchingClient => {
            &&& j >= 1
            &&& forall|k: int| 0 <= k < 5 ==> dir_made(ev, ac, j, #[trigger] setup_dir_path(inp.version@, k))
            &&& fetched(ev, ac, j, version_manifest_url_spec(), version_json_path(inp.version@))
            &&& is_download(pending, client_jar_url_spec(), client_jar_path(inp.version@))
        },
        SetupStage::ReadingManifest => j >= 1 && base_done(inp, ev, ac, j),
        SetupStage::FetchingLibraries { natives, index_url } => {
            &&& j >= 1
            &&& base_done(inp, ev, ac, j)
            &&& exists|vf: VersionFile| {
                &&& #[trigger] manifest_read(ev, j, vf)
                &&& tasks_view(natives@) == native_tasks(vf.libraries@)
                &&& index_url@ == vf.asset_index.url@
                &&& pending matches SetupAction::DownloadAll(ts) && tasks_view(ts@) == jar_tasks(vf.libraries@)
            }
        },
        SetupStage::FetchingNatives { natives, index_url, next } => {
            &&& j >= 1
            &&& base_done(inp, ev, ac, j)
            &&& next < natives@.len()
            &&& exists|vf: VersionFile| {
                &&& #[trigger] libraries_done(ev, ac, j, vf, next as int)
                &&& tasks_view(natives@) == native_tasks(vf.libraries@)
                &&& index_url@ == vf.asset_index.url@
            }
            &&& is_download(pending, task_view(natives@[next as int]).0, task_view(natives@[next as int]).1)
        },
        SetupStage::UnpackingNatives { natives, index_url, next } => {
            &&& j >= 1
            &&& base_done(inp, ev, ac, j)
            &&& next < natives@.len()
            &&& exists|vf: VersionFile| {
                &&& #[trigger] libraries_done(ev, ac, j, vf, native_tasks(vf.libraries@).len() as int)
                &&& natives_unpacked(ev, ac, j, vf, next as int)
                &&& tasks_view(natives@) == native_tasks(vf.libraries@)
                &&& index_url@ == vf.asset_index.url@
            }
            &&& pending matches SetupAction::Extract { archive, dest } && views(archive@) == task_view(
                natives@[next as int],
            ).1 && views(dest@) == seq!["natives"@]
        },
        SetupStage::FetchingIndex => {
            &&& j >= 1
            &&& base_done(inp, ev, ac, j)
            &&& exists|vf: VersionFile| {
                &&& #[trigger] libraries_done(ev, ac, j, vf, native_tasks(vf.libraries@).len() as int)
                &&& natives_unpacked(ev, ac, j, vf, native_tasks(vf.libraries@).len() as int)
                &&& is_download(pending, vf.asset_index.url@, asset_index_path(inp.asset_index@))
            }
        },
        SetupStage::ReadingIndex => {
            &&& j >= 1
            &&& base_done(inp, ev, ac, j)
            &&& exists|vf: VersionFile| #[trigger] manifest_done(inp, ev, ac, j, vf)
        },
        SetupStage::FetchingObjects => {
            &&& j >= 1
            &&& base_done(inp, ev, ac, j)
            &&& exists|vf: VersionFile| #[trigger] manifest_done(inp, ev, ac, j, vf)
            &&& exists|idx: AssetIndexFile| #[trigger] index_read(ev, j, idx) && (pending matches SetupAction::DownloadAll(ts)
                && tasks_view(ts@) == object_tasks(idx.objects@))
        },
        SetupStage::MakingJreDir => {
            &&& j >= 1
            &&& files_done(inp, ev, ac, j)
            &&& pending matches SetupAction::MakeDir(d) && views(d@) == seq!["jre"@]
        },
        SetupStage::FindingJre => {
            &&& j >= 1
            &&& files_done(inp, ev, ac, j)
            &&& dir_made(ev, ac, j, seq!["jre"@])
            &&& pending is FindBundledJava
        },
        SetupStage::RecheckingJre => {
            &&& j >= 1
            &&& files_done(inp, ev, ac, j)
            &&& dir_made(ev, ac, j, seq!["jre"@])
            &&& pending is FindBundledJava
        },
        SetupStage::Finished => true,
        _ => j >= 1 && files_done(inp, ev, ac, j) && dir_made(ev, ac, j, seq!["jre"@]),
    }
}

proof fn lemma_later_fetched(ev: Seq<SetupEvent>, ac: Seq<SetupAction>, j: int, url: Seq<char>, dest: Seq<Seq<char>>)
    requires
        fetched(ev, ac, j, url, dest),
    ensures
        fetched(ev, ac, j + 1, url, dest),
{
    let m = choose|m: int| succeeded(ev, m, j) && #[trigger] is_download(ac[m], url, dest);
    assert(succeeded(ev, m, j + 1));
}

proof fn lemma_later_batch(ev: Seq<SetupEvent>, ac: Seq<SetupAction>, j: int, tasks: Seq<(Seq<char>, Seq<Seq<char>>)>)
    requires
        batch_fetched(ev, ac, j, tasks),
    ensures
        batch_fetched(ev, ac, j + 1, tasks),
{
    let m = choose|m: int|
        succeeded(ev, m, j) && (#[trigger] ac[m] matches SetupAction::DownloadAll(ts) && tasks_view(ts@) == tasks);
    assert(succeeded(ev, m, j + 1));
}

proof fn lemma_later_dir(ev: Seq<SetupEvent>, ac: Seq<SetupAction>, j: int, d: Seq<Seq<char>>)
    requires
        dir_made(ev, ac, j, d),
    ensures
        dir_made(ev, ac, j + 1, d),
{
    let m = choose|m: int| succeeded(ev, m, j) && (#[trigger] ac[m] matches SetupAction::MakeDir(x) && views(x@) == d);
    assert(succeeded(ev, m, j + 1));
}

proof fn lemma_later_dirs(inp: SetupInputs, ev: Seq<SetupEvent>, ac: Seq<SetupAction>, j: int, n: int)
    requires
        forall|k: int| 0 <= k < n ==> dir_made(ev, ac, j, #[trigger] setup_dir_path(inp.version@, k)),
    ensures
        forall|k: int| 0 <= k < n ==> dir_made(ev, ac, j + 1, #[trigger] setup_dir_path(inp.version@, k)),
{
    assert forall|k: int| 0 <= k < n implies dir_made(ev, ac, j + 1, #[trigger] setup_dir_path(inp.version@, k)) by {
        lemma_later_dir(ev, ac, j, setup_dir_path(inp.version@, k));
    }
}

proof fn lemma_later_base(inp: SetupInputs, ev: Seq<SetupEvent>, ac: Seq<SetupAction>, j: int)
    requires
        base_done(inp, ev, ac, j),
    ensures
        base_done(inp, ev, ac, j + 1),
{
    lemma_later_dirs(inp, ev, ac, j, 5);
    lemma_later_fetched(ev, ac, j, version_manifest_url_spec(), version_json_path(inp.version@));
    lemma_later_fetched(ev, ac, j, client_jar_url_spec(), client_jar_path(inp.version@));
}

proof fn lemma_later_libraries(ev: Seq<SetupEvent>, ac: Seq<SetupAction>, j: int, vf: VersionFile, n: int)
    requires
        libraries_done(ev, ac, j, vf, n),
    ensures
        libraries_done(ev, ac, j + 1, vf, n),
{
    let m = choose|m: int| 0 <= m < j && #[trigger] ev[m] == SetupEvent::Manifest(Ok(vf));
    assert(0 <= m < j + 1 && ev[m] == SetupEvent::Manifest(Ok(vf)));
    lemma_later_batch(ev, ac, j, jar_tasks(vf.libraries@));
    assert forall|t: int| 0 <= t < n implies fetched(
        ev,
        ac,
        j + 1,
        (#[trigger] native_tasks(vf.libraries@)[t]).0,
        native_tasks(vf.libraries@)[t].1,
    ) by {
        lemma_later_fetched(ev, ac, j, native_tasks(vf.libraries@)[t].0, native_tasks(vf.libraries@)[t].1);
    }
}

proof fn lemma_later_unpacked(ev: Seq<SetupEvent>, ac: Seq<SetupAction>, j: int, vf: VersionFile, n: int)
    requires
        natives_unpacked(ev, ac, j, vf, n),
    ensures
        natives_unpacked(ev, ac, j + 1, vf, n),
{
    assert forall|t: int| 0 <= t < n implies unpacked(ev, ac, j + 1, (#[trigger] native_tasks(vf.libraries@)[t]).1) by {
        let archive = native_tasks(vf.libraries@)[t].1;
        assert(unpacked(ev, ac, j, archive));
        let m = choose|m: int|
            0 <= m && m + 1 < j && m + 1 < ev.len() && (#[trigger] ac[m] matches SetupAction::Extract {
                archive: a,
                dest: d,
            } && views(a@) == archive && views(d@) == seq!["natives"@]);
        assert(0 <= m && m + 1 < j + 1);
    }
}

proof fn lemma_later_manifest(inp: SetupInputs, ev: Seq<SetupEvent>, ac: Seq<SetupAction>, j: int, vf: VersionFile)
    requires
        manifest_done(inp, ev, ac, j, vf),
    ensures
        manifest_done(inp, ev, ac, j + 1, vf),
{
    lemma_later_libraries(ev, ac, j, vf, native_tasks(vf.libraries@).len() as int);
    lemma_later_unpacked(ev, ac, j, vf, native_tasks(vf.libraries@).len() as int);
    lemma_later_fetched(ev, ac, j, vf.asset_index.url@, asset_index_path(inp.asset_index@));
}

proof fn lemma_later_files(inp: SetupInputs, ev: Seq<SetupEvent>, ac: Seq<SetupAction>, j: int)
    requires
        files_done(inp, ev, ac, j),
    ensures
        files_done(inp, ev, ac, j + 1),
{
    lemma_later_base(inp, ev, ac, j);
    let vf = choose|vf: VersionFile| manifest_done(inp, ev, ac, j, vf);
    lemma_later_manifest(inp, ev, ac, j, vf);
    let idx = choose|idx: AssetIndexFile| index_read(ev, j, idx) && batch_fetched(ev, ac, j, object_tasks(idx.objects@));
    let m = choose|m: int| 0 <= m < j && #[trigger] ev[m] == SetupEvent::Index(Ok(idx));
    assert(0 <= m < j + 1 && ev[m] == SetupEvent::Index(Ok(idx)));
    lemma_later_batch(ev, ac, j, object_tasks(idx.objects@));
    assert(index_read(ev, j + 1, idx) && batch_fetched(ev, ac, j + 1, object_tasks(idx.objects@)));
}

/// The step from each stage keeps `run_invariant` (one lemma per stage).
#[verifier::spinoff_prover]
proof fn lemma_step_making_dirs(
    inp: SetupInputs,
    st: Seq<SetupStage>,
    ev: Seq<SetupEvent>,
    ac: Seq<SetupAction>,
    j: int,
    notes: Seq<Seq<char>>,
)
    requires
        st.len() == ev.len() + 1,
        ac.len() == ev.len(),
        0 <= j < ev.len(),
        run_invariant(inp, st, ev, ac, j),
        setup_accepts(st[j], ev[j]),
        setup_transition(inp, st[j], ev[j], st[j + 1], notes, ac[j]),
        st[j] is MakingDirs,
    ensures
        run_invariant(inp, st, ev, ac, j + 1),
{
    let ok = ev[j] matches SetupEvent::Done(r) && r is Ok;
    match st[j] {
        SetupStage::MakingDirs { done } => {
            if ok {
                lemma_later_dirs(inp, ev, ac, j, done as int);
                assert(succeeded(ev, j - 1, j + 1));
                assert(dir_made(ev, ac, j + 1, setup_dir_path(inp.version@, done as int)));
                assert forall|k: int| 0 <= k < done + 1 implies dir_made(
                    ev,
                    ac,
                    j + 1,
                    #[trigger] setup_dir_path(inp.version@, k),
                ) by {
                    if k < done {
                        assert(dir_made(ev, ac, j + 1, setup_dir_path(inp.version@, k)));
                    }
                }
            }
        },
        _ => {},
    }
}

#[verifier::spinoff_prover]
proof fn lemma_step_fetching_manifest(
    inp: SetupInputs,
    st: Seq<SetupStage>,
    ev: Seq<SetupEvent>,
    ac: Seq<SetupAction>,
    j: int,
    notes: Seq<Seq<char>>,
)
    requires
        st.len() == ev.len() + 1,
        ac.len() == ev.len(),
        0 <= j < ev.len(),
        run_invariant(inp, st, ev, ac, j),
        setup_accepts(st[j], ev[j]),
        setup_transition(inp, st[j], ev[j], st[j + 1], notes, ac[j]),
        st[j] is FetchingManifest,
    ensures
        run_invariant(inp, st, ev, ac, j + 1),
{
    let ok = ev[j] matches SetupEvent::Done(r) && r is Ok;
    match st[j] {
        SetupStage::FetchingManifest => {
            if ok {
                lemma_later_dirs(inp, ev, ac, j, 5);
                assert(succeeded(ev, j - 1, j + 1));
                assert(is_download(ac[j - 1], version_manifest_url_spec(), version_json_path(inp.version@)));
            }
        },
        _ => {},
    }
}

#[verifier::spinoff_prover]
proof fn lemma_step_fetching_client(
    inp: SetupInputs,
    st: Seq<SetupStage>,
    ev: Seq<SetupEvent>,
    ac: Seq<SetupAction>,
    j: int,
    notes: Seq<Seq<char>>,
)
    requires
        st.len() == ev.len() + 1,
        ac.len() == ev.len(),
        0 <= j < ev.len(),
        run_invariant(inp, st, ev, ac, j),
        setup_accepts(st[j], ev[j]),
        setup_transition(inp, st[j], ev[j], st[j + 1], notes, ac[j]),
        st[j] is FetchingClient,
    ensures
        run_invariant(inp, st, ev, ac, j + 1),
{
    let ok = ev[j] matches SetupEvent::Done(r) && r is Ok;
    match st[j] {
        SetupStage::FetchingClient => {
            if ok {
                lemma_later_dirs(inp, ev, ac, j, 5);
                lemma_later_fetched(ev, ac, j, version_manifest_url_spec(), version_json_path(inp.version@));
                assert(succeeded(ev, j - 1, j + 1));
                assert(is_download(ac[j - 1], client_jar_url_spec(), client_jar_path(inp.version@)));
            }
        },
        _ => {},
    }
}

#[verifier::spinoff_prover]
proof fn lemma_step_reading_manifest(
    inp: SetupInputs,
    st: Seq<SetupStage>,
    ev: Seq<SetupEvent>,
    ac: Seq<SetupAction>,
    j: int,
    notes: Seq<Seq<char>>,
)
    requires
        st.len() == ev.len() + 1,
        ac.len() == ev.len(),
        0 <= j < ev.len(),
        run_invariant(inp, st, ev, ac, j),
        setup_accepts(st[j], ev[j]),
        setup_transition(inp, st[j], ev[j], st[j + 1], notes, ac[j]),
        st[j] is ReadingManifest,
    ensures
        run_invariant(inp, st, ev, ac, j + 1),
{
    let ok = ev[j] matches SetupEvent::Done(r) && r is Ok;
    match st[j] {
        SetupStage::ReadingManifest => {
            lemma_later_base(inp, ev, ac, j);
            if let SetupEvent::Manifest(Ok(vf)) = ev[j] {
                assert(manifest_read(ev, j + 1, vf));
            }
        },
        _ => {},
    }
}

#[verifier::spinoff_prover]
proof fn lemma_step_fetching_libraries(
    inp: SetupInputs,
    st: Seq<SetupStage>,
    ev: Seq<SetupEvent>,
    ac: Seq<SetupAction>,
    j: int,
    notes: Seq<Seq<char>>,
)
    requires
        st.len() == ev.len() + 1,
        ac.len() == ev.len(),
        0 <= j < ev.len(),
        run_invariant(inp, st, ev, ac, j),
        setup_accepts(st[j], ev[j]),
        setup_transition(inp, st[j], ev[j], st[j + 1], notes, ac[j]),
        st[j] is FetchingLibraries,
    ensures
        run_invariant(inp, st, ev, ac, j + 1),
{
    let ok = ev[j] matches SetupEvent::Done(r) && r is Ok;
    match st[j] {
        SetupStage::FetchingLibraries { natives, index_url } => {
            if ok {
                lemma_later_base(inp, ev, ac, j);
                let vf = choose|vf: VersionFile| {
                    &&& #[trigger] manifest_read(ev, j, vf)
                    &&& tasks_view(natives@) == native_tasks(vf.libraries@)
                    &&& index_url@ == vf.asset_index.url@
                    &&& ac[j - 1] matches SetupAction::DownloadAll(ts) && tasks_view(ts@) == jar_tasks(vf.libraries@)
                };
                let m = choose|m: int| 0 <= m < j && #[trigger] ev[m] == SetupEvent::Manifest(Ok(vf));
                assert(0 <= m < j + 1 && ev[m] == SetupEvent::Manifest(Ok(vf)));
                assert(succeeded(ev, j - 1, j + 1));
                assert(batch_fetched(ev, ac, j + 1, jar_tasks(vf.libraries@)));
                assert(tasks_view(natives@).len() == natives@.len());
                assert(libraries_done(ev, ac, j + 1, vf, 0));
                if natives@.len() == 0 {
                    assert(libraries_done(ev, ac, j + 1, vf, native_tasks(vf.libraries@).len() as int));
                    assert(natives_unpacked(ev, ac, j + 1, vf, native_tasks(vf.libraries@).len() as int));
                }
            }
        },
        _ => {},
    }
}

#[verifier::spinoff_prover]
proof fn lemma_step_fetching_natives(
    inp: SetupInputs,
    st: Seq<SetupStage>,
    ev: Seq<SetupEvent>,
    ac: Seq<SetupAction>,
    j: int,
    notes: Seq<Seq<char>>,
)
    requires
        st.len() == ev.len() + 1,
        ac.len() == ev.len(),
        0 <= j < ev.len(),
        run_invariant(inp, st, ev, ac, j),
        setup_accepts(st[j], ev[j]),
        setup_transition(inp, st[j], ev[j], st[j + 1], notes, ac[j]),
        st[j] is FetchingNatives,
    ensures
        run_invariant(inp, st, ev, ac, j + 1),
{
    let ok = ev[j] matches SetupEvent::Done(r) && r is Ok;
    match st[j] {
        SetupStage::FetchingNatives { natives, index_url, next } => {
            if ok {
                lemma_later_base(inp, ev, ac, j);
                let vf = choose|vf: VersionFile| {
                    &&& #[trigger] libraries_done(ev, ac, j, vf, next as int)
                    &&& tasks_view(natives@) == native_tasks(vf.libraries@)
                    &&& index_url@ == vf.asset_index.url@
                };
                lemma_later_libraries(ev, ac, j, vf, next as int);
                assert(succeeded(ev, j - 1, j + 1));
                assert(tasks_view(natives@)[next as int] == task_view(natives@[next as int]));
                assert(fetched(ev, ac, j + 1, native_tasks(vf.libraries@)[next as int].0, native_tasks(vf.libraries@)[next as int].1));
                assert(tasks_view(natives@).len() == natives@.len());
                assert(libraries_done(ev, ac, j + 1, vf, next + 1));
                assert(natives_unpacked(ev, ac, j + 1, vf, 0));
            }
        },
        _ => {},
    }
}

#[verifier::spinoff_prover]
proof fn lemma_step_unpacking_natives(
    inp: SetupInputs,
    st: Seq<SetupStage>,
    ev: Seq<SetupEvent>,
    ac: Seq<SetupAction>,
    j: int,
    notes: Seq<Seq<char>>,
)
    requires
        st.len() == ev.len() + 1,
        ac.len() == ev.len(),
        0 <= j < ev.len(),
        run_invariant(inp, st, ev, ac, j),
        setup_accepts(st[j], ev[j]),
        setup_transition(inp, st[j], ev[j], st[j + 1], notes, ac[j]),
        st[j] is UnpackingNatives,
    ensures
        run_invariant(inp, st, ev, ac, j + 1),
{
    let ok = ev[j] matches SetupEvent::Done(r) && r is Ok;
    match st[j] {
        SetupStage::UnpackingNatives { natives, index_url, next } => {
            lemma_later_base(inp, ev, ac, j);
            let vf = choose|vf: VersionFile| {
                &&& #[trigger] libraries_done(ev, ac, j, vf, native_tasks(vf.libraries@).len() as int)
                &&& natives_unpacked(ev, ac, j, vf, next as int)
                &&& tasks_view(natives@) == native_tasks(vf.libraries@)
                &&& index_url@ == vf.asset_index.url@
            };
            lemma_later_libraries(ev, ac, j, vf, native_tasks(vf.libraries@).len() as int);
            lemma_later_unpacked(ev, ac, j, vf, next as int);
            assert(tasks_view(natives@)[next as int] == task_view(natives@[next as int]));
            assert(tasks_view(natives@).len() == natives@.len());
            assert(unpacked(ev, ac, j + 1, native_tasks(vf.libraries@)[next as int].1)) by {
                assert(0 <= j - 1 && j < j + 1 && j < ev.len());
                assert(ac[j - 1] matches SetupAction::Extract { archive: a, dest: d } && views(a@)
                    == native_tasks(vf.libraries@)[next as int].1 && views(d@) == seq!["natives"@]);
            }
            assert(natives_unpacked(ev, ac, j + 1, vf, next + 1)) by {
                assert forall|t: int| 0 <= t < next + 1 implies unpacked(
                    ev,
                    ac,
                    j + 1,
                    (#[trigger] native_tasks(vf.libraries@)[t]).1,
                ) by {
                    if t < next {
                        assert(unpacked(ev, ac, j + 1, native_tasks(vf.libraries@)[t].1));
                    }
                }
            }
        },
        _ => {},
    }
}

#[verifier::spinoff_prover]
proof fn lemma_step_fetching_index(
    inp: SetupInputs,
    st: Seq<SetupStage>,
    ev: Seq<SetupEvent>,
    ac: Seq<SetupAction>,
    j: int,
    notes: Seq<Seq<char>>,
)
    requires
        st.len() == ev.len() + 1,
        ac.len() == ev.len(),
        0 <= j < ev.len(),
        run_invariant(inp, st, ev, ac, j),
        setup_accepts(st[j], ev[j]),
        setup_transition(inp, st[j], ev[j], st[j + 1], notes, ac[j]),
        st[j] is FetchingIndex,
    ensures
        run_invariant(inp, st, ev, ac, j + 1),
{
    let ok = ev[j] matches SetupEvent::Done(r) && r is Ok;
    match st[j] {
        SetupStage::FetchingIndex => {
            if ok {
                lemma_later_base(inp, ev, ac, j);
                let vf = choose|vf: VersionFile| {
                    &&& #[trigger] libraries_done(ev, ac, j, vf, native_tasks(vf.libraries@).len() as int)
                    &&& natives_unpacked(ev, ac, j, vf, native_tasks(vf.libraries@).len() as int)
                    &&& is_download(ac[j - 1], vf.asset_index.url@, asset_index_path(inp.asset_index@))
                };
                lemma_later_libraries(ev, ac, j, vf, native_tasks(vf.libraries@).len() as int);
                lemma_later_unpacked(ev, ac, j, vf, native_tasks(vf.libraries@).len() as int);
                assert(succeeded(ev, j - 1, j + 1));
                assert(manifest_done(inp, ev, ac, j + 1, vf));
            }
        },
        _ => {},
    }
}

#[verifier::spinoff_prover]
proof fn lemma_step_reading_index(
    inp: SetupInputs,
    st: Seq<SetupStage>,
    ev: Seq<SetupEvent>,
    ac: Seq<SetupAction>,
    j: int,
    notes: Seq<Seq<char>>,
)
    requires
        st.len() == ev.len() + 1,
        ac.len() == ev.len(),
        0 <= j < ev.len(),
        run_invariant(inp, st, ev, ac, j),
        setup_accepts(st[j], ev[j]),
        setup_transition(inp, st[j], ev[j], st[j + 1], notes, ac[j]),
        st[j] is ReadingIndex,
    ensures
        run_invariant(inp, st, ev, ac, j + 1),
{
    let ok = ev[j] matches SetupEvent::Done(r) && r is Ok;
    match st[j] {
        SetupStage::ReadingIndex => {
            lemma_later_base(inp, ev, ac, j);
            let vf = choose|vf: VersionFile| #[trigger] manifest_done(inp, ev, ac, j, vf);
            lemma_later_manifest(inp, ev, ac, j, vf);
            if let SetupEvent::Index(Ok(idx)) = ev[j] {
                assert(index_read(ev, j + 1, idx));
            }
        },
        _ => {},
    }
}

#[verifier::spinoff_prover]
proof fn lemma_step_fetching_objects(
    inp: SetupInputs,
    st: Seq<SetupStage>,
    ev: Seq<SetupEvent>,
    ac: Seq<SetupAction>,
    j: int,
    notes: Seq<Seq<char>>,
)
    requires
        st.len() == ev.len() + 1,
        ac.len() == ev.len(),
        0 <= j < ev.len(),
        run_invariant(inp, st, ev, ac, j),
        setup_accepts(st[j], ev[j]),
        setup_transition(inp, st[j], ev[j], st[j + 1], notes, ac[j]),
        st[j] is FetchingObjects,
    ensures
        run_invariant(inp, st, ev, ac, j + 1),
{
    let ok = ev[j] matches SetupEvent::Done(r) && r is Ok;
    match st[j] {
        SetupStage::FetchingObjects => {
            if ok {
                lemma_later_base(inp, ev, ac, j);
                let vf = choose|vf: VersionFile| #[trigger] manifest_done(inp, ev, ac, j, vf);
                lemma_later_manifest(inp, ev, ac, j, vf);
                let idx = choose|idx: AssetIndexFile| #[trigger] index_read(ev, j, idx) && (ac[j - 1] matches SetupAction::DownloadAll(
                    ts,
                ) && tasks_view(ts@) == object_tasks(idx.objects@));
                let m = choose|m: int| 0 <= m < j && #[trigger] ev[m] == SetupEvent::Index(Ok(idx));
                assert(0 <= m < j + 1 && ev[m] == SetupEvent::Index(Ok(idx)));
                assert(succeeded(ev, j - 1, j + 1));
                assert(batch_fetched(ev, ac, j + 1, object_tasks(idx.objects@)));
                assert(index_read(ev, j + 1, idx));
                assert(objects_done(ev, ac, j + 1));
            }
        },
        _ => {},
    }
}

#[verifier::spinoff_prover]
proof fn lemma_step_making_jre_dir(
    inp: SetupInputs,
    st: Seq<SetupStage>,
    ev: Seq<SetupEvent>,
    ac: Seq<SetupAction>,
    j: int,
    notes: Seq<Seq<char>>,
)
    requires
        st.len() == ev.len() + 1,
        ac.len() == ev.len(),
        0 <= j < ev.len(),
        run_invariant(inp, st, ev, ac, j),
        setup_accepts(st[j], ev[j]),
        setup_transition(inp, st[j], ev[j], st[j + 1], notes, ac[j]),
        st[j] is MakingJreDir,
    ensures
        run_invariant(inp, st, ev, ac, j + 1),
{
    let ok = ev[j] matches SetupEvent::Done(r) && r is Ok;
    match st[j] {
        SetupStage::MakingJreDir => {
            if ok {
                lemma_later_files(inp, ev, ac, j);
                assert(succeeded(ev, j - 1, j + 1));
                assert(dir_made(ev, ac, j + 1, seq!["jre"@]));
            }
        },
        _ => {},
    }
}

#[verifier::spinoff_prover]
proof fn lemma_step_runtime(
    inp: SetupInputs,
    st: Seq<SetupStage>,
    ev: Seq<SetupEvent>,
    ac: Seq<SetupAction>,
    j: int,
    notes: Seq<Seq<char>>,
)
    requires
        st.len() == ev.len() + 1,
        ac.len() == ev.len(),
        0 <= j < ev.len(),
        run_invariant(inp, st, ev, ac, j),
        setup_accepts(st[j], ev[j]),
        setup_transition(inp, st[j], ev[j], st[j + 1], notes, ac[j]),
        st[j] is FindingJre || st[j] is QueryingRuntimes || st[j] is FetchingJre || st[j] is UnpackingJre
            || st[j] is RemovingArchive || st[j] is RecheckingJre,
    ensures
        run_invariant(inp, st, ev, ac, j + 1),
{
    lemma_later_files(inp, ev, ac, j);
    lemma_later_dir(ev, ac, j, seq!["jre"@]);
}

/// Every step of a run keeps `run_invariant`.
proof fn lemma_run_invariant_step(
    inp: SetupInputs,
    st: Seq<SetupStage>,
    ev: Seq<SetupEvent>,
    ac: Seq<SetupAction>,
    j: int,
)
    requires
        setup_run(inp, st, ev, ac),
        0 <= j < ev.len(),
        run_invariant(inp, st, ev, ac, j),
    ensures
        run_invariant(inp, st, ev, ac, j + 1),
{
    assert(setup_accepts(st[j], ev[j]));
    let notes = choose|notes: Seq<Seq<char>>| #[trigger] setup_transition(inp, st[j], ev[j], st[j + 1], notes, ac[j]);
    assert(setup_transition(inp, st[j], ev[j], st[j + 1], notes, ac[j]));
    if st[j] is MakingDirs {
        lemma_step_making_dirs(inp, st, ev, ac, j, notes);
    } else if st[j] is FetchingManifest {
        lemma_step_fetching_manifest(inp, st, ev, ac, j, notes);
    } else if st[j] is FetchingClient {
        lemma_step_fetching_client(inp, st, ev, ac, j, notes);
    } else if st[j] is ReadingManifest {
        lemma_step_reading_manifest(inp, st, ev, ac, j, notes);
    } else if st[j] is FetchingLibraries {
        lemma_step_fetching_libraries(inp, st, ev, ac, j, notes);
    } else if st[j] is FetchingNatives {
        lemma_step_fetching_natives(inp, st, ev, ac, j, notes);
    } else if st[j] is UnpackingNatives {
        lemma_step_unpacking_natives(inp, st, ev, ac, j, notes);
    } else if st[j] is FetchingIndex {
        lemma_step_fetching_index(inp, st, ev, ac, j, notes);
    } else if st[j] is ReadingIndex {
        lemma_step_reading_index(inp, st, ev, ac, j, notes);
    } else if st[j] is FetchingObjects {
        lemma_step_fetching_objects(inp, st, ev, ac, j, notes);
    } else if st[j] is MakingJreDir {
        lemma_step_making_jre_dir(inp, st, ev, ac, j, notes);
    } else if !(st[j] is Start) {
        lemma_step_runtime(inp, st, ev, ac, j, notes);
    }
}

proof fn lemma_run_invariant(inp: SetupInputs, st: Seq<SetupStage>, ev: Seq<SetupEvent>, ac: Seq<SetupAction>, j: int)
    requires
        setup_run(inp, st, ev, ac),
        0 <= j <= ev.len(),
    ensures
        run_invariant(inp, st, ev, ac, j),
    decreases j,
{
    if j > 0 {
        lemma_run_invariant(inp, st, ev, ac, j - 1);
        lemma_run_invariant_step(inp, st, ev, ac, j - 1);
    }
}

/// Law: a run of setup that ends successfully has created the layout and
/// `jre/`, fetched the version manifest and the client, read a manifest and
/// fetched every library jar and every native package it names, unpacked each
/// of those packages into `natives/`, fetched its asset index, read an asset index and fetched every object it names, and its last
/// search for a bundled runtime found one.
pub proof fn lemma_successful_setup_leaves_everything(
    inp: SetupInputs,
    st: Seq<SetupStage>,
    ev: Seq<SetupEvent>,
    ac: Seq<SetupAction>,
)
    requires
        setup_run(inp, st, ev, ac),
        ac.len() >= 1,
        is_success(ac[ac.len() - 1]),
    ensures
        ({
            let n = ev.len() as int;
            &&& forall|k: int| 0 <= k < 5 ==> dir_made(ev, ac, n, #[trigger] setup_dir_path(inp.version@, k))
            &&& dir_made(ev, ac, n, seq!["jre"@])
            &&& fetched(ev, ac, n, version_manifest_url_spec(), version_json_path(inp.version@))
            &&& fetched(ev, ac, n, client_jar_url_spec(), client_jar_path(inp.version@))
            &&& exists|vf: VersionFile| {
                &&& manifest_read(ev, n, vf)
                &&& batch_fetched(ev, ac, n, jar_tasks(vf.libraries@))
                &&& forall|t: int| 0 <= t < native_tasks(vf.libraries@).len() ==> fetched(
                    ev,
                    ac,
                    n,
                    (#[trigger] native_tasks(vf.libraries@)[t]).0,
                    native_tasks(vf.libraries@)[t].1,
                )
                &&& forall|t: int| 0 <= t < native_tasks(vf.libraries@).len() ==> unpacked(
                    ev,
                    ac,
                    n,
                    (#[trigger] native_tasks(vf.libraries@)[t]).1,
                )
                &&& fetched(ev, ac, n, vf.asset_index.url@, asset_index_path(inp.asset_index@))
            }
            &&& exists|idx: AssetIndexFile| index_read(ev, n, idx) && batch_fetched(ev, ac, n, object_tasks(idx.objects@))
            &&& n >= 2 && ac[n - 2] is FindBundledJava && ev[n - 1] == SetupEvent::Found(true)
        }),
{
    let n = ev.len() as int;
    lemma_run_invariant(inp, st, ev, ac, n - 1);
    assert(setup_accepts(st[n - 1], ev[n - 1]));
    let notes = choose|notes: Seq<Seq<char>>| #[trigger] setup_transition(inp, st[n - 1], ev[n - 1], st[n], notes, ac[n - 1]);
    crate::setup_flow::lemma_setup_succeeds_only_with_a_runtime(inp, st[n - 1], ev[n - 1], st[n], notes, ac[n - 1]);
    lemma_later_files(inp, ev, ac, n - 1);
    lemma_later_dir(ev, ac, n - 1, seq!["jre"@]);
    let vf = choose|vf: VersionFile| manifest_done(inp, ev, ac, n, vf);
    assert(manifest_done(inp, ev, ac, n, vf));
}

} // verus!

//! The course of a game start as a state machine: the program performs each
//! action and reports its outcome as the next event.
use vstd::prelude::*;
use crate::java::{
    answers, candidates, first_true, java_candidates, lemma_first_true, lemma_first_true_is, lemma_resolution_cases,
    next_java_step, no_java_message, opt_view, resolution, JavaStep,
};
use crate::launch::{classpath_spec, launch_args_spec, missing_client_message, not_java8_message, LaunchParams};
use crate::text::views;

verus! {

/// What a game start works from: the resolved settings and the paths of the
/// game directory, rendered by the program.
pub struct LaunchInputs {
    /// The configured Java executable.
    pub cfg_java: String,
    pub username: String,
    pub max_ram_mb: u32,
    pub version: String,
    pub asset_index: String,
    /// The game directory as configured.
    pub game_dir: String,
    /// The client jar, `versions/<version>/<version>.jar`.
    pub client_jar: String,
    /// The `libraries` directory.
    pub libraries_dir: String,
    /// The `natives` directory.
    pub natives_dir: String,
    /// The `assets` directory.
    pub assets_dir: String,
}

/// Where a game start stands.
pub enum LaunchStage {
    Start,
    CheckingClient,
    FindingBundled,
    Resolving { cands: Vec<String>, probes: Vec<bool> },
    Announcing { java: String },
    CheckingJava { java: String },
    CollectingJars { java: String },
    Running,
    Finished,
}

/// What the program is asked to do next.
pub enum LaunchAction {
    /// Report whether the file exists.
    CheckExists(String),
    /// Search `jre/` for a bundled runtime and report its executable.
    FindBundledJava,
    /// Run `<java> -version` and report whether it names Java 8.
    ProbeJava(String),
    /// Show the line to the user.
    Announce(String),
    /// Report every jar below the directory, in listing order, searched depth first.
    CollectJars(String),
    /// Run the game and report how it ended.
    Run { java: String, args: Vec<String> },
    /// The start is over, with this outcome.
    Finish(Result<(), String>),
}

/// The outcome of the last action.
pub enum LaunchEvent {
    /// The start is requested.
    Begin,
    Exists(bool),
    Bundled(Option<String>),
    Probed(bool),
    Shown,
    Jars(Vec<String>),
    Exited(Result<(), String>),
}

/// The event that each stage waits for.
pub open spec fn launch_accepts(stage: LaunchStage, event: LaunchEvent) -> bool {
    match stage {
        LaunchStage::Start => event is Begin,
        LaunchStage::CheckingClient => event is Exists,
        LaunchStage::FindingBundled => event is Bundled,
        LaunchStage::Resolving { cands, probes } => event is Probed && probes@.len() < cands@.len(),
        LaunchStage::Announcing { .. } => event is Shown,
        LaunchStage::CheckingJava { .. } => event is Probed,
        LaunchStage::CollectingJars { .. } => event is Jars,
        LaunchStage::Running => event is Exited,
        LaunchStage::Finished => false,
    }
}

/// The line that reports the runtime chosen.
pub open spec fn java_announcement(java: Seq<char>) -> Seq<char> {
    "[java] 使用: "@ + java
}

/// The step of runtime resolution with candidates `c` and probe results `p`:
/// probe the next candidate, announce or check the runtime chosen, or give up.
pub open spec fn resolve_transition(c: Seq<String>, p: Seq<bool>, s: LaunchStage, a: LaunchAction) -> bool {
    let cv = views(c);
    if first_true(p) >= 0 {
        let j = cv[first_true(p)];
        if j != "java"@ {
            (s matches LaunchStage::Announcing { java } && java@ == j)
                && (a matches LaunchAction::Announce(m) && m@ == java_announcement(j))
        } else {
            (s matches LaunchStage::CheckingJava { java } && java@ == j)
                && (a matches LaunchAction::ProbeJava(x) && x@ == j)
        }
    } else if p.len() < c.len() {
        (s matches LaunchStage::Resolving { cands, probes } && cands@ == c && probes@ == p)
            && (a matches LaunchAction::ProbeJava(x) && x@ == cv[p.len() as int])
    } else if c.len() > 0 {
        (s matches LaunchStage::CheckingJava { java } && java@ == cv[0])
            && (a matches LaunchAction::ProbeJava(x) && x@ == cv[0])
    } else {
        s is Finished && (a matches LaunchAction::Finish(r) && (r matches Err(m) && m@ == no_java_message()))
    }
}

/// The settings of the game's command line, with the class path `cp`.
pub open spec fn params_of(inp: LaunchInputs, cp: Seq<char>, p: LaunchParams) -> bool {
    &&& p.max_ram_mb == inp.max_ram_mb
    &&& p.natives_dir@ == inp.natives_dir@
    &&& p.classpath@ == cp
    &&& p.username@ == inp.username@
    &&& p.version@ == inp.version@
    &&& p.game_dir@ == inp.game_dir@
    &&& p.assets_dir@ == inp.assets_dir@
    &&& p.asset_index@ == inp.asset_index@
}

/// One step of a game start: the client jar must exist; the runtime is
/// resolved (configured path, bundled runtime, then `java`, the first that
/// reports Java 8, else the first candidate) and must report Java 8; the class
/// path is the client jar and every library jar; then the game runs, and its
/// outcome is the start's outcome.
pub open spec fn launch_transition(
    inp: LaunchInputs,
    stage: LaunchStage,
    event: LaunchEvent,
    s: LaunchStage,
    a: LaunchAction,
) -> bool {
    match stage {
        LaunchStage::Start => s is CheckingClient && (a matches LaunchAction::CheckExists(f) && f@
            == inp.client_jar@),
        LaunchStage::CheckingClient => if event == LaunchEvent::Exists(true) {
            s is FindingBundled && a is FindBundledJava
        } else {
            s is Finished && (a matches LaunchAction::Finish(r) && (r matches Err(m) && m@
                == missing_client_message(inp.client_jar@)))
        },
        LaunchStage::FindingBundled => match event {
            LaunchEvent::Bundled(b) => exists|c: Seq<String>|
                views(c) == candidates(inp.cfg_java@, opt_view(b)) && #[trigger] resolve_transition(
                    c,
                    Seq::empty(),
                    s,
                    a,
                ),
            _ => false,
        },
        LaunchStage::Resolving { cands, probes } => match event {
            LaunchEvent::Probed(r) => resolve_transition(cands@, probes@.push(r), s, a),
            _ => false,
        },
        LaunchStage::Announcing { java } => (s matches LaunchStage::CheckingJava { java: j } && j@
            == java@) && (a matches LaunchAction::ProbeJava(x) && x@ == java@),
        LaunchStage::CheckingJava { java } => if event == LaunchEvent::Probed(true) {
            (s matches LaunchStage::CollectingJars { java: j } && j@ == java@) && (a matches LaunchAction::CollectJars(
                d,
            ) && d@ == inp.libraries_dir@)
        } else {
            s is Finished && (a matches LaunchAction::Finish(r) && (r matches Err(m) && m@
                == not_java8_message()))
        },
        LaunchStage::CollectingJars { java } => match event {
            LaunchEvent::Jars(jars) => s is Running && (a matches LaunchAction::Run { java: x, args }
                && x@ == java@ && exists|p: LaunchParams|
                params_of(inp, classpath_spec(inp.client_jar@, views(jars@)), p) && views(args@)
                    == #[trigger] launch_args_spec(p)),
            _ => false,
        },
        LaunchStage::Running => match event {
            LaunchEvent::Exited(r) => s is Finished && a == LaunchAction::Finish(r),
            _ => false,
        },
        LaunchStage::Finished => false,
    }
}

fn copy_string(s: &String) -> (r: String)
    ensures
        r@ == s@,
{
    s.clone()
}

fn resolve_next(cands: Vec<String>, probes: Vec<bool>) -> (r: (LaunchStage, LaunchAction))
    requires
        probes@.len() <= cands@.len(),
    ensures
        resolve_transition(cands@, probes@, r.0, r.1),
{
    let step = next_java_step(&cands, &probes);
    proof {
        reveal_strlit("java");
        assert(views(cands@).len() == cands@.len());
    }
    match step {
        JavaStep::Probe(i) => {
            let x = copy_string(&cands[i]);
            let pl = probes.len();
            assert(i == pl);
            assert(views(cands@)[i as int] == cands@[i as int]@);
            (LaunchStage::Resolving { cands, probes }, LaunchAction::ProbeJava(x))
        },
        JavaStep::Use { java, announce } => {
            if announce {
                let mut m = String::from_str("[java] 使用: ");
                m.append(java.as_str());
                (LaunchStage::Announcing { java }, LaunchAction::Announce(m))
            } else {
                let x = copy_string(&java);
                (LaunchStage::CheckingJava { java }, LaunchAction::ProbeJava(x))
            }
        },
        JavaStep::Missing(m) => (LaunchStage::Finished, LaunchAction::Finish(Err(m))),
    }
}

/// Advances a game start by one step on the outcome of the last action.
pub fn launch_step(inp: &LaunchInputs, stage: LaunchStage, event: LaunchEvent) -> (r: (LaunchStage, LaunchAction))
    requires
        launch_accepts(stage, event),
    ensures
        launch_transition(*inp, stage, event, r.0, r.1),
{
    match stage {
        LaunchStage::Start => (LaunchStage::CheckingClient, LaunchAction::CheckExists(copy_string(&inp.client_jar))),
        LaunchStage::CheckingClient => {
            let exists = match event {
                LaunchEvent::Exists(e) => e,
                _ => false,
            };
            if exists {
                (LaunchStage::FindingBundled, LaunchAction::FindBundledJava)
            } else {
                let m = crate::launch::missing_client_text(inp.client_jar.as_str());
                (LaunchStage::Finished, LaunchAction::Finish(Err(m)))
            }
        },
        LaunchStage::FindingBundled => {
            match event {
                LaunchEvent::Bundled(b) => {
                    let cands = java_candidates(inp.cfg_java.as_str(), b);
                    let ghost cv = cands@;
                    let none: Vec<bool> = Vec::new();
                    assert(none@ =~= Seq::<bool>::empty());
                    let r = resolve_next(cands, none);
                    assert(resolve_transition(cv, Seq::empty(), r.0, r.1));
                    r
                },
                _ => (LaunchStage::Finished, LaunchAction::Finish(Ok(()))), // not reached: the stage accepts no other event
            }
        },
        LaunchStage::Resolving { cands, probes } => {
            match event {
                LaunchEvent::Probed(ok) => {
                    let mut probes = probes;
                    probes.push(ok);
                    resolve_next(cands, probes)
                },
                _ => (LaunchStage::Finished, LaunchAction::Finish(Ok(()))), // not reached: the stage accepts no other event
            }
        },
        LaunchStage::Announcing { java } => {
            let x = copy_string(&java);
            (LaunchStage::CheckingJava { java }, LaunchAction::ProbeJava(x))
        },
        LaunchStage::CheckingJava { java } => {
            let ok = match event {
                LaunchEvent::Probed(b) => b,
                _ => false,
            };
            if ok {
                (LaunchStage::CollectingJars { java }, LaunchAction::CollectJars(copy_string(&inp.libraries_dir)))
            } else {
                (LaunchStage::Finished, LaunchAction::Finish(Err(crate::launch::not_java8_text())))
            }
        },
        LaunchStage::CollectingJars { java } => {
            match event {
                LaunchEvent::Jars(jars) => {
                    let cp = crate::launch::classpath(inp.client_jar.as_str(), &jars);
                    let p = LaunchParams {
                        max_ram_mb: inp.max_ram_mb,
                        natives_dir: copy_string(&inp.natives_dir),
                        classpath: cp,
                        username: copy_string(&inp.username),
                        version: copy_string(&inp.version),
                        game_dir: copy_string(&inp.game_dir),
                        assets_dir: copy_string(&inp.assets_dir),
                        asset_index: copy_string(&inp.asset_index),
                    };
                    let args = crate::launch::launch_args(&p);
                    assert(params_of(*inp, classpath_spec(inp.client_jar@, views(jars@)), p));
                    (LaunchStage::Running, LaunchAction::Run { java, args })
                },
                _ => (LaunchStage::Finished, LaunchAction::Finish(Ok(()))), // not reached: the stage accepts no other event
            }
        },
        LaunchStage::Running => {
            match event {
                LaunchEvent::Exited(r) => (LaunchStage::Finished, LaunchAction::Finish(r)),
                _ => (LaunchStage::Finished, LaunchAction::Finish(Ok(()))), // not reached: the stage accepts no other event
            }
        },
        LaunchStage::Finished => (LaunchStage::Finished, LaunchAction::Finish(Ok(()))), // not reached: the stage accepts no other event
    }
}

/// The client jar was found: every stage after its check but the end.
pub open spec fn client_confirmed(stage: LaunchStage) -> bool {
    !(stage is Start || stage is CheckingClient || stage is Finished)
}

/// The chosen runtime reported Java 8.
pub open spec fn java8_confirmed(stage: LaunchStage) -> bool {
    stage is CollectingJars || stage is Running
}

/// Law: a game start passes the client check and then the Java 8 check before
/// anything else; the game is run only once both passed, and only with the
/// runtime that passed the Java 8 check; its outcome becomes the outcome of
/// the start.
pub proof fn lemma_game_runs_only_after_checks(
    inp: LaunchInputs,
    stage: LaunchStage,
    event: LaunchEvent,
    s: LaunchStage,
    a: LaunchAction,
)
    requires
        launch_accepts(stage, event),
        launch_transition(inp, stage, event, s, a),
    ensures
        client_confirmed(s) && !client_confirmed(stage) ==> stage is CheckingClient && event
            == LaunchEvent::Exists(true),
        java8_confirmed(s) && !java8_confirmed(stage) ==> stage is CheckingJava && event
            == LaunchEvent::Probed(true),
        java8_confirmed(s) ==> client_confirmed(s),
        a is Run ==> stage is CollectingJars && s is Running,
        stage matches LaunchStage::CollectingJars { java } ==> (a matches LaunchAction::Run { java: x, .. }
            && x@ == java@),
        stage matches LaunchStage::CheckingJava { java } ==> (java8_confirmed(s) ==> (s matches LaunchStage::CollectingJars {
            java: j,
        } && j@ == java@)),
        stage is Running ==> (event matches LaunchEvent::Exited(r) && a == LaunchAction::Finish(r)),
{
    if stage is FindingBundled {
        if let LaunchEvent::Bundled(b) = event {
            let c = choose|c: Seq<String>|
                views(c) == candidates(inp.cfg_java@, opt_view(b)) && #[trigger] resolve_transition(
                    c,
                    Seq::empty(),
                    s,
                    a,
                );
            assert(resolve_transition(c, Seq::empty(), s, a));
        }
    }
}

/// Law: when every probe of a runtime gives the same answer `is8`, the
/// runtime that a start announces or checks is the one that `resolution`
/// settles on, whatever the number of probes made before; a start gives up
/// only without candidates.
pub proof fn lemma_chosen_runtime_is_the_resolution(
    c: Seq<String>,
    is8: spec_fn(Seq<char>) -> bool,
    k: nat,
    s: LaunchStage,
    a: LaunchAction,
)
    requires
        k <= c.len(),
        resolve_transition(c, answers(views(c), is8, k), s, a),
    ensures
        s matches LaunchStage::Announcing { java } ==> resolution(views(c), is8) == Some(java@),
        s matches LaunchStage::CheckingJava { java } ==> resolution(views(c), is8) == Some(java@),
        s is Finished ==> c.len() == 0,
{
    let cv = views(c);
    let p = answers(cv, is8, k);
    let full = answers(cv, is8, cv.len());
    lemma_first_true(p);
    lemma_resolution_cases(cv, is8);
    if first_true(p) >= 0 {
        let f = first_true(p);
        assert(is8(cv[f]));
        assert forall|j: int| 0 <= j < f implies !full[j] by {
            assert(!p[j]);
        }
        lemma_first_true_is(full, f);
    } else if k == c.len() && c.len() > 0 {
        assert forall|j: int| 0 <= j < cv.len() implies !is8(#[trigger] cv[j]) by {
            assert(!p[j]);
        }
    }
}

/// Law: once the resolved runtime is checked, a start is refused as "not
/// Java 8" exactly when none of its candidates is Java 8, and otherwise it
/// goes on to collect the library jars; the game is never run from the check.
pub proof fn lemma_start_refused_iff_no_java8(
    inp: LaunchInputs,
    bundled: Option<Seq<char>>,
    is8: spec_fn(Seq<char>) -> bool,
    java: String,
    s: LaunchStage,
    a: LaunchAction,
)
    requires
        resolution(candidates(inp.cfg_java@, bundled), is8) == Some(java@),
        launch_transition(
            inp,
            LaunchStage::CheckingJava { java },
            LaunchEvent::Probed(is8(java@)),
            s,
            a,
        ),
    ensures
        (a matches LaunchAction::Finish(r) && (r matches Err(m) && m@ == not_java8_message())) <==> forall|i: int|
            0 <= i < candidates(inp.cfg_java@, bundled).len() ==> !is8(
                #[trigger] candidates(inp.cfg_java@, bundled)[i],
            ),
        !(a is Run),
        !(a is Finish) ==> a is CollectJars,
{
    crate::java::lemma_resolution_is_java8_iff_some_candidate_is(inp.cfg_java@, bundled, is8);
}

/// Law: a start works offline and writes nothing: at every step it only
/// checks that the client jar exists, searches `jre/`, probes a runtime,
/// shows a line, lists the jars of the `libraries` directory, runs the game
/// with the runtime that passed the Java 8 check, or ends.
pub proof fn lemma_start_works_offline(
    inp: LaunchInputs,
    stage: LaunchStage,
    event: LaunchEvent,
    s: LaunchStage,
    a: LaunchAction,
)
    requires
        launch_accepts(stage, event),
        launch_transition(inp, stage, event, s, a),
    ensures
        match a {
            LaunchAction::CheckExists(f) => f@ == inp.client_jar@,
            LaunchAction::FindBundledJava => true,
            LaunchAction::ProbeJava(_) => true,
            LaunchAction::Announce(_) => true,
            LaunchAction::CollectJars(d) => d@ == inp.libraries_dir@,
            LaunchAction::Run { java, .. } => stage matches LaunchStage::CollectingJars { java: j } && j@
                == java@,
            LaunchAction::Finish(_) => s is Finished,
        },
{
    if stage is FindingBundled {
        if let LaunchEvent::Bundled(b) = event {
            let c = choose|c: Seq<String>|
                views(c) == candidates(inp.cfg_java@, opt_view(b)) && #[trigger] resolve_transition(
                    c,
                    Seq::empty(),
                    s,
                    a,
                );
            assert(resolve_transition(c, Seq::empty(), s, a));
        }
    }
}

/// Law: the game is run with the settings of the start unchanged: the
/// runtime that passed the check, a heap limit whose digits denote exactly the
/// configured size, the natives directory, a class path of the client jar and
/// then every jar listed (separated by `;`), and the configured user name,
/// version, game directory, assets directory and asset index, each right
/// after its flag.
pub proof fn lemma_game_runs_with_the_settings(
    inp: LaunchInputs,
    java: String,
    jars: Vec<String>,
    s: LaunchStage,
    a: LaunchAction,
)
    requires
        launch_transition(inp, LaunchStage::CollectingJars { java }, LaunchEvent::Jars(jars), s, a),
    ensures
        a matches LaunchAction::Run { java: x, args } && x@ == java@ && ({
            let v = views(args@);
            &&& v.len() == 27
            &&& v[0].take(4) == "-Xmx"@ && v[0].last() == 'M'
            &&& crate::text::digits_value(v[0].subrange(4, v[0].len() - 1)) == inp.max_ram_mb
            &&& v[5] == "-Djava.library.path="@ + inp.natives_dir@
            &&& v[6] == "-cp"@
            &&& v[7] == crate::text::seq_join(seq![inp.client_jar@] + views(jars@), ";"@)
            &&& v[9] == "--username"@ && v[10] == inp.username@
            &&& v[11] == "--version"@ && v[12] == inp.version@
            &&& v[13] == "--gameDir"@ && v[14] == inp.game_dir@
            &&& v[15] == "--assetsDir"@ && v[16] == inp.assets_dir@
            &&& v[17] == "--assetIndex"@ && v[18] == inp.asset_index@
        }),
{
    if let LaunchAction::Run { java: x, args } = a {
        let p = choose|p: LaunchParams|
            params_of(inp, classpath_spec(inp.client_jar@, views(jars@)), p) && views(args@)
                == #[trigger] launch_args_spec(p);
        crate::launch::lemma_launch_args_carry_settings(p);
    }
}

} // verus!

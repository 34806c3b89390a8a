//! Choosing the Java runtime: the candidates and the order in which they are
//! tried, how a `java -version` report is read, and where a bundled runtime
//! under `jre/` is looked for.
use vstd::prelude::*;
use vstd::utf8::{decode_utf8, valid_utf8};
use crate::text::{seq_contains, str_contains};

verus! {

/// The text that `String::from_utf8_lossy` makes of `bytes`: valid UTF-8 is
/// decoded, every invalid sequence becomes U+FFFD.
pub uninterp spec fn utf8_lossy(bytes: Seq<u8>) -> Seq<char>;

/// Trusted: `String::from_utf8_lossy` (std). Its result is named
/// `utf8_lossy(bytes)`; for valid UTF-8 it is the decoded text, as the
/// documentation states. What it makes of invalid input is left to the name.
#[verifier::external_body]
fn lossy_text(bytes: &[u8]) -> (r: String)
    ensures
        r@ == utf8_lossy(bytes@),
        valid_utf8(bytes@) ==> r@ == decode_utf8(bytes@),
{
    String::from_utf8_lossy(bytes).into_owned()
}

/// The marker of a Java 8 runtime in its version report.
pub open spec fn java8_marker() -> Seq<char> {
    "1.8"@
}

/// Whether a `java -version` report names Java 8: it contains `1.8`.
pub fn output_mentions_java8(text: &str) -> (r: bool)
    ensures
        r == seq_contains(text@, java8_marker()),
{
    proof {
        reveal_strlit("1.8");
    }
    str_contains(text, "1.8")
}

/// Whether the output of `java -version` (standard output, then standard
/// error, each read as lossy UTF-8) names Java 8.
pub fn java_reports_version_8(stdout: &[u8], stderr: &[u8]) -> (r: bool)
    ensures
        r == seq_contains(utf8_lossy(stdout@) + utf8_lossy(stderr@), java8_marker()),
{
    let mut text = lossy_text(stdout);
    let err = lossy_text(stderr);
    text.append(err.as_str());
    output_mentions_java8(text.as_str())
}

/// A configured Java path is a candidate of its own unless it is empty or the
/// plain `java`.
pub open spec fn configured_is_candidate(cfg_java: Seq<char>) -> bool {
    cfg_java.len() != 0 && cfg_java != "java"@
}

/// The runtimes to try, in order: the configured path (when it is one), the
/// bundled runtime (when one was found), then `java` from the system path.
pub open spec fn candidates(cfg_java: Seq<char>, bundled: Option<Seq<char>>) -> Seq<Seq<char>> {
    (if configured_is_candidate(cfg_java) { seq![cfg_java] } else { Seq::empty() })
        + (match bundled {
        Some(b) => seq![b],
        None => Seq::empty(),
    }) + seq!["java"@]
}

/// The view of an optional string.
pub open spec fn opt_view(o: Option<String>) -> Option<Seq<char>> {
    match o {
        Some(s) => Some(s@),
        None => None,
    }
}

/// The runtimes to try, in order.
pub fn java_candidates(cfg_java: &str, bundled: Option<String>) -> (cands: Vec<String>)
    ensures
        crate::text::views(cands@) == candidates(cfg_java@, opt_view(bundled)),
        cfg_java@.len() != 0 && cfg_java@ != "java"@ ==> cands@[0]@ == cfg_java@,
        cands@.len() >= 1 && cands@[cands@.len() - 1]@ == "java"@,
{
    proof {
        reveal_strlit("java");
    }
    let mut cands: Vec<String> = Vec::new();
    let is_plain = crate::text::str_equal(cfg_java, "java");
    if cfg_java.unicode_len() != 0 && !is_plain {
        cands.push(String::from_str(cfg_java));
    }
    let ghost bv = opt_view(bundled);
    match bundled {
        Some(b) => cands.push(b),
        None => {},
    }
    cands.push(String::from_str("java"));
    assert(crate::text::views(cands@) =~= candidates(cfg_java@, bv));
    proof {
        lemma_candidate_order(cfg_java@, bv);
        assert(crate::text::views(cands@)[0] == cands@[0]@);
        assert(crate::text::views(cands@)[cands@.len() - 1] == cands@[cands@.len() - 1]@);
    }
    cands
}

/// Law: the runtimes are tried in the documented order. A configured Java
/// that is not empty and not the plain `java` is tried first; a bundled
/// runtime comes right after it (first when no Java is configured); `java`
/// from the system path is tried last; there are no other candidates.
pub proof fn lemma_candidate_order(cfg_java: Seq<char>, bundled: Option<Seq<char>>)
    ensures
        cfg_java.len() != 0 && cfg_java != "java"@ ==> candidates(cfg_java, bundled)[0] == cfg_java,
        bundled matches Some(b) ==> candidates(cfg_java, bundled)[if cfg_java.len() != 0 && cfg_java != "java"@ {
            1int
        } else {
            0int
        }] == b,
        candidates(cfg_java, bundled).len() == (if cfg_java.len() != 0 && cfg_java != "java"@ { 1int } else { 0int })
            + (if bundled is Some { 1int } else { 0int }) + 1,
        candidates(cfg_java, bundled).last() == "java"@,
{
}

/// What to do next while resolving the runtime.
pub enum JavaStep {
    /// Run `java -version` with the candidate at this index and report whether it is Java 8.
    Probe(usize),
    /// Use this runtime; `announce` tells whether its choice is reported to the user.
    Use { java: String, announce: bool },
    /// No runtime can be used; the message says why.
    Missing(String),
}

/// Index of the first `true` in `probes`, or `-1`.
pub open spec fn first_true(probes: Seq<bool>) -> int
    decreases probes.len(),
{
    if probes.len() == 0 {
        -1
    } else if probes[0] {
        0
    } else if first_true(probes.drop_first()) == -1 {
        -1
    } else {
        first_true(probes.drop_first()) + 1
    }
}

/// `first_true` is `-1` or the index of a `true` with only `false` before it.
pub proof fn lemma_first_true(probes: Seq<bool>)
    ensures
        -1 <= first_true(probes) < probes.len(),
        first_true(probes) >= 0 ==> probes[first_true(probes)],
        forall|j: int| 0 <= j < probes.len() && (first_true(probes) == -1 || j < first_true(probes)) ==> !probes[j],
    decreases probes.len(),
{
    if probes.len() > 0 && !probes[0] {
        lemma_first_true(probes.drop_first());
        assert forall|j: int| 0 <= j < probes.len() && (first_true(probes) == -1 || j < first_true(probes)) implies !probes[j] by {
            if j > 0 {
                assert(probes.drop_first()[j - 1] == probes[j]);
            }
        }
    }
}

/// The message given when there is no runtime to try.
pub open spec fn no_java_message() -> Seq<char> {
    "未找到任何 Java 运行环境。请安装 Java 8，或在 config.toml 的 java 字段指定路径，或运行 `mclaunch setup` 下载捆绑 JRE。"@
}

/// The step after probing the first `probes.len()` candidates: the first
/// candidate found to be Java 8 is used (announced unless it is the plain
/// `java`); until one is found, the next candidate is probed; when all were
/// probed without success, the first candidate is used anyway; with no
/// candidate at all there is nothing to use.
pub open spec fn java_step_spec(cands: Seq<Seq<char>>, probes: Seq<bool>, step: JavaStep) -> bool {
    if first_true(probes) >= 0 {
        step matches JavaStep::Use { java, announce }
            && java@ == cands[first_true(probes)]
            && announce == (cands[first_true(probes)] != "java"@)
    } else if probes.len() < cands.len() {
        step == JavaStep::Probe(probes.len() as usize)
    } else if cands.len() > 0 {
        step matches JavaStep::Use { java, announce } && java@ == cands[0] && !announce
    } else {
        step matches JavaStep::Missing(m) && m@ == no_java_message()
    }
}

/// Decides the next step of runtime resolution from the candidates and the
/// outcomes of the probes made so far (`probes[i]` for `cands[i]`).
pub fn next_java_step(cands: &Vec<String>, probes: &Vec<bool>) -> (step: JavaStep)
    requires
        probes@.len() <= cands@.len(),
    ensures
        java_step_spec(crate::text::views(cands@), probes@, step),
{
    proof {
        lemma_first_true(probes@);
        reveal_strlit("java");
        reveal_strlit("未找到任何 Java 运行环境。请安装 Java 8，或在 config.toml 的 java 字段指定路径，或运行 `mclaunch setup` 下载捆绑 JRE。");
    }
    let ghost cv = crate::text::views(cands@);
    let n = probes.len();
    let mut i: usize = 0;
    while i < n
        invariant
            n == probes@.len(),
            n <= cands@.len(),
            i <= n,
            cv == crate::text::views(cands@),
            forall|j: int| 0 <= j < i ==> !probes@[j],
            -1 <= first_true(probes@) < probes@.len(),
            first_true(probes@) >= 0 ==> probes@[first_true(probes@)],
            forall|j: int| 0 <= j < probes@.len() && (first_true(probes@) == -1 || j < first_true(probes@)) ==> !probes@[j],
        decreases n - i,
    {
        if probes[i] {
            assert(first_true(probes@) == i);
            let c = cands[i].clone();
            let plain = String::from_str("java");
            let announce = !(c == plain);
            assert(cv[i as int] == c@);
            return JavaStep::Use { java: c, announce };
        }
        i = i + 1;
    }
    assert(first_true(probes@) == -1);
    if n < cands.len() {
        JavaStep::Probe(n)
    } else if cands.len() > 0 {
        let c = cands[0].clone();
        assert(cv[0] == c@);
        JavaStep::Use { java: c, announce: false }
    } else {
        JavaStep::Missing(String::from_str("未找到任何 Java 运行环境。请安装 Java 8，或在 config.toml 的 java 字段指定路径，或运行 `mclaunch setup` 下载捆绑 JRE。"))
    }
}

/// Law: with the candidates the launcher builds, resolution never reports a
/// missing runtime, and the configured path (when it is a candidate) is the first
/// one tried.
pub proof fn lemma_resolution_always_finds_a_candidate(
    cfg_java: Seq<char>,
    bundled: Option<Seq<char>>,
    probes: Seq<bool>,
    step: JavaStep,
)
    requires
        probes.len() <= candidates(cfg_java, bundled).len(),
        java_step_spec(candidates(cfg_java, bundled), probes, step),
    ensures
        !(step is Missing),
        candidates(cfg_java, bundled).last() == "java"@,
        configured_is_candidate(cfg_java) ==> candidates(cfg_java, bundled)[0] == cfg_java,
        !configured_is_candidate(cfg_java) && bundled is Some ==> candidates(cfg_java, bundled)[0]
            == bundled->0,
{
    let c = candidates(cfg_java, bundled);
    assert(c.len() >= 1);
}

/// Law: resolution ends after at most one probe per candidate, and every
/// candidate before the one that is used was probed and found not to be Java 8.
pub proof fn lemma_resolution_prefers_earlier_java8(
    cands: Seq<Seq<char>>,
    probes: Seq<bool>,
    step: JavaStep,
)
    requires
        cands.len() <= usize::MAX,
        probes.len() <= cands.len(),
        java_step_spec(cands, probes, step),
    ensures
        step matches JavaStep::Probe(i) ==> i == probes.len() && i < cands.len(),
        step matches JavaStep::Use { java, announce } ==> (exists|k: int|
            0 <= k < cands.len() && java@ == cands[k] && (probes.len() > k && probes[k]
                || k == 0 && probes.len() == cands.len())
                && forall|j: int| 0 <= j < k ==> !probes[j]),
{
    lemma_first_true(probes);
    if first_true(probes) >= 0 {
        let k = first_true(probes);
        assert(0 <= k < cands.len());
    }
}

/// A `true` with only `false` before it is the first `true`.
pub proof fn lemma_first_true_is(probes: Seq<bool>, i: int)
    requires
        0 <= i < probes.len(),
        probes[i],
        forall|j: int| 0 <= j < i ==> !probes[j],
    ensures
        first_true(probes) == i,
{
    lemma_first_true(probes);
    if first_true(probes) == -1 || first_true(probes) > i {
        assert(!probes[i]);
    }
    if 0 <= first_true(probes) < i {
        assert(!probes[first_true(probes)]);
    }
}

proof fn lemma_first_true_none(probes: Seq<bool>)
    requires
        forall|j: int| 0 <= j < probes.len() ==> !probes[j],
    ensures
        first_true(probes) == -1,
{
    lemma_first_true(probes);
    if first_true(probes) >= 0 {
        assert(!probes[first_true(probes)]);
    }
}

/// The answers of the first `k` probes when `is8` tells, for each runtime,
/// whether its version report names Java 8.
pub open spec fn answers(cands: Seq<Seq<char>>, is8: spec_fn(Seq<char>) -> bool, k: nat) -> Seq<bool> {
    Seq::new(k, |i: int| is8(cands[i]))
}

/// The runtime that resolution settles on when every probe of a runtime `c`
/// answers `is8(c)`: the first candidate that is Java 8, else the first
/// candidate; nothing without candidates.
pub open spec fn resolution(cands: Seq<Seq<char>>, is8: spec_fn(Seq<char>) -> bool) -> Option<Seq<char>> {
    let f = first_true(answers(cands, is8, cands.len()));
    if f >= 0 {
        Some(cands[f])
    } else if cands.len() > 0 {
        Some(cands[0])
    } else {
        None
    }
}

/// What resolution settles on, with and without a candidate that is Java 8.
pub proof fn lemma_resolution_cases(cands: Seq<Seq<char>>, is8: spec_fn(Seq<char>) -> bool)
    ensures
        (exists|i: int| 0 <= i < cands.len() && is8(#[trigger] cands[i])) ==> {
            let f = first_true(answers(cands, is8, cands.len()));
            &&& 0 <= f < cands.len()
            &&& resolution(cands, is8) == Some(cands[f])
            &&& is8(cands[f])
            &&& forall|j: int| 0 <= j < f ==> !is8(#[trigger] cands[j])
        },
        (forall|i: int| 0 <= i < cands.len() ==> !is8(#[trigger] cands[i])) && cands.len() > 0
            ==> resolution(cands, is8) == Some(cands[0]),
{
    let a = answers(cands, is8, cands.len());
    lemma_first_true(a);
    if exists|i: int| 0 <= i < cands.len() && is8(#[trigger] cands[i]) {
        let i = choose|i: int| 0 <= i < cands.len() && is8(#[trigger] cands[i]);
        assert(a[i]);
        assert forall|j: int| 0 <= j < first_true(a) implies !is8(#[trigger] cands[j]) by {
            assert(!a[j]);
        }
    }
    if forall|i: int| 0 <= i < cands.len() ==> !is8(#[trigger] cands[i]) {
        assert forall|j: int| 0 <= j < a.len() implies !a[j] by {
            assert(!is8(cands[j]));
        }
        lemma_first_true_none(a);
    }
}

/// Law: when every probe of a runtime gives the same answer, the runtime
/// chosen by the steps of resolution is `resolution(cands, is8)`, whatever
/// the number of probes made before the choice.
pub proof fn lemma_steps_choose_the_resolution(
    cands: Seq<Seq<char>>,
    is8: spec_fn(Seq<char>) -> bool,
    k: nat,
    step: JavaStep,
)
    requires
        k <= cands.len(),
        java_step_spec(cands, answers(cands, is8, k), step),
    ensures
        step matches JavaStep::Use { java, .. } ==> resolution(cands, is8) == Some(java@),
        step is Missing ==> cands.len() == 0,
{
    let p = answers(cands, is8, k);
    let full = answers(cands, is8, cands.len());
    lemma_first_true(p);
    lemma_resolution_cases(cands, is8);
    if first_true(p) >= 0 {
        let f = first_true(p);
        assert(is8(cands[f]));
        assert forall|j: int| 0 <= j < f implies !full[j] by {
            assert(!p[j]);
        }
        lemma_first_true_is(full, f);
    } else if k == cands.len() && cands.len() > 0 {
        assert forall|j: int| 0 <= j < cands.len() implies !is8(#[trigger] cands[j]) by {
            assert(!p[j]);
        }
    }
}

/// Law: resolution is stable: with the same bundled runtime and the same
/// answers, configuring the runtime that resolution chose makes resolution
/// choose it again.
pub proof fn lemma_resolution_is_stable(
    cfg_java: Seq<char>,
    bundled: Option<Seq<char>>,
    is8: spec_fn(Seq<char>) -> bool,
)
    ensures
        resolution(candidates(cfg_java, bundled), is8) is Some,
        resolution(candidates(resolution(candidates(cfg_java, bundled), is8)->0, bundled), is8)
            == resolution(candidates(cfg_java, bundled), is8),
{
    let c1 = candidates(cfg_java, bundled);
    lemma_resolution_cases(c1, is8);
    let r = resolution(c1, is8)->0;
    let c2 = candidates(r, bundled);
    lemma_resolution_cases(c2, is8);
    let pre1: Seq<Seq<char>> = if configured_is_candidate(cfg_java) { seq![cfg_java] } else { Seq::empty() };
    let mid: Seq<Seq<char>> = match bundled {
        Some(b) => seq![b],
        None => Seq::empty(),
    };
    let pre2: Seq<Seq<char>> = if configured_is_candidate(r) { seq![r] } else { Seq::empty() };
    assert(c1 == pre1 + mid + seq!["java"@]);
    assert(c2 == pre2 + mid + seq!["java"@]);
    if exists|i: int| 0 <= i < c1.len() && is8(#[trigger] c1[i]) {
        let f = first_true(answers(c1, is8, c1.len()));
        assert(is8(r));
        if configured_is_candidate(r) {
            assert(c2[0] == r);
            assert(exists|i: int| 0 <= i < c2.len() && is8(#[trigger] c2[i]));
            lemma_first_true_is(answers(c2, is8, c2.len()), 0);
        } else if mid.len() == 1 && is8(mid[0]) {
            // the bundled runtime is Java 8, so it came no later than `r` in `c1`
            let bi = pre1.len() as int;
            assert(c1[bi] == mid[0]);
            assert(f <= bi);
            if f < bi {
                assert(f == 0 && c1[0] == cfg_java);
                assert(false);
            }
            assert(c2[0] == mid[0]);
            lemma_first_true_is(answers(c2, is8, c2.len()), 0);
        } else {
            let last = c2.len() - 1;
            assert(c2[last] == "java"@);
            if r == "java"@ {
                assert forall|j: int| 0 <= j < last implies !(#[trigger] answers(c2, is8, c2.len()))[j] by {
                    assert(c2[j] == mid[j]);
                }
                lemma_first_true_is(answers(c2, is8, c2.len()), last);
            } else {
                // `r` is empty: it can only be the bundled runtime
                assert(r.len() == 0);
                if f < pre1.len() {
                    assert(c1[f] == cfg_java);
                    assert(false);
                }
                if f == c1.len() - 1 {
                    assert(c1[f] == "java"@);
                    assert(false);
                }
                assert(c1[f] == mid[0]);
                assert(false);
            }
        }
    } else {
        assert(r == c1[0]);
        assert forall|i: int| 0 <= i < c2.len() implies !is8(#[trigger] c2[i]) by {
            if i < pre2.len() {
                assert(c2[i] == r);
                assert(!is8(c1[0]));
            } else if i < pre2.len() + mid.len() {
                assert(c2[i] == mid[0]);
                assert(c1[pre1.len() as int] == mid[0]);
                assert(!is8(c1[pre1.len() as int]));
            } else {
                assert(c2[i] == "java"@);
                assert(c1[c1.len() - 1] == "java"@);
                assert(!is8(c1[c1.len() - 1]));
            }
        }
        if !configured_is_candidate(r) {
            if pre1.len() == 1 {
                assert(c1[0] == cfg_java);
                assert(false);
            }
            assert(c2[0] == c1[0]);
        }
    }
}

/// Law: a start is refused as "not Java 8" exactly when no candidate is
/// Java 8: the runtime resolution settles on is Java 8 if and only if some
/// candidate is.
pub proof fn lemma_resolution_is_java8_iff_some_candidate_is(
    cfg_java: Seq<char>,
    bundled: Option<Seq<char>>,
    is8: spec_fn(Seq<char>) -> bool,
)
    ensures
        is8(resolution(candidates(cfg_java, bundled), is8)->0) <==> exists|i: int|
            0 <= i < candidates(cfg_java, bundled).len() && is8(#[trigger] candidates(cfg_java, bundled)[i]),
{
    let c = candidates(cfg_java, bundled);
    lemma_resolution_cases(c, is8);
    assert(c.len() > 0);
    if !(exists|i: int| 0 <= i < c.len() && is8(#[trigger] c[i])) {
        assert(!is8(c[0]));
    }
}

/// A directory entry of a sub-directory of `jre/`, as far as the search reads it.
pub struct JreChild {
    pub is_dir: bool,
    /// `bin/java.exe` exists under it.
    pub has_java: bool,
}

/// An entry of `jre/`: whether it is a directory, whether `bin/java.exe` exists
/// under it, and the entries it holds.
pub struct JreEntry {
    pub is_dir: bool,
    pub has_java: bool,
    pub children: Vec<JreChild>,
}

/// Index of the first child that is a directory holding `bin/java.exe`.
pub open spec fn first_child_with_java(cs: Seq<JreChild>) -> Option<int>
    decreases cs.len(),
{
    if cs.len() == 0 {
        None
    } else if cs[0].is_dir && cs[0].has_java {
        Some(0)
    } else {
        match first_child_with_java(cs.drop_first()) {
            Some(j) => Some(j + 1),
            None => None,
        }
    }
}

/// Where an entry of `jre/` yields a runtime: in itself (`Some(None)`), in its
/// child at an index (`Some(Some(j))`), or nowhere. Only directories are searched.
pub open spec fn entry_java(e: JreEntry) -> Option<Option<int>> {
    if !e.is_dir {
        None
    } else if e.has_java {
        Some(None)
    } else {
        match first_child_with_java(e.children@) {
            Some(j) => Some(Some(j)),
            None => None,
        }
    }
}

/// The bundled runtime found by a search of `jre/` in listing order: the
/// first entry that yields one.
pub open spec fn bundled_java_spec(es: Seq<JreEntry>, r: Option<(usize, Option<usize>)>) -> bool {
    match r {
        Some((i, c)) => {
            &&& i < es.len()
            &&& entry_java(es[i as int]) == Some(match c {
                Some(j) => Some(j as int),
                None => None::<int>,
            })
            &&& forall|k: int| 0 <= k < i ==> entry_java(#[trigger] es[k]) is None
        },
        None => forall|k: int| 0 <= k < es.len() ==> entry_java(#[trigger] es[k]) is None,
    }
}

fn child_with_java(cs: &Vec<JreChild>) -> (r: Option<usize>)
    ensures
        match r {
            Some(j) => first_child_with_java(cs@) == Some(j as int),
            None => first_child_with_java(cs@) is None,
        },
{
    let n = cs.len();
    let mut j: usize = 0;
    assert(cs@.skip(0) =~= cs@);
    while j < n
        invariant
            n == cs@.len(),
            j <= n,
            first_child_with_java(cs@) == match first_child_with_java(cs@.skip(j as int)) {
                Some(k) => Some(k + j),
                None => None,
            },
        decreases n - j,
    {
        assert(cs@.skip(j as int)[0] == cs@[j as int]);
        assert(cs@.skip(j as int).drop_first() =~= cs@.skip(j + 1));
        if cs[j].is_dir && cs[j].has_java {
            return Some(j);
        }
        j = j + 1;
    }
    assert(cs@.skip(j as int).len() == 0);
    None
}

/// Searches a listing of `jre/` for a bundled runtime: the entry (and, when the
/// runtime lies one level deeper, the child) whose `bin/java.exe` is used.
pub fn find_bundled_java(entries: &Vec<JreEntry>) -> (r: Option<(usize, Option<usize>)>)
    ensures
        bundled_java_spec(entries@, r),
{
    let n = entries.len();
    let mut i: usize = 0;
    while i < n
        invariant
            n == entries@.len(),
            i <= n,
            forall|k: int| 0 <= k < i ==> entry_java(#[trigger] entries@[k]) is None,
        decreases n - i,
    {
        let e = &entries[i];
        if e.is_dir {
            if e.has_java {
                return Some((i, None));
            }
            match child_with_java(&e.children) {
                Some(j) => {
                    return Some((i, Some(j)));
                },
                None => {},
            }
        }
        i = i + 1;
    }
    None
}

} // verus!

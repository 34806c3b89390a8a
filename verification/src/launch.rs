//! Starting the game: the messages of the checks made before the start, the class
//! path, the search for library jars and the command line given to the Java runtime.
use vstd::prelude::*;
use crate::text::{decimal, seq_join, views};

verus! {

/// The message given when the client jar is missing; `path` is where it was expected.
pub open spec fn missing_client_message(path: Seq<char>) -> Seq<char> {
    "找不到客户端 "@ + path + "。请先运行 `mclaunch setup` 下载离线资源。"@
}

/// The message given when the client jar at `client_path` is missing.
pub fn missing_client_text(client_path: &str) -> (m: String)
    ensures
        m@ == missing_client_message(client_path@),
{
    let mut m = String::from_str("找不到客户端 ");
    m.append(client_path);
    m.append("。请先运行 `mclaunch setup` 下载离线资源。");
    m
}

/// The message given when the chosen runtime is not Java 8.
pub open spec fn not_java8_message() -> Seq<char> {
    "找到的 Java 不是 8（1.8.x 必须 Java 8）。请在 config.toml 的 java 字段指向 Java 8，或运行 `mclaunch setup` 下载捆绑 JRE。"@
}

/// The message given when the chosen runtime is not Java 8.
pub fn not_java8_text() -> (m: String)
    ensures
        m@ == not_java8_message(),
{
    String::from_str("找到的 Java 不是 8（1.8.x 必须 Java 8）。请在 config.toml 的 java 字段指向 Java 8，或运行 `mclaunch setup` 下载捆绑 JRE。")
}

/// The class path: the client jar, then every library jar, separated by `;`.
pub open spec fn classpath_spec(client_jar: Seq<char>, jars: Seq<Seq<char>>) -> Seq<char> {
    seq_join(seq![client_jar] + jars, ";"@)
}

/// The class path: the client jar, then every library jar, separated by `;`.
pub fn classpath(client_jar: &str, jars: &Vec<String>) -> (cp: String)
    ensures
        cp@ == classpath_spec(client_jar@, views(jars@)),
{
    let mut parts: Vec<String> = Vec::new();
    parts.push(String::from_str(client_jar));
    let n = jars.len();
    let mut i: usize = 0;
    while i < n
        invariant
            n == jars@.len(),
            i <= n,
            views(parts@) == seq![client_jar@] + views(jars@).take(i as int),
        decreases n - i,
    {
        let ghost before = parts@;
        parts.push(jars[i].clone());
        assert(views(parts@) =~= views(before).push(jars@[i as int]@));
        assert(views(parts@) =~= seq![client_jar@] + views(jars@).take(i + 1));
        i = i + 1;
    }
    assert(views(jars@).take(n as int) =~= views(jars@));
    proof {
        reveal_strlit(";");
    }
    crate::text::join(&parts, ";")
}

/// The settings that go into the game's command line.
pub struct LaunchParams {
    /// Maximum heap size in MiB.
    pub max_ram_mb: u32,
    /// Directory of the unpacked native libraries.
    pub natives_dir: String,
    /// The class path.
    pub classpath: String,
    pub username: String,
    pub version: String,
    pub game_dir: String,
    pub assets_dir: String,
    pub asset_index: String,
}

/// The arguments given to the Java runtime to start the game offline.
pub open spec fn launch_args_spec(p: LaunchParams) -> Seq<Seq<char>> {
    seq![
        "-Xmx"@ + decimal(p.max_ram_mb as nat) + "M"@,
        "-XX:+UseConcMarkSweepGC"@,
        "-XX:+CMSIncrementalMode"@,
        "-XX:-UseAdaptiveSizePolicy"@,
        "-Xmn128M"@,
        "-Djava.library.path="@ + p.natives_dir@,
        "-cp"@,
        p.classpath@,
        "net.minecraft.client.main.Main"@,
        "--username"@,
        p.username@,
        "--version"@,
        p.version@,
        "--gameDir"@,
        p.game_dir@,
        "--assetsDir"@,
        p.assets_dir@,
        "--assetIndex"@,
        p.asset_index@,
        "--uuid"@,
        "00000000-0000-0000-0000-000000000000"@,
        "--accessToken"@,
        "null"@,
        "--userProperties"@,
        "{}"@,
        "--userType"@,
        "mojang"@,
    ]
}

fn lit(s: &str) -> (r: String)
    ensures
        r@ == s@,
{
    String::from_str(s)
}

/// The arguments given to the Java runtime to start the game offline.
pub fn launch_args(p: &LaunchParams) -> (args: Vec<String>)
    ensures
        views(args@) == launch_args_spec(*p),
{
    let mut xmx = lit("-Xmx");
    let ram = crate::text::decimal_string(p.max_ram_mb as u64);
    xmx.append(ram.as_str());
    xmx.append("M");
    let mut libpath = lit("-Djava.library.path=");
    libpath.append(p.natives_dir.as_str());
    let args = vec![
        xmx,
        lit("-XX:+UseConcMarkSweepGC"),
        lit("-XX:+CMSIncrementalMode"),
        lit("-XX:-UseAdaptiveSizePolicy"),
        lit("-Xmn128M"),
        libpath,
        lit("-cp"),
        p.classpath.clone(),
        lit("net.minecraft.client.main.Main"),
        lit("--username"),
        p.username.clone(),
        lit("--version"),
        p.version.clone(),
        lit("--gameDir"),
        p.game_dir.clone(),
        lit("--assetsDir"),
        p.assets_dir.clone(),
        lit("--assetIndex"),
        p.asset_index.clone(),
        lit("--uuid"),
        lit("00000000-0000-0000-0000-000000000000"),
        lit("--accessToken"),
        lit("null"),
        lit("--userProperties"),
        lit("{}"),
        lit("--userType"),
        lit("mojang"),
    ];
    assert(views(args@) =~= launch_args_spec(*p));
    args
}

/// Law: the game's command line carries the settings unchanged: the heap
/// limit `-Xmx<n>M` where the digits of `<n>` denote exactly `max_ram_mb`, the
/// natives directory, the class path, and the user name, version, game
/// directory, assets directory and asset index, each right after its flag.
pub proof fn lemma_launch_args_carry_settings(p: LaunchParams)
    ensures
        launch_args_spec(p).len() == 27,
        launch_args_spec(p)[0] == "-Xmx"@ + decimal(p.max_ram_mb as nat) + "M"@,
        ({
            let x = launch_args_spec(p)[0];
            &&& x.len() >= 6
            &&& x.take(4) == "-Xmx"@
            &&& x.last() == 'M'
            &&& forall|i: int| 4 <= i < x.len() - 1 ==> crate::text::is_digit(#[trigger] x[i])
            &&& crate::text::digits_value(x.subrange(4, x.len() - 1)) == p.max_ram_mb
        }),
        launch_args_spec(p)[5] == "-Djava.library.path="@ + p.natives_dir@,
        launch_args_spec(p)[6] == "-cp"@ && launch_args_spec(p)[7] == p.classpath@,
        launch_args_spec(p)[8] == "net.minecraft.client.main.Main"@,
        launch_args_spec(p)[9] == "--username"@ && launch_args_spec(p)[10] == p.username@,
        launch_args_spec(p)[11] == "--version"@ && launch_args_spec(p)[12] == p.version@,
        launch_args_spec(p)[13] == "--gameDir"@ && launch_args_spec(p)[14] == p.game_dir@,
        launch_args_spec(p)[15] == "--assetsDir"@ && launch_args_spec(p)[16] == p.assets_dir@,
        launch_args_spec(p)[17] == "--assetIndex"@ && launch_args_spec(p)[18] == p.asset_index@,
{
    reveal_strlit("-Xmx");
    reveal_strlit("M");
    crate::text::lemma_decimal_denotes(p.max_ram_mb as nat);
    let d = decimal(p.max_ram_mb as nat);
    let x = launch_args_spec(p)[0];
    assert(x == "-Xmx"@ + d + "M"@);
    assert(x.subrange(4, x.len() - 1) =~= d);
    assert(x.take(4) =~= "-Xmx"@);
    assert forall|i: int| 4 <= i < x.len() - 1 implies crate::text::is_digit(#[trigger] x[i]) by {
        assert(x[i] == d[i - 4]);
    }
}

proof fn lemma_join_starts_with_first(parts: Seq<Seq<char>>, sep: Seq<char>)
    requires
        parts.len() >= 1,
    ensures
        seq_join(parts, sep).len() >= parts[0].len(),
        seq_join(parts, sep).take(parts[0].len() as int) == parts[0],
    decreases parts.len(),
{
    if parts.len() > 1 {
        lemma_join_starts_with_first(parts.drop_last(), sep);
        let j = seq_join(parts.drop_last(), sep);
        assert(parts.drop_last()[0] == parts[0]);
        assert((j + sep + parts.last()).take(parts[0].len() as int) =~= j.take(parts[0].len() as int));
    }
}

/// Law: the class path begins with the client jar, and with no library jars it
/// is the client jar alone.
pub proof fn lemma_classpath_starts_with_client(client_jar: Seq<char>, jars: Seq<Seq<char>>)
    ensures
        classpath_spec(client_jar, jars).take(client_jar.len() as int) == client_jar,
        jars.len() == 0 ==> classpath_spec(client_jar, jars) == client_jar,
{
    lemma_join_starts_with_first(seq![client_jar] + jars, ";"@);
    assert((seq![client_jar] + jars)[0] == client_jar);
    if jars.len() == 0 {
        assert(seq![client_jar] + jars =~= seq![client_jar]);
    }
}

/// What the search for library jars does with a directory entry.
#[derive(PartialEq, Eq, Structural, Debug, Clone, Copy)]
pub enum WalkStep {
    /// Search the sub-directory.
    Descend,
    /// Put the file on the class path.
    Collect,
    /// Ignore the entry.
    Skip,
}

/// The search for library jars descends into every directory and collects
/// every file whose extension is `jar`.
pub fn jar_walk_step(is_dir: bool, name: &str) -> (step: WalkStep)
    ensures
        is_dir ==> step == WalkStep::Descend,
        !is_dir && crate::text::has_jar_extension(name@) ==> step == WalkStep::Collect,
        !is_dir && !crate::text::has_jar_extension(name@) ==> step == WalkStep::Skip,
{
    if is_dir {
        WalkStep::Descend
    } else if crate::text::is_jar_name(name) {
        WalkStep::Collect
    } else {
        WalkStep::Skip
    }
}

/// An entry of a listing of the `libraries` directory: whether it is a
/// directory, its file name, its path (absent when the path is not valid
/// text), and, for a directory, its own listing.
pub struct DirEntry {
    pub is_dir: bool,
    pub name: String,
    pub path: Option<String>,
    pub children: Vec<DirEntry>,
}

/// The jars of a listing, searched depth first in listing order: each
/// directory's jars where the directory stands, each file whose extension is
/// `jar` by its path.
pub open spec fn jars_in(entries: Seq<DirEntry>) -> Seq<Option<Seq<char>>>
    decreases entries,
{
    if entries.len() == 0 {
        Seq::empty()
    } else {
        jars_of(entries[0]) + jars_in(entries.drop_first())
    }
}

/// The jars below one entry.
pub open spec fn jars_of(e: DirEntry) -> Seq<Option<Seq<char>>>
    decreases e,
{
    if e.is_dir {
        jars_in(e.children@)
    } else if crate::text::has_jar_extension(e.name@) {
        seq![crate::java::opt_view(e.path)]
    } else {
        Seq::empty()
    }
}

fn copy_path(p: &Option<String>) -> (r: Option<String>)
    ensures
        crate::java::opt_view(r) == crate::java::opt_view(*p),
{
    match p {
        Some(s) => Some(s.clone()),
        None => None,
    }
}

/// Appends the jars of `entries` to `out`, in the order of `jars_in`.
pub fn collect_jars(entries: &Vec<DirEntry>, out: &mut Vec<Option<String>>)
    ensures
        final(out)@.map_values(|p: Option<String>| crate::java::opt_view(p)) == old(out)@.map_values(
            |p: Option<String>| crate::java::opt_view(p),
        ) + jars_in(entries@),
    decreases entries,
{
    let n = entries.len();
    let mut i: usize = 0;
    let ghost start = old(out)@.map_values(|p: Option<String>| crate::java::opt_view(p));
    assert(entries@.skip(0) =~= entries@);
    while i < n
        invariant
            n == entries@.len(),
            i <= n,
            start + jars_in(entries@) == out@.map_values(|p: Option<String>| crate::java::opt_view(p)) + jars_in(
                entries@.skip(i as int),
            ),
        decreases n - i,
    {
        let e = &entries[i];
        assert(entries@.skip(i as int)[0] == entries@[i as int]);
        assert(entries@.skip(i as int).drop_first() =~= entries@.skip(i + 1));
        let ghost before = out@.map_values(|p: Option<String>| crate::java::opt_view(p));
        match jar_walk_step(e.is_dir, e.name.as_str()) {
            WalkStep::Descend => {
                assert(decreases_to!(entries => entries@[i as int].children));
                collect_jars(&e.children, out);
            },
            WalkStep::Collect => {
                out.push(copy_path(&e.path));
                assert(out@.map_values(|p: Option<String>| crate::java::opt_view(p)) =~= before.push(
                    crate::java::opt_view(e.path),
                ));
            },
            WalkStep::Skip => {},
        }
        assert(jars_in(entries@.skip(i as int)) == jars_of(entries@[i as int]) + jars_in(entries@.skip(i + 1)));
        i = i + 1;
    }
    assert(entries@.skip(n as int) =~= Seq::<DirEntry>::empty());
}

/// Law: the search misses no jar: for every entry of a listing, every jar
/// found below a directory entry, whatever its name, is among the jars of the
/// listing, and so is the path of every file entry whose extension is `jar`.
/// Applied at each level, every jar at any depth is collected.
pub proof fn lemma_jar_search_is_complete(entries: Seq<DirEntry>, i: int)
    requires
        0 <= i < entries.len(),
    ensures
        entries[i].is_dir ==> forall|k: int|
            0 <= k < jars_in(entries[i].children@).len() ==> jars_in(entries).contains(
                #[trigger] jars_in(entries[i].children@)[k],
            ),
        !entries[i].is_dir && crate::text::has_jar_extension(entries[i].name@) ==> jars_in(entries).contains(
            crate::java::opt_view(entries[i].path),
        ),
    decreases entries.len(),
{
    let head = jars_of(entries[0]);
    let rest = entries.drop_first();
    assert(jars_in(entries) == head + jars_in(rest));
    if i == 0 {
        if entries[0].is_dir {
            assert forall|k: int| 0 <= k < jars_in(entries[0].children@).len() implies jars_in(entries).contains(
                #[trigger] jars_in(entries[0].children@)[k],
            ) by {
                assert(jars_in(entries)[k] == head[k]);
            }
        } else if crate::text::has_jar_extension(entries[0].name@) {
            assert(jars_in(entries)[0] == head[0]);
        }
    } else {
        lemma_jar_search_is_complete(rest, i - 1);
        assert(rest[i - 1] == entries[i]);
        let r = jars_in(rest);
        assert forall|x: Option<Seq<char>>| r.contains(x) implies jars_in(entries).contains(x) by {
            let k = choose|k: int| 0 <= k < r.len() && r[k] == x;
            assert(jars_in(entries)[head.len() + k] == x);
        }
    }
}

} // verus!

//! Downloads and archives: the command lines handed to `curl` and `tar`, the
//! fixed download addresses, and how the outcomes of parallel downloads combine.
use vstd::prelude::*;
use crate::text::{seq_join, views};

verus! {

/// The address of the version manifest of 1.8.9.
pub open spec fn version_manifest_url_spec() -> Seq<char> {
    "https://piston-meta.mojang.com/v1/packages/d546f1707a3f2b7d034eece5ea2e311eda875787/1.8.9.json"@
}

/// The address of the 1.8.9 client jar.
pub open spec fn client_jar_url_spec() -> Seq<char> {
    "https://launcher.mojang.com/v1/objects/3870888a6c3d349d3771a3e9d16c9bf5e076b908/client.jar"@
}

/// The address of the version manifest of 1.8.9.
pub fn version_manifest_url() -> (r: String)
    ensures
        r@ == version_manifest_url_spec(),
{
    String::from_str("https://piston-meta.mojang.com/v1/packages/d546f1707a3f2b7d034eece5ea2e311eda875787/1.8.9.json")
}

/// The address of the 1.8.9 client jar.
pub fn client_jar_url() -> (r: String)
    ensures
        r@ == client_jar_url_spec(),
{
    String::from_str("https://launcher.mojang.com/v1/objects/3870888a6c3d349d3771a3e9d16c9bf5e076b908/client.jar")
}

/// The arguments of `curl` that fetch `url` into `dest`: silent, following
/// redirects, retrying three times on any error.
pub open spec fn curl_args_spec(url: Seq<char>, dest: Seq<char>) -> Seq<Seq<char>> {
    seq!["-sL"@, "--retry"@, "3"@, "--retry-all-errors"@, "-o"@, dest, url]
}

/// The arguments of `curl` that fetch `url` into `dest`.
pub fn curl_args(url: &str, dest: &str) -> (args: Vec<String>)
    ensures
        views(args@) == curl_args_spec(url@, dest@),
{
    let args = vec![
        String::from_str("-sL"),
        String::from_str("--retry"),
        String::from_str("3"),
        String::from_str("--retry-all-errors"),
        String::from_str("-o"),
        String::from_str(dest),
        String::from_str(url),
    ];
    assert(views(args@) =~= curl_args_spec(url@, dest@));
    args
}

/// The arguments of `tar` that unpack `archive` into the directory `dest`.
pub open spec fn tar_args_spec(archive: Seq<char>, dest: Seq<char>) -> Seq<Seq<char>> {
    seq!["-xf"@, archive, "-C"@, dest]
}

/// The arguments of `tar` that unpack `archive` into the directory `dest`.
pub fn tar_args(archive: &str, dest: &str) -> (args: Vec<String>)
    ensures
        views(args@) == tar_args_spec(archive@, dest@),
{
    let args = vec![
        String::from_str("-xf"),
        String::from_str(archive),
        String::from_str("-C"),
        String::from_str(dest),
    ];
    assert(views(args@) =~= tar_args_spec(archive@, dest@));
    args
}

/// The error messages among `rs`, in order.
pub open spec fn errors_of(rs: Seq<Result<(), String>>) -> Seq<Seq<char>>
    decreases rs.len(),
{
    if rs.len() == 0 {
        Seq::empty()
    } else {
        errors_of(rs.drop_last()) + match rs.last() {
            Ok(_) => Seq::empty(),
            Err(e) => seq![e@],
        }
    }
}

/// The outcome of a batch of downloads: success when none failed, else every
/// error message, in order, one per line.
pub open spec fn combined_spec(rs: Seq<Result<(), String>>, r: Result<(), String>) -> bool {
    if errors_of(rs).len() == 0 {
        r is Ok
    } else {
        r matches Err(m) && m@ == seq_join(errors_of(rs), "\n"@)
    }
}

/// Combines the outcomes of a batch of downloads.
pub fn combine_results(results: Vec<Result<(), String>>) -> (r: Result<(), String>)
    ensures
        combined_spec(results@, r),
{
    let n = results.len();
    let mut errs: Vec<String> = Vec::new();
    let mut i: usize = 0;
    while i < n
        invariant
            n == results@.len(),
            i <= n,
            views(errs@) == errors_of(results@.take(i as int)),
        decreases n - i,
    {
        assert(results@.take(i + 1).drop_last() =~= results@.take(i as int));
        assert(results@.take(i + 1).last() == results@[i as int]);
        match &results[i] {
            Ok(_) => {},
            Err(e) => {
                errs.push(e.clone());
            },
        }
        assert(views(errs@) =~= errors_of(results@.take(i + 1)));
        i = i + 1;
    }
    assert(results@.take(n as int) =~= results@);
    if errs.len() == 0 {
        Ok(())
    } else {
        proof {
            reveal_strlit("\n");
        }
        Err(crate::text::join(&errs, "\n"))
    }
}

proof fn lemma_errors_empty(rs: Seq<Result<(), String>>)
    ensures
        errors_of(rs).len() == 0 <==> forall|i: int| 0 <= i < rs.len() ==> rs[i] is Ok,
    decreases rs.len(),
{
    if rs.len() > 0 {
        lemma_errors_empty(rs.drop_last());
        if errors_of(rs).len() == 0 {
            assert forall|i: int| 0 <= i < rs.len() implies rs[i] is Ok by {
                if i < rs.len() - 1 {
                    assert(rs.drop_last()[i] == rs[i]);
                }
            }
        } else {
            if rs.last() is Ok {
                let i = choose|i: int| 0 <= i < rs.drop_last().len() && !(rs.drop_last()[i] is Ok);
                assert(rs[i] == rs.drop_last()[i]);
            }
        }
    }
}

/// Law: a batch of downloads succeeds exactly when every download in it succeeded.
pub proof fn lemma_batch_succeeds_iff_all_succeed(rs: Seq<Result<(), String>>, r: Result<(), String>)
    requires
        combined_spec(rs, r),
    ensures
        r is Ok <==> forall|i: int| 0 <= i < rs.len() ==> rs[i] is Ok,
{
    lemma_errors_empty(rs);
}

/// The name of the temporary file that receives the answer of a web query.
pub fn query_temp_file_name() -> (r: String)
    ensures
        r@ == "mclaunch_api_tmp.json"@,
{
    String::from_str("mclaunch_api_tmp.json")
}

} // verus!

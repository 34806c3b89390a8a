//! The bundled Java runtime: where its download is looked up, how the address
//! of the archive is read from the answer, and when its setup counts as done.
use vstd::prelude::*;
use crate::manifest::lookup;

verus! {

/// A JSON document. Numbers are kept as their text; objects as their
/// (key, value) pairs.
pub enum JsonValue {
    Null,
    Bool(bool),
    Number(String),
    Str(String),
    Array(Vec<JsonValue>),
    Object(Vec<(String, JsonValue)>),
}

/// The query for the latest portable Zulu JRE 8 for 64-bit Windows, as a zip.
pub open spec fn azul_packages_url_spec() -> Seq<char> {
    "https://api.azul.com/metadata/v1/zulu/packages/?java_version=8&os=windows&arch=x64&archive_type=zip&java_package_type=jre&release_status=ga&latest=true"@
}

/// The query for the latest portable Zulu JRE 8 for 64-bit Windows, as a zip.
pub fn azul_packages_url() -> (r: String)
    ensures
        r@ == azul_packages_url_spec(),
{
    String::from_str("https://api.azul.com/metadata/v1/zulu/packages/?java_version=8&os=windows&arch=x64&archive_type=zip&java_package_type=jre&release_status=ga&latest=true")
}

/// The archive address in the answer of the package query: the string field
/// `download_url` of the first element of the top-level array.
pub open spec fn azul_download_url_spec(doc: JsonValue) -> Option<Seq<char>> {
    match doc {
        JsonValue::Array(items) => if items@.len() > 0 {
            match items@[0] {
                JsonValue::Object(fields) => match lookup(fields@, "download_url"@) {
                    Some(JsonValue::Str(s)) => Some(s@),
                    _ => None,
                },
                _ => None,
            }
        } else {
            None
        },
        _ => None,
    }
}

/// The message given when the answer names no archive.
pub open spec fn no_jre_url_message() -> Seq<char> {
    "无法从 Azul API 获取 JRE 下载地址"@
}

fn field_str(fields: &Vec<(String, JsonValue)>, key: &str) -> (r: Option<String>)
    ensures
        match lookup(fields@, key@) {
            Some(JsonValue::Str(s)) => r == Some(s),
            _ => r is None,
        },
{
    match crate::manifest::find_key(fields, key) {
        Some(i) => match &fields[i].1 {
            JsonValue::Str(s) => Some(s.clone()),
            _ => None,
        },
        None => None,
    }
}

/// Reads the archive address from the answer of the package query, or says
/// that there is none.
pub fn azul_download_url(doc: &JsonValue) -> (r: Result<String, String>)
    ensures
        match azul_download_url_spec(*doc) {
            Some(u) => r matches Ok(s) && s@ == u,
            None => r matches Err(m) && m@ == no_jre_url_message(),
        },
{
    proof {
        reveal_strlit("download_url");
    }
    let found = match doc {
        JsonValue::Array(items) => {
            if items.len() > 0 {
                match &items[0] {
                    JsonValue::Object(fields) => field_str(fields, "download_url"),
                    _ => None,
                }
            } else {
                None
            }
        },
        _ => None,
    };
    match found {
        Some(u) => Ok(u),
        None => Err(String::from_str("无法从 Azul API 获取 JRE 下载地址")),
    }
}

/// The message given when no runtime is found after unpacking.
pub open spec fn jre_missing_after_unpack_message() -> Seq<char> {
    "JRE 解压后未找到 java.exe，请检查 jre/ 目录。"@
}

/// The outcome of the runtime setup once the archive was unpacked: done when a
/// bundled runtime is now found.
pub fn jre_setup_outcome(found: bool) -> (r: Result<(), String>)
    ensures
        found ==> r is Ok,
        !found ==> (r matches Err(m) && m@ == jre_missing_after_unpack_message()),
{
    if found {
        Ok(())
    } else {
        Err(String::from_str("JRE 解压后未找到 java.exe，请检查 jre/ 目录。"))
    }
}

} // verus!

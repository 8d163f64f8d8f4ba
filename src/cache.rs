//! Layout of the local cache: immutable published artifacts under `globals`, and
//! locally built outputs under `stash`.

use vstd::prelude::*;
use vstd::string::*;

use crate::configure::Config;
use crate::errors::{CliError, LalResult};
use crate::numbers::{decimal_of, decimal_string, parse_u32, parse_u32_spec};

verus! {

/// `<cache>/globals/<env>/<name>/<version>`
pub open spec fn cache_dir_spec(root: Seq<char>, name: Seq<char>, version: u32, env: Seq<char>) -> Seq<char> {
    root + "/globals/"@ + env + "/"@ + name + "/"@ + decimal_of(version as nat)
}

/// `<cache>/globals/<env>/<name>/<version>/<name>.tar`
pub open spec fn tarball_path_spec(root: Seq<char>, name: Seq<char>, version: u32, env: Seq<char>) -> Seq<char> {
    cache_dir_spec(root, name, version, env) + "/"@ + name + ".tar"@
}

/// `<cache>/stash/<name>/<label>`
pub open spec fn stash_dir_spec(root: Seq<char>, name: Seq<char>, label: Seq<char>) -> Seq<char> {
    root + "/stash/"@ + name + "/"@ + label
}

/// Directory of the published artifact `name` at `version` built in `env`.
pub fn cache_dir(cfg: &Config, name: &str, version: u32, env: &str) -> (r: String)
    ensures
        r@ == cache_dir_spec(cfg.cache@, name@, version, env@),
{
    let v = decimal_string(version as u64);
    String::from_str(cfg.cache.as_str()).concat("/globals/").concat(env).concat("/").concat(name).concat(
        "/",
    ).concat(v.as_str())
}

/// Path of the tarball of the published artifact `name` at `version` built in `env`.
pub fn tarball_path(cfg: &Config, name: &str, version: u32, env: &str) -> (r: String)
    ensures
        r@ == tarball_path_spec(cfg.cache@, name@, version, env@),
{
    cache_dir(cfg, name, version, env).concat("/").concat(name).concat(".tar")
}

/// Relies on std's `Path::is_file`: whether a regular file is there now, which
/// depends on the disk.
#[verifier::external_body]
fn path_is_file(p: &str) -> bool {
    std::path::Path::new(p).is_file()
}

/// Whether the tarball of `name` at `version` built in `env` is in the cache.
pub fn is_cached(cfg: &Config, name: &str, version: u32, env: &str) -> bool {
    let p = tarball_path(cfg, name, version, env);
    path_is_file(p.as_str())
}

/// Directory under which `owner`'s output is stashed as `label`.
///
/// A label that reads as an integer version is refused: it would shadow one.
pub fn stash_dir(cfg: &Config, owner: &str, label: &str) -> (r: LalResult<String>)
    ensures
        parse_u32_spec(label@) matches Some(n) ==> r == Err::<String, CliError>(CliError::InvalidStashName(n)),
        parse_u32_spec(label@) is None ==> (r matches Ok(p) && p@ == stash_dir_spec(cfg.cache@, owner@, label@)),
{
    match parse_u32(label) {
        Some(n) => Err(CliError::InvalidStashName(n)),
        None => Ok(String::from_str(cfg.cache.as_str()).concat("/stash/").concat(owner).concat("/").concat(label)),
    }
}

} // verus!

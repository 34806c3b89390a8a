//! A verified core for an offline launcher of one Minecraft release: configuration
//! defaults, the layout of the game directory, the download plans read from the
//! version and asset manifests, the choice of a Java runtime and the command line
//! that starts the game.
use vstd::prelude::*;

pub mod config;
pub mod fetch;
pub mod java;
pub mod jre;
pub mod launch;
pub mod launch_flow;
pub mod layout;
pub mod manifest;
pub mod setup_flow;
pub mod setup_run;
pub mod text;

verus! {

/// Process exit status for an outcome: success exits with 0, failure with 1.
pub fn exit_code(ok: bool) -> (code: i32)
    ensures
        code == (if ok { 0i32 } else { 1i32 }),
{
    if ok { 0 } else { 1 }
}

} // verus!

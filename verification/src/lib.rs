use vstd::prelude::*;

pub mod config;
pub mod keychain;
pub mod launch;
pub mod names;
pub mod output;
pub mod redact;
pub mod run;
pub mod ssh;
pub mod text;
pub mod tunnel;

verus! {

} // verus!

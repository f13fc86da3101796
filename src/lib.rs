use vstd::prelude::*;

pub mod collector;
pub mod filetypes;
pub mod ingest;
pub mod watch;

verus! {

} // verus!

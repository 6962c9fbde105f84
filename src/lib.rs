//! A concurrent bulk downloader's decision logic: naming destinations,
//! sequencing each transfer, filtering and collecting the fan-out, and the
//! run's setup verdicts. The network, the disk and the runtime stay outside.
use vstd::prelude::*;

pub mod destination;
pub mod transfer;
pub mod schedule;
pub mod run;

verus! {

} // verus!

//! The radio compliance records the gateway reports.

use vstd::prelude::*;

verus! {

/// One radio's regulatory identification, as reported by the gateway.
#[derive(Clone, Debug)]
pub struct Radio {
    pub manufacturer: String,
    pub model: String,
    pub fcc_id: String,
    pub ic_id: String,
}

} // verus!

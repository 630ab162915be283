//! The telemetry information service: it owns a handle to the
//! metadata store and answers tracking-id requests. The transport and
//! the store queries stay outside; this holds the handle.

use vstd::prelude::*;

verus! {

/// Serves telemetry information over a metadata store handle.
pub struct TelemetryInfoServiceImpl<S> {
    meta_store: S,
}

impl<S> TelemetryInfoServiceImpl<S> {
    pub closed spec fn spec_meta_store(self) -> S {
        self.meta_store
    }

    pub fn new(meta_store: S) -> (r: TelemetryInfoServiceImpl<S>)
        ensures
            r.spec_meta_store() == meta_store,
    {
        TelemetryInfoServiceImpl { meta_store }
    }

    /// Hands the store handle back to the caller that queries it.
    pub fn meta_store(&self) -> (r: &S)
        ensures
            *r == self.spec_meta_store(),
    {
        &self.meta_store
    }
}

} // verus!

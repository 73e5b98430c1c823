//! The SGX backend: a shim image given at construction, from which each
//! workload's enclave is planned.

use vstd::prelude::*;
use crate::builder::{BuildError, Image, Plan, build, builds};

verus! {

/// The SGX backend, holding the shim that every enclave it builds runs.
#[derive(Debug)]
pub struct Backend {
    pub shim: Image,
}

impl Backend {
    /// A backend that loads `shim` into each enclave.
    pub fn new(shim: Image) -> (r: Backend)
        ensures
            r.shim == shim,
    {
        Backend { shim }
    }

    /// The backend's name.
    pub fn name(&self) -> (r: &'static str)
        ensures
            r@ == "sgx"@,
    {
        proof {
            reveal_strlit("sgx");
        }
        "sgx"
    }

    /// Plans an enclave that runs `code` under the backend's shim.
    pub fn build(&self, code: &Image) -> (r: Result<Plan, BuildError>)
        requires
            self.shim.wf(),
            code.wf(),
        ensures
            builds(&self.shim, code, r),
    {
        build(&self.shim, code)
    }
}

} // verus!

//! Planning and control logic for running a workload inside an SGX enclave:
//! page arithmetic, translation of loadable segments, the enclave memory
//! layout, the ordered list of pages an enclave is built from, and the
//! enter/resume state machine of an enclave thread.

pub mod region;
pub mod encode;
pub mod segment;
pub mod layout;
pub mod builder;
pub mod elf;
pub mod thread;
pub mod backend;

//! Runtime that hosts dynamically loaded native service modules in one process, under the
//! lifecycle control of a remote process orchestrator.
use vstd::prelude::*;

pub mod common;
pub mod library_loader;
pub mod native_activity_thread;
pub mod native_application_thread;
pub mod pci_authorizer;
pub mod sysfs;
pub mod task;
pub mod text;

verus! {

} // verus!

//! The commands that the remote endpoint hands to the owner thread, one per remote call.
//!
//! Service and bind tokens are the identities of the orchestrator's remote objects, given as
//! integers: the endpoint assigns one integer to each remote object it receives.
use vstd::prelude::*;

verus! {

/// Arguments of a create-service call.
#[derive(Debug, Clone, PartialEq, Eq)]
pub struct CreateServiceRequest {
    pub service_token: u64,
    pub library_paths: Vec<String>,
    pub permitted_libs_dir: String,
    pub library_name: String,
    pub base_symbol_name: String,
    pub process_state: i32,
}

impl CreateServiceRequest {
    pub fn new(
        service_token: u64,
        library_paths: Vec<String>,
        permitted_libs_dir: String,
        library_name: String,
        base_symbol_name: String,
        process_state: i32,
    ) -> (r: Self)
        ensures
            r.service_token == service_token,
            r.library_paths == library_paths,
            r.permitted_libs_dir == permitted_libs_dir,
            r.library_name == library_name,
            r.base_symbol_name == base_symbol_name,
            r.process_state == process_state,
    {
        CreateServiceRequest {
            service_token,
            library_paths,
            permitted_libs_dir,
            library_name,
            base_symbol_name,
            process_state,
        }
    }
}

/// Arguments of a destroy-service call.
#[derive(Debug, Clone, Copy, PartialEq, Eq, Structural)]
pub struct DestroyServiceRequest {
    pub service_token: u64,
}

/// Arguments of a bind-service call.
#[derive(Debug, Clone, PartialEq, Eq)]
pub struct BindServiceRequest {
    pub service_token: u64,
    pub bind_token: u64,
    pub intent_hash: i32,
    pub action: Option<String>,
    pub data: Option<String>,
    pub rebind: bool,
    pub process_state: i32,
    pub bind_seq: i64,
}

/// Arguments of an unbind-service call.
#[derive(Debug, Clone, Copy, PartialEq, Eq, Structural)]
pub struct UnbindServiceRequest {
    pub service_token: u64,
    pub bind_token: u64,
    pub intent_hash: i32,
}

/// One remote call, with the arguments captured when it arrived.
#[derive(Debug, Clone, PartialEq, Eq)]
pub enum NativeApplicationThreadRequest {
    CreateService(CreateServiceRequest),
    DestroyService(DestroyServiceRequest),
    BindService(BindServiceRequest),
    UnbindService(UnbindServiceRequest),
    TrimMemory(i32),
    BindApplication,
    SetProcessState(i32),
}

} // verus!

//! The lifecycle manager: the table of hosted services and the decisions taken for each command.
//!
//! Everything that touches the outside world (the dynamic linker, a module's entry points, the
//! orchestrator) is returned as a `HostAction` for the owner thread to perform, in order. Where a
//! command needs what an entry point returned, the owner thread hands it back through a second
//! method (`finish_create_service`, `publish_bound_service`, `finish_unbind_service`).
use vstd::prelude::*;

use crate::library_loader::{namespace_error, LinkerNamespace, LoaderError, NamespaceFactory};
use crate::native_application_thread::{
    BindServiceRequest, CreateServiceRequest, DestroyServiceRequest, UnbindServiceRequest,
};
use crate::text::{append_signed_decimal, contains_nul, has_nul, signed_decimal};

verus! {

/// Process state of a process whose importance is not known yet.
pub const PROCESS_STATE_UNKNOWN: i32 = -1;

/// Process state of an important foreground process; lower values are more important.
pub const PROCESS_STATE_IMPORTANT_FOREGROUND: i32 = 6;

/// Trim level sent when the process has moved to the background.
pub const TRIM_MEMORY_BACKGROUND: i32 = 40;

/// Trim level sent when the process's user interface has been hidden.
pub const TRIM_MEMORY_UI_HIDDEN: i32 = 20;

/// Which entry points a module supplied when its creation routine ran.
#[derive(Debug, Clone, Copy, PartialEq, Eq, Structural)]
pub struct ServiceCallbacks {
    pub on_bind: bool,
    pub on_unbind: bool,
    pub on_rebind: bool,
    pub on_destroy: bool,
    pub on_trim_memory: bool,
}

/// Where a hosted service stands in its lifecycle. A destroyed service leaves the table.
#[derive(Debug, Clone, Copy, PartialEq, Eq, Structural)]
pub enum ServiceState {
    Created,
    Bound,
    Rebinding,
    Unbound,
}

/// One hosted service: its token, the entry points its module supplied, and its state.
#[derive(Debug, Clone, Copy, PartialEq, Eq, Structural)]
pub struct HostedService {
    pub token: u64,
    pub callbacks: ServiceCallbacks,
    pub state: ServiceState,
}

/// The reason given to the orchestrator when a lifecycle step is done.
#[derive(Debug, Clone, Copy, PartialEq, Eq, Structural)]
pub enum DoneKind {
    Anon,
    Stop,
    Rebind,
    Unbind,
}

impl DoneKind {
    pub open spec fn spec_code(self) -> i32 {
        match self {
            DoneKind::Anon => 0,
            DoneKind::Stop => 2,
            DoneKind::Rebind => 3,
            DoneKind::Unbind => 4,
        }
    }

    /// The code of this reason in the orchestrator's interface.
    pub fn code(&self) -> (r: i32)
        ensures
            r == self.spec_code(),
    {
        match self {
            DoneKind::Anon => 0,
            DoneKind::Stop => 2,
            DoneKind::Rebind => 3,
            DoneKind::Unbind => 4,
        }
    }
}

/// Outside work that a command asks of the owner thread.
#[derive(Debug, Clone, PartialEq, Eq)]
pub enum HostAction {
    /// Call the service's bind entry point; its result goes to `publish_bound_service`.
    CallBind {
        service_token: u64,
        bind_token: u64,
        intent_hash: i32,
        action: Option<String>,
        data: Option<String>,
    },
    /// Call the service's rebind entry point.
    CallRebind { service_token: u64, intent_hash: i32 },
    /// Call the service's unbind entry point; its result goes to `finish_unbind_service`.
    CallUnbind { service_token: u64, bind_token: u64, intent_hash: i32 },
    /// Call the service's destroy entry point.
    CallDestroy { service_token: u64 },
    /// Call the service's trim-memory entry point.
    CallTrimMemory { service_token: u64, level: i32 },
    /// Unload the service's module and its namespace.
    Unload { service_token: u64 },
    /// Tell the orchestrator that a lifecycle step has finished.
    ServiceDoneExecuting { service_token: u64, kind: DoneKind },
    /// Hand the orchestrator the capability that a bind returned.
    PublishService { service_token: u64, bind_token: u64, binder: u64 },
    /// Tell the orchestrator that an unbind finished and a rebind is expected.
    UnbindFinished { service_token: u64, bind_token: u64 },
    /// Acknowledge that the process is attached.
    FinishAttachApplication { start_seq: i64 },
}

/// Why a command failed.
#[derive(Debug, Clone, Copy, PartialEq, Eq, Structural)]
pub enum HostError {
    /// No live service has the token.
    ServiceNotFound,
    /// A live service already has the token.
    DuplicateToken,
    /// The namespace could not be prepared.
    Namespace(LoaderError),
    /// The library name holds a NUL character.
    InvalidLibraryName,
    /// The entry symbol name holds a NUL character.
    InvalidSymbolName,
    /// A bind was asked of a module that has no bind entry point.
    MissingBindEntryPoint,
    /// The bind entry point returned no capability.
    NullBinder,
    /// The trim level is none of the two that are known.
    InvalidTrimLevel,
}

pub open spec fn unique_tokens(s: Seq<HostedService>) -> bool {
    forall|i: int, j: int|
        0 <= i < s.len() && 0 <= j < s.len() && i != j ==> s[i].token != s[j].token
}

pub open spec fn has_token(s: Seq<HostedService>, token: u64) -> bool {
    exists|i: int| 0 <= i < s.len() && s[i].token == token
}

/// The tokens of the live services.
pub open spec fn token_set(s: Seq<HostedService>) -> Set<u64> {
    Set::new(|t: u64| has_token(s, t))
}

/// The position of the service with the token.
pub open spec fn index_of(s: Seq<HostedService>, token: u64) -> int {
    choose|i: int| 0 <= i < s.len() && s[i].token == token
}

pub open spec fn new_service(token: u64, callbacks: ServiceCallbacks) -> HostedService {
    HostedService { token, callbacks, state: ServiceState::Created }
}

/// The table after a create: unchanged when the token is live, else the new service appended.
pub open spec fn table_after_create(
    s: Seq<HostedService>,
    token: u64,
    callbacks: ServiceCallbacks,
) -> Seq<HostedService> {
    if has_token(s, token) {
        s
    } else {
        s.push(new_service(token, callbacks))
    }
}

/// The table after a destroy: unchanged when the token is unknown, else without that service.
pub open spec fn table_after_destroy(s: Seq<HostedService>, token: u64) -> Seq<HostedService> {
    if has_token(s, token) {
        s.remove(index_of(s, token))
    } else {
        s
    }
}

/// The table with the state of the service with the token changed.
pub open spec fn with_state(s: Seq<HostedService>, token: u64, state: ServiceState) -> Seq<
    HostedService,
> {
    let i = index_of(s, token);
    s.update(i, HostedService { state, ..s[i] })
}

/// What destroying a service asks for: its destroy entry point if it has one, then the unload
/// of its module, then the report to the orchestrator.
pub open spec fn destroy_actions(svc: HostedService) -> Seq<HostAction> {
    (if svc.callbacks.on_destroy {
        seq![HostAction::CallDestroy { service_token: svc.token }]
    } else {
        seq![]
    }) + seq![
        HostAction::Unload { service_token: svc.token },
        HostAction::ServiceDoneExecuting { service_token: svc.token, kind: DoneKind::Stop },
    ]
}

/// What a rebind asks for: the rebind entry point if there is one, then the report.
pub open spec fn rebind_actions(svc: HostedService, intent_hash: i32) -> Seq<HostAction> {
    (if svc.callbacks.on_rebind {
        seq![HostAction::CallRebind { service_token: svc.token, intent_hash }]
    } else {
        seq![]
    }) + seq![HostAction::ServiceDoneExecuting { service_token: svc.token, kind: DoneKind::Rebind }]
}

/// A string as it is handed to a foreign entry point: one holding a NUL is passed as absent.
pub open spec fn foreign_string(s: Option<String>) -> Option<String> {
    match s {
        Some(v) => if has_nul(v@) {
            None
        } else {
            Some(v)
        },
        None => None,
    }
}

/// The report that ends an unbind, by what the unbind entry point answered.
pub open spec fn unbind_report(token: u64, bind_token: u64, wants_rebind: bool) -> HostAction {
    if wants_rebind {
        HostAction::UnbindFinished { service_token: token, bind_token }
    } else {
        HostAction::ServiceDoneExecuting { service_token: token, kind: DoneKind::Unbind }
    }
}

pub open spec fn is_known_trim_level(level: i32) -> bool {
    level == TRIM_MEMORY_BACKGROUND || level == TRIM_MEMORY_UI_HIDDEN
}

/// A background trim is not passed on to a process at least as important as foreground.
pub open spec fn trim_suppressed(process_state: i32, level: i32) -> bool {
    level == TRIM_MEMORY_BACKGROUND && process_state <= PROCESS_STATE_IMPORTANT_FOREGROUND
}

/// The trim-memory calls to the services that have the entry point, in table order.
pub open spec fn trim_calls(s: Seq<HostedService>, level: i32) -> Seq<HostAction>
    decreases s.len(),
{
    if s.len() == 0 {
        seq![]
    } else {
        trim_calls(s.drop_last(), level) + if s.last().callbacks.on_trim_memory {
            seq![HostAction::CallTrimMemory { service_token: s.last().token, level }]
        } else {
            seq![]
        }
    }
}

/// The actions of a valid trim request.
pub open spec fn trim_actions(s: Seq<HostedService>, process_state: i32, level: i32) -> Seq<
    HostAction,
> {
    if trim_suppressed(process_state, level) {
        seq![]
    } else {
        trim_calls(s, level)
    }
}

/// The base of the names of the namespaces of the process started with `start_seq`.
pub open spec fn namespace_base_name(start_seq: i64) -> Seq<char> {
    seq!['n', 'a', 't', 'i', 'v', 'e', '_', 'a', 'p', 'p', '_'] + signed_decimal(start_seq as int)
}

/// The first check that a create-service request fails, in the order they are made; `None`
/// when the namespace can be prepared.
pub open spec fn create_error(
    s: Seq<HostedService>,
    factory: NamespaceFactory,
    req: &CreateServiceRequest,
) -> Option<HostError> {
    if has_token(s, req.service_token) {
        Some(HostError::DuplicateToken)
    } else if has_nul(req.library_name@) {
        Some(HostError::InvalidLibraryName)
    } else if has_nul(req.base_symbol_name@) {
        Some(HostError::InvalidSymbolName)
    } else {
        match namespace_error(
            factory.spec_base_name(),
            factory.spec_serial(),
            req.library_paths@,
            req.permitted_libs_dir@,
        ) {
            Some(e) => Some(HostError::Namespace(e)),
            None => None,
        }
    }
}

fn new_service_exec(token: u64, callbacks: ServiceCallbacks) -> (r: HostedService)
    ensures
        r == new_service(token, callbacks),
{
    HostedService { token, callbacks, state: ServiceState::Created }
}

fn foreign_string_exec(s: &Option<String>) -> (r: Option<String>)
    ensures
        r == foreign_string(*s),
{
    match s {
        Some(v) => if contains_nul(v.as_str()) {
            None
        } else {
            Some(v.clone())
        },
        None => None,
    }
}

fn unbind_report_exec(token: u64, bind_token: u64, wants_rebind: bool) -> (r: HostAction)
    ensures
        r == unbind_report(token, bind_token, wants_rebind),
{
    if wants_rebind {
        HostAction::UnbindFinished { service_token: token, bind_token }
    } else {
        HostAction::ServiceDoneExecuting { service_token: token, kind: DoneKind::Unbind }
    }
}

/// The lifecycle manager of one process: it owns the table of hosted services and the process
/// state, and is used from the owner thread only.
pub struct NativeActivityThread {
    services: Vec<HostedService>,
    namespace_factory: NamespaceFactory,
    process_state: i32,
    start_seq: i64,
}

impl NativeActivityThread {
    /// The live services, in the order they were created.
    pub closed spec fn services(&self) -> Seq<HostedService> {
        self.services@
    }

    pub closed spec fn spec_process_state(&self) -> i32 {
        self.process_state
    }

    pub closed spec fn spec_start_seq(&self) -> i64 {
        self.start_seq
    }

    pub closed spec fn factory(&self) -> NamespaceFactory {
        self.namespace_factory
    }

    /// No two live services share a token.
    pub open spec fn wf(&self) -> bool {
        unique_tokens(self.services())
    }

    pub fn new(start_seq: i64) -> (r: Self)
        ensures
            r.wf(),
            r.services() == Seq::<HostedService>::empty(),
            r.spec_process_state() == PROCESS_STATE_UNKNOWN,
            r.spec_start_seq() == start_seq,
            r.factory().spec_base_name() == namespace_base_name(start_seq),
            r.factory().spec_serial() == 0,
    {
        let mut base = String::new();
        proof {
            reveal_strlit("native_app_");
        }
        base.append("native_app_");
        append_signed_decimal(&mut base, start_seq);
        assert(base@ =~= namespace_base_name(start_seq));
        NativeActivityThread {
            services: Vec::new(),
            namespace_factory: NamespaceFactory::new(base),
            process_state: PROCESS_STATE_UNKNOWN,
            start_seq,
        }
    }

    pub fn process_state(&self) -> (r: i32)
        ensures
            r == self.spec_process_state(),
    {
        self.process_state
    }

    pub fn start_seq(&self) -> (r: i64)
        ensures
            r == self.spec_start_seq(),
    {
        self.start_seq
    }

    /// The number of live services.
    pub fn service_count(&self) -> (r: usize)
        ensures
            r == self.services().len(),
    {
        self.services.len()
    }

    /// The live service with the token, if any.
    pub fn service(&self, token: u64) -> (r: Option<HostedService>)
        requires
            self.wf(),
        ensures
            r is None <==> !has_token(self.services(), token),
            r matches Some(svc) ==> svc == self.services()[index_of(self.services(), token)],
    {
        match self.find(token) {
            Some(i) => Some(self.services[i]),
            None => None,
        }
    }

    fn find(&self, token: u64) -> (r: Option<usize>)
        requires
            self.wf(),
        ensures
            r is None <==> !has_token(self.services(), token),
            r matches Some(i) ==> i == index_of(self.services(), token) && i
                < self.services().len(),
    {
        let mut i: usize = 0;
        while i < self.services.len()
            invariant
                i <= self.services@.len(),
                unique_tokens(self.services@),
                forall|j: int| 0 <= j < i ==> self.services@[j].token != token,
            decreases self.services@.len() - i,
        {
            if self.services[i].token == token {
                proof {
                    let k = index_of(self.services(), token);
                    assert(has_token(self.services(), token));
                    assert(self.services@[k].token == token);
                    if k != i as int {
                        assert(self.services@[k].token != self.services@[i as int].token);
                    }
                }
                return Some(i);
            }
            i = i + 1;
        }
        None
    }

    /// First half of a create-service command: checks the request and prepares the namespace
    /// in which the owner thread then loads the module, resolves its entry symbol and runs it.
    /// A token that is live fails the command: a create never replaces a live service.
    pub fn begin_create_service(&mut self, req: &CreateServiceRequest) -> (r: Result<
        LinkerNamespace,
        HostError,
    >)
        requires
            old(self).wf(),
        ensures
            final(self).wf(),
            final(self).services() == old(self).services(),
            final(self).spec_process_state() == old(self).spec_process_state(),
            final(self).spec_start_seq() == old(self).spec_start_seq(),
            final(self).factory().spec_base_name() == old(self).factory().spec_base_name(),
            r matches Err(e) ==> final(self).factory().spec_serial() == old(
                self,
            ).factory().spec_serial() && e == create_error(
                old(self).services(),
                old(self).factory(),
                req,
            ).unwrap(),
            r is Ok ==> create_error(old(self).services(), old(self).factory(), req) is None,
            r matches Ok(ns) ==> {
                &&& ns.name@ == crate::library_loader::namespace_name(
                    old(self).factory().spec_base_name(),
                    old(self).factory().spec_serial(),
                )
                &&& ns.library_path@ == crate::library_loader::joined_paths(req.library_paths@)
                &&& ns.permitted_libs_dir@ == req.permitted_libs_dir@
                &&& final(self).factory().spec_serial() == old(self).factory().spec_serial() + 1
            },
    {
        if self.find(req.service_token).is_some() {
            return Err(HostError::DuplicateToken);
        }
        if contains_nul(req.library_name.as_str()) {
            return Err(HostError::InvalidLibraryName);
        }
        if contains_nul(req.base_symbol_name.as_str()) {
            return Err(HostError::InvalidSymbolName);
        }
        match self.namespace_factory.create_linker_namespace(
            &req.library_paths,
            req.permitted_libs_dir.as_str(),
        ) {
            Ok(ns) => Ok(ns),
            Err(e) => Err(HostError::Namespace(e)),
        }
    }

    /// Second half of a create-service command, once the module's creation routine has run and
    /// supplied `callbacks`: the service enters the table in state `Created` and the orchestrator
    /// is told.
    pub fn finish_create_service(&mut self, service_token: u64, callbacks: ServiceCallbacks) -> (r:
        Result<HostAction, HostError>)
        requires
            old(self).wf(),
        ensures
            final(self).wf(),
            final(self).services() == table_after_create(
                old(self).services(),
                service_token,
                callbacks,
            ),
            final(self).spec_process_state() == old(self).spec_process_state(),
            final(self).spec_start_seq() == old(self).spec_start_seq(),
            final(self).factory() == old(self).factory(),
            r is Err <==> has_token(old(self).services(), service_token),
            r matches Err(e) ==> e == HostError::DuplicateToken,
            r matches Ok(a) ==> a == (HostAction::ServiceDoneExecuting {
                service_token,
                kind: DoneKind::Anon,
            }),
    {
        if self.find(service_token).is_some() {
            return Err(HostError::DuplicateToken);
        }
        self.services.push(new_service_exec(service_token, callbacks));
        proof {
            let s = self.services@;
            assert forall|i: int, j: int|
                0 <= i < s.len() && 0 <= j < s.len() && i != j implies s[i].token
                != s[j].token by {
                if i == s.len() - 1 {
                    assert(s[j] == old(self).services@[j]);
                } else if j == s.len() - 1 {
                    assert(s[i] == old(self).services@[i]);
                } else {
                    assert(s[i] == old(self).services@[i]);
                    assert(s[j] == old(self).services@[j]);
                }
            }
        }
        Ok(HostAction::ServiceDoneExecuting { service_token, kind: DoneKind::Anon })
    }

    /// A destroy-service command: the service leaves the table, and the owner thread is asked to
    /// run its destroy entry point, unload its module and tell the orchestrator. An unknown token
    /// fails the command and changes nothing.
    pub fn destroy_service(&mut self, req: &DestroyServiceRequest) -> (r: Result<
        Vec<HostAction>,
        HostError,
    >)
        requires
            old(self).wf(),
        ensures
            final(self).wf(),
            final(self).services() == table_after_destroy(old(self).services(), req.service_token),
            final(self).spec_process_state() == old(self).spec_process_state(),
            final(self).spec_start_seq() == old(self).spec_start_seq(),
            final(self).factory() == old(self).factory(),
            r is Err <==> !has_token(old(self).services(), req.service_token),
            r matches Err(e) ==> e == HostError::ServiceNotFound,
            r matches Ok(acts) ==> acts@ == destroy_actions(
                old(self).services()[index_of(old(self).services(), req.service_token)],
            ),
    {
        let i = match self.find(req.service_token) {
            Some(i) => i,
            None => {
                return Err(HostError::ServiceNotFound);
            },
        };
        let svc = self.services.remove(i);
        proof {
            let s = self.services@;
            let o = old(self).services@;
            assert(s =~= o.remove(i as int));
            assert forall|a: int, b: int|
                0 <= a < s.len() && 0 <= b < s.len() && a != b implies s[a].token
                != s[b].token by {
                let oa = if a < i { a } else { a + 1 };
                let ob = if b < i { b } else { b + 1 };
                assert(s[a] == o[oa]);
                assert(s[b] == o[ob]);
            }
        }
        let mut acts: Vec<HostAction> = Vec::new();
        if svc.callbacks.on_destroy {
            acts.push(HostAction::CallDestroy { service_token: svc.token });
        }
        acts.push(HostAction::Unload { service_token: svc.token });
        acts.push(HostAction::ServiceDoneExecuting { service_token: svc.token, kind: DoneKind::Stop });
        assert(acts@ =~= destroy_actions(svc));
        Ok(acts)
    }

    /// A bind-service command. A first bind asks the owner thread to call the bind entry point,
    /// which the module must have, with the intent and the two strings; what it returns goes to
    /// `publish_bound_service`. A rebind asks for the rebind entry point, if there is one, and
    /// the rebind report.
    pub fn bind_service(&mut self, req: &BindServiceRequest) -> (r: Result<
        Vec<HostAction>,
        HostError,
    >)
        requires
            old(self).wf(),
        ensures
            final(self).wf(),
            final(self).spec_process_state() == old(self).spec_process_state(),
            final(self).spec_start_seq() == old(self).spec_start_seq(),
            final(self).factory() == old(self).factory(),
            !has_token(old(self).services(), req.service_token) ==> r == Err::<
                Vec<HostAction>,
                HostError,
            >(HostError::ServiceNotFound),
            has_token(old(self).services(), req.service_token) ==> {
                let svc = old(self).services()[index_of(old(self).services(), req.service_token)];
                if !req.rebind {
                    &&& r is Err <==> !svc.callbacks.on_bind
                    &&& r matches Err(e) ==> e == HostError::MissingBindEntryPoint
                    &&& r matches Ok(acts) ==> acts@ == seq![
                        HostAction::CallBind {
                            service_token: req.service_token,
                            bind_token: req.bind_token,
                            intent_hash: req.intent_hash,
                            action: foreign_string(req.action),
                            data: foreign_string(req.data),
                        },
                    ]
                } else {
                    r matches Ok(acts) && acts@ == rebind_actions(svc, req.intent_hash)
                }
            },
            final(self).services() == if has_token(old(self).services(), req.service_token)
                && req.rebind {
                with_state(old(self).services(), req.service_token, ServiceState::Rebinding)
            } else {
                old(self).services()
            },
    {
        let i = match self.find(req.service_token) {
            Some(i) => i,
            None => {
                return Err(HostError::ServiceNotFound);
            },
        };
        let svc = self.services[i];
        let mut acts: Vec<HostAction> = Vec::new();
        if !req.rebind {
            if !svc.callbacks.on_bind {
                return Err(HostError::MissingBindEntryPoint);
            }
            let action = foreign_string_exec(&req.action);
            let data = foreign_string_exec(&req.data);
            acts.push(
                HostAction::CallBind {
                    service_token: req.service_token,
                    bind_token: req.bind_token,
                    intent_hash: req.intent_hash,
                    action,
                    data,
                },
            );
            assert(acts@ =~= seq![
                HostAction::CallBind {
                    service_token: req.service_token,
                    bind_token: req.bind_token,
                    intent_hash: req.intent_hash,
                    action: foreign_string(req.action),
                    data: foreign_string(req.data),
                },
            ]);
        } else {
            if svc.callbacks.on_rebind {
                acts.push(
                    HostAction::CallRebind {
                        service_token: req.service_token,
                        intent_hash: req.intent_hash,
                    },
                );
            }
            acts.push(
                HostAction::ServiceDoneExecuting {
                    service_token: req.service_token,
                    kind: DoneKind::Rebind,
                },
            );
            assert(acts@ =~= rebind_actions(svc, req.intent_hash));
            self.set_state(i, ServiceState::Rebinding);
        }
        Ok(acts)
    }

    /// Second half of a first bind, with the capability that the bind entry point returned
    /// (0 when it returned none): the service is bound and the capability is published to the
    /// orchestrator against the bind token. Nothing is published for a module without a bind
    /// entry point.
    pub fn publish_bound_service(&mut self, service_token: u64, bind_token: u64, binder: u64) -> (r:
        Result<HostAction, HostError>)
        requires
            old(self).wf(),
        ensures
            final(self).wf(),
            final(self).spec_process_state() == old(self).spec_process_state(),
            final(self).spec_start_seq() == old(self).spec_start_seq(),
            final(self).factory() == old(self).factory(),
            !has_token(old(self).services(), service_token) ==> r == Err::<HostAction, HostError>(
                HostError::ServiceNotFound,
            ),
            has_token(old(self).services(), service_token) && !old(self).services()[index_of(
                old(self).services(),
                service_token,
            )].callbacks.on_bind ==> r == Err::<HostAction, HostError>(
                HostError::MissingBindEntryPoint,
            ),
            has_token(old(self).services(), service_token) && old(self).services()[index_of(
                old(self).services(),
                service_token,
            )].callbacks.on_bind && binder == 0 ==> r == Err::<HostAction, HostError>(
                HostError::NullBinder,
            ),
            r is Ok <==> has_token(old(self).services(), service_token) && old(
                self,
            ).services()[index_of(old(self).services(), service_token)].callbacks.on_bind
                && binder != 0,
            r matches Ok(a) ==> a == (HostAction::PublishService {
                service_token,
                bind_token,
                binder,
            }),
            final(self).services() == if r is Ok {
                with_state(old(self).services(), service_token, ServiceState::Bound)
            } else {
                old(self).services()
            },
    {
        let i = match self.find(service_token) {
            Some(i) => i,
            None => {
                return Err(HostError::ServiceNotFound);
            },
        };
        if !self.services[i].callbacks.on_bind {
            return Err(HostError::MissingBindEntryPoint);
        }
        if binder == 0 {
            return Err(HostError::NullBinder);
        }
        self.set_state(i, ServiceState::Bound);
        Ok(HostAction::PublishService { service_token, bind_token, binder })
    }

    /// An unbind-service command. When the module has an unbind entry point the owner thread is
    /// asked to call it, and what it answers goes to `finish_unbind_service`; without one the
    /// unbind ends at once with the ordinary report.
    pub fn unbind_service(&mut self, req: &UnbindServiceRequest) -> (r: Result<
        Vec<HostAction>,
        HostError,
    >)
        requires
            old(self).wf(),
        ensures
            final(self).wf(),
            final(self).spec_process_state() == old(self).spec_process_state(),
            final(self).spec_start_seq() == old(self).spec_start_seq(),
            final(self).factory() == old(self).factory(),
            r is Err <==> !has_token(old(self).services(), req.service_token),
            r matches Err(e) ==> e == HostError::ServiceNotFound,
            r is Ok ==> {
                let svc = old(self).services()[index_of(old(self).services(), req.service_token)];
                if svc.callbacks.on_unbind {
                    &&& r matches Ok(acts) && acts@ == seq![
                        HostAction::CallUnbind {
                            service_token: req.service_token,
                            bind_token: req.bind_token,
                            intent_hash: req.intent_hash,
                        },
                    ]
                    &&& final(self).services() == old(self).services()
                } else {
                    &&& r matches Ok(acts) && acts@ == seq![
                        unbind_report(req.service_token, req.bind_token, false),
                    ]
                    &&& final(self).services() == with_state(
                        old(self).services(),
                        req.service_token,
                        ServiceState::Unbound,
                    )
                }
            },
            r is Err ==> final(self).services() == old(self).services(),
    {
        let i = match self.find(req.service_token) {
            Some(i) => i,
            None => {
                return Err(HostError::ServiceNotFound);
            },
        };
        let mut acts: Vec<HostAction> = Vec::new();
        if self.services[i].callbacks.on_unbind {
            acts.push(
                HostAction::CallUnbind {
                    service_token: req.service_token,
                    bind_token: req.bind_token,
                    intent_hash: req.intent_hash,
                },
            );
        } else {
            self.set_state(i, ServiceState::Unbound);
            acts.push(unbind_report_exec(req.service_token, req.bind_token, false));
        }
        Ok(acts)
    }

    /// Second half of an unbind, with what the unbind entry point answered: whether the module
    /// wants a later rebind.
    pub fn finish_unbind_service(
        &mut self,
        service_token: u64,
        bind_token: u64,
        wants_rebind: bool,
    ) -> (r: Result<HostAction, HostError>)
        requires
            old(self).wf(),
        ensures
            final(self).wf(),
            final(self).spec_process_state() == old(self).spec_process_state(),
            final(self).spec_start_seq() == old(self).spec_start_seq(),
            final(self).factory() == old(self).factory(),
            r is Err <==> !has_token(old(self).services(), service_token),
            r matches Err(e) ==> e == HostError::ServiceNotFound,
            r matches Ok(a) ==> a == unbind_report(service_token, bind_token, wants_rebind),
            final(self).services() == if r is Ok {
                with_state(old(self).services(), service_token, ServiceState::Unbound)
            } else {
                old(self).services()
            },
    {
        let i = match self.find(service_token) {
            Some(i) => i,
            None => {
                return Err(HostError::ServiceNotFound);
            },
        };
        self.set_state(i, ServiceState::Unbound);
        Ok(unbind_report_exec(service_token, bind_token, wants_rebind))
    }

    /// A trim-memory command. An unknown level fails before any entry point is called; a
    /// background trim while the process is at least important-foreground is passed on to no
    /// one; otherwise each service that has the entry point is asked, in table order.
    pub fn trim_memory(&self, level: i32) -> (r: Result<Vec<HostAction>, HostError>)
        ensures
            r is Err <==> !is_known_trim_level(level),
            r matches Err(e) ==> e == HostError::InvalidTrimLevel,
            r matches Ok(acts) ==> acts@ == trim_actions(
                self.services(),
                self.spec_process_state(),
                level,
            ),
    {
        if level != TRIM_MEMORY_BACKGROUND && level != TRIM_MEMORY_UI_HIDDEN {
            return Err(HostError::InvalidTrimLevel);
        }
        let mut acts: Vec<HostAction> = Vec::new();
        if level == TRIM_MEMORY_BACKGROUND && self.process_state
            <= PROCESS_STATE_IMPORTANT_FOREGROUND {
            return Ok(acts);
        }
        let mut i: usize = 0;
        while i < self.services.len()
            invariant
                i <= self.services@.len(),
                acts@ == trim_calls(self.services@.take(i as int), level),
            decreases self.services@.len() - i,
        {
            let svc = self.services[i];
            assert(self.services@.take(i + 1).drop_last() =~= self.services@.take(i as int));
            if svc.callbacks.on_trim_memory {
                acts.push(HostAction::CallTrimMemory { service_token: svc.token, level });
            }
            assert(acts@ =~= trim_calls(self.services@.take(i + 1), level));
            i = i + 1;
        }
        assert(self.services@.take(i as int) =~= self.services@);
        Ok(acts)
    }

    /// A bind-application command: native processes run no application-level creation hook, so
    /// the attach is acknowledged at once.
    pub fn bind_application(&self) -> (r: HostAction)
        ensures
            r == (HostAction::FinishAttachApplication { start_seq: self.spec_start_seq() }),
    {
        HostAction::FinishAttachApplication { start_seq: self.start_seq }
    }

    /// A set-process-state command.
    pub fn set_process_state(&mut self, state: i32)
        requires
            old(self).wf(),
        ensures
            final(self).wf(),
            final(self).spec_process_state() == state,
            final(self).services() == old(self).services(),
            final(self).spec_start_seq() == old(self).spec_start_seq(),
            final(self).factory() == old(self).factory(),
    {
        self.process_state = state;
    }

    fn set_state(&mut self, i: usize, state: ServiceState)
        requires
            old(self).wf(),
            i < old(self).services().len(),
        ensures
            final(self).wf(),
            final(self).services() == old(self).services().update(
                i as int,
                HostedService { state, ..old(self).services()[i as int] },
            ),
            final(self).process_state == old(self).process_state,
            final(self).start_seq == old(self).start_seq,
            final(self).namespace_factory == old(self).namespace_factory,
    {
        let svc = self.services[i];
        self.services.set(i, HostedService { state, ..svc });
    }
}

/// A create or a destroy command, as the table sees it.
#[derive(Debug, Clone, Copy, PartialEq, Eq, Structural)]
pub enum LifecycleOp {
    Create(u64, ServiceCallbacks),
    Destroy(u64),
}

/// The table after the commands, applied in order from the table `s`.
pub open spec fn table_after_ops(s: Seq<HostedService>, ops: Seq<LifecycleOp>) -> Seq<
    HostedService,
>
    decreases ops.len(),
{
    if ops.len() == 0 {
        s
    } else {
        let before = table_after_ops(s, ops.drop_last());
        match ops.last() {
            LifecycleOp::Create(t, cb) => table_after_create(before, t, cb),
            LifecycleOp::Destroy(t) => table_after_destroy(before, t),
        }
    }
}

pub open spec fn creates(op: LifecycleOp, token: u64) -> bool {
    op matches LifecycleOp::Create(t, _) && t == token
}

/// The token was created by one of the commands and not destroyed by a later one.
pub open spec fn created_not_destroyed(ops: Seq<LifecycleOp>, token: u64) -> bool {
    exists|i: int|
        0 <= i < ops.len() && creates(#[trigger] ops[i], token) && forall|j: int|
            i < j < ops.len() ==> ops[j] != LifecycleOp::Destroy(token)
}

proof fn lemma_create_tokens(s: Seq<HostedService>, token: u64, callbacks: ServiceCallbacks)
    requires
        unique_tokens(s),
    ensures
        unique_tokens(table_after_create(s, token, callbacks)),
        token_set(table_after_create(s, token, callbacks)) == token_set(s).insert(token),
{
    let r = table_after_create(s, token, callbacks);
    if !has_token(s, token) {
        assert forall|i: int, j: int|
            0 <= i < r.len() && 0 <= j < r.len() && i != j implies r[i].token != r[j].token by {
            if i < s.len() && j < s.len() {
                assert(r[i] == s[i] && r[j] == s[j]);
            } else if i < s.len() {
                assert(r[i] == s[i]);
            } else {
                assert(r[j] == s[j]);
            }
        }
        assert forall|t: u64| has_token(r, t) <==> has_token(s, t) || t == token by {
            if has_token(s, t) {
                let k = choose|k: int| 0 <= k < s.len() && s[k].token == t;
                assert(r[k] == s[k]);
            }
            if t == token {
                assert(r[s.len() as int].token == token);
            }
            if has_token(r, t) && t != token {
                let k = choose|k: int| 0 <= k < r.len() && r[k].token == t;
                assert(k < s.len());
                assert(r[k] == s[k]);
            }
        }
    } else {
        assert forall|t: u64| has_token(r, t) <==> has_token(s, t) || t == token by {}
    }
    assert(token_set(r) =~= token_set(s).insert(token));
}

proof fn lemma_destroy_tokens(s: Seq<HostedService>, token: u64)
    requires
        unique_tokens(s),
    ensures
        unique_tokens(table_after_destroy(s, token)),
        token_set(table_after_destroy(s, token)) == token_set(s).remove(token),
{
    let r = table_after_destroy(s, token);
    if has_token(s, token) {
        let k = index_of(s, token);
        assert(s[k].token == token);
        assert forall|i: int| 0 <= i < r.len() implies r[i] == s[if i < k { i } else { i + 1 }] by {}
        assert forall|i: int, j: int|
            0 <= i < r.len() && 0 <= j < r.len() && i != j implies r[i].token != r[j].token by {
            assert(r[i] == s[if i < k { i } else { i + 1 }]);
            assert(r[j] == s[if j < k { j } else { j + 1 }]);
        }
        assert forall|t: u64| has_token(r, t) <==> has_token(s, t) && t != token by {
            if has_token(r, t) {
                let a = choose|a: int| 0 <= a < r.len() && r[a].token == t;
                let b = if a < k { a } else { a + 1 };
                assert(r[a] == s[b]);
                assert(b != k);
            }
            if has_token(s, t) && t != token {
                let b = choose|b: int| 0 <= b < s.len() && s[b].token == t;
                assert(b != k);
                let a = if b < k { b } else { b - 1 };
                assert(r[a] == s[b]);
            }
        }
    } else {
        assert forall|t: u64| has_token(r, t) <==> has_token(s, t) && t != token by {}
    }
    assert(token_set(r) =~= token_set(s).remove(token));
}

proof fn lemma_created_not_destroyed_step(ops: Seq<LifecycleOp>, t: u64)
    requires
        ops.len() > 0,
    ensures
        created_not_destroyed(ops, t) == (creates(ops.last(), t) || (created_not_destroyed(
            ops.drop_last(),
            t,
        ) && ops.last() != LifecycleOp::Destroy(t))),
{
    let pre = ops.drop_last();
    let n = ops.len() - 1;
    assert forall|j: int| 0 <= j < pre.len() implies pre[j] == ops[j] by {}
    if creates(ops[n], t) {
        assert forall|j: int| n < j < ops.len() implies ops[j] != LifecycleOp::Destroy(t) by {}
        assert(created_not_destroyed(ops, t));
    }
    if created_not_destroyed(pre, t) && ops[n] != LifecycleOp::Destroy(t) {
        let i = choose|i: int|
            0 <= i < pre.len() && creates(#[trigger] pre[i], t) && forall|j: int|
                i < j < pre.len() ==> pre[j] != LifecycleOp::Destroy(t);
        assert(creates(ops[i], t));
        assert forall|j: int| i < j < ops.len() implies ops[j] != LifecycleOp::Destroy(t) by {
            if j < n {
                assert(pre[j] == ops[j]);
            }
        }
        assert(created_not_destroyed(ops, t));
    }
    if created_not_destroyed(ops, t) && !creates(ops[n], t) {
        let i = choose|i: int|
            0 <= i < ops.len() && creates(#[trigger] ops[i], t) && forall|j: int|
                i < j < ops.len() ==> ops[j] != LifecycleOp::Destroy(t);
        assert(i < n);
        assert(creates(pre[i], t));
        assert(ops[n] != LifecycleOp::Destroy(t));
        assert forall|j: int| i < j < pre.len() implies pre[j] != LifecycleOp::Destroy(t) by {
            assert(pre[j] == ops[j]);
        }
        assert(created_not_destroyed(pre, t));
    }
}

/// After any sequence of create and destroy commands on an empty table, the live tokens are
/// exactly those that some command created and no later command destroyed, whatever order the
/// commands came in; and no two live services ever share a token.
pub proof fn lemma_live_tokens(ops: Seq<LifecycleOp>)
    ensures
        unique_tokens(table_after_ops(Seq::empty(), ops)),
        token_set(table_after_ops(Seq::empty(), ops)) == Set::new(
            |t: u64| created_not_destroyed(ops, t),
        ),
    decreases ops.len(),
{
    let e = Seq::<HostedService>::empty();
    if ops.len() == 0 {
        assert(token_set(e) =~= Set::new(|t: u64| created_not_destroyed(ops, t)));
    } else {
        let pre = ops.drop_last();
        lemma_live_tokens(pre);
        let before = table_after_ops(e, pre);
        let last = ops.last();
        assert forall|t: u64|
            created_not_destroyed(ops, t) == (creates(last, t) || (created_not_destroyed(pre, t)
                && last != LifecycleOp::Destroy(t))) by {
            lemma_created_not_destroyed_step(ops, t);
        }
        match last {
            LifecycleOp::Create(tok, cb) => {
                lemma_create_tokens(before, tok, cb);
                assert(token_set(table_after_ops(e, ops)) =~= Set::new(
                    |t: u64| created_not_destroyed(ops, t),
                ));
            },
            LifecycleOp::Destroy(tok) => {
                lemma_destroy_tokens(before, tok);
                assert(token_set(table_after_ops(e, ops)) =~= Set::new(
                    |t: u64| created_not_destroyed(ops, t),
                ));
            },
        }
    }
}

/// How many of the actions unload the module of the service with the token.
pub open spec fn unload_count(acts: Seq<HostAction>, token: u64) -> nat
    decreases acts.len(),
{
    if acts.len() == 0 {
        0
    } else {
        unload_count(acts.drop_last(), token) + if acts.last() == (HostAction::Unload {
            service_token: token,
        }) {
            1nat
        } else {
            0nat
        }
    }
}

/// A create followed at once by a destroy of the same token gives back the table as it was
/// (an empty table stays empty), and the destroy unloads the service's module exactly once.
pub proof fn lemma_create_then_destroy(
    s: Seq<HostedService>,
    token: u64,
    callbacks: ServiceCallbacks,
)
    requires
        unique_tokens(s),
        !has_token(s, token),
    ensures
        table_after_destroy(table_after_create(s, token, callbacks), token) == s,
        unload_count(
            destroy_actions(
                table_after_create(s, token, callbacks)[index_of(
                    table_after_create(s, token, callbacks),
                    token,
                )],
            ),
            token,
        ) == 1,
{
    let c = table_after_create(s, token, callbacks);
    lemma_create_tokens(s, token, callbacks);
    assert(c[s.len() as int].token == token);
    assert(has_token(c, token));
    let k = index_of(c, token);
    if k != s.len() {
        assert(c[k].token != c[s.len() as int].token);
    }
    assert(c.remove(k) =~= s);
    let acts = destroy_actions(c[k]);
    let tail = seq![
        HostAction::Unload { service_token: token },
        HostAction::ServiceDoneExecuting { service_token: token, kind: DoneKind::Stop },
    ];
    assert(tail.drop_last() =~= seq![HostAction::Unload { service_token: token }]);
    assert(tail.drop_last().drop_last() =~= Seq::<HostAction>::empty());
    assert(unload_count(tail.drop_last().drop_last(), token) == 0);
    assert(unload_count(tail.drop_last(), token) == 1);
    assert(unload_count(tail, token) == 1);
    if callbacks.on_destroy {
        let head = seq![HostAction::CallDestroy { service_token: token }];
        assert(acts =~= head + tail);
        assert(acts.drop_last() =~= head + tail.drop_last());
        assert(acts.drop_last().drop_last() =~= head);
        assert(head.drop_last() =~= Seq::<HostAction>::empty());
        assert(unload_count(head.drop_last(), token) == 0);
        assert(unload_count(head, token) == 0);
        assert(unload_count(acts.drop_last().drop_last(), token) == 0);
        assert(unload_count(acts.drop_last(), token) == 1);
    } else {
        assert(acts =~= tail);
    }
}

} // verus!

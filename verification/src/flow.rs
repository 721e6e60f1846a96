//! Network flows, the sockets that own them, and the tokens that stand for claims.

use vstd::prelude::*;

use crate::table::TableKey;
use crate::text;
use crate::types::PathsView;
use crate::types::SandboxPaths;

verus! {

/// An IP address.
#[derive(Clone, Copy, Debug, PartialEq, Eq, Structural)]
pub enum IpAddress {
    V4(u32),
    V6(u128),
}

/// A transport protocol.
#[derive(Clone, Copy, Debug, PartialEq, Eq, Structural)]
pub enum FlowProtocol {
    Tcp,
    Udp,
}

/// The tuple that names a flow.
#[derive(Clone, Copy, Debug, PartialEq, Eq, Structural)]
pub struct NetworkFlowKey {
    pub protocol: FlowProtocol,
    pub source_ip: IpAddress,
    pub source_port: u16,
    pub destination_ip: IpAddress,
    pub destination_port: u16,
}

impl View for NetworkFlowKey {
    type V = NetworkFlowKey;

    open spec fn view(&self) -> NetworkFlowKey {
        *self
    }
}

impl TableKey for NetworkFlowKey {
    fn same(&self, other: &Self) -> (r: bool) {
        *self == *other
    }

    fn duplicate(&self) -> (r: Self) {
        *self
    }
}

/// What is left of a flow's tuple once the destination address is hidden.
#[derive(Clone, Copy, Debug, PartialEq, Eq, Structural)]
pub struct NetworkFlowSelector {
    pub protocol: FlowProtocol,
    pub source_ip: IpAddress,
    pub source_port: u16,
    pub destination_port: u16,
}

impl NetworkFlowSelector {
    /// The flow has the selector's parts.
    pub open spec fn selects(self, flow: NetworkFlowKey) -> bool {
        &&& flow.protocol == self.protocol
        &&& flow.source_ip == self.source_ip
        &&& flow.source_port == self.source_port
        &&& flow.destination_port == self.destination_port
    }

    pub fn matches(&self, flow: &NetworkFlowKey) -> (r: bool)
        ensures
            r == self.selects(*flow),
    {
        flow.protocol == self.protocol && flow.source_ip == self.source_ip && flow.source_port
            == self.source_port && flow.destination_port == self.destination_port
    }
}

/// One process, told apart from a later one with the same pid by its start time.
#[derive(Clone, Copy, Debug, PartialEq, Eq, Structural)]
pub struct ProcessIdentity {
    pub pid: u32,
    pub uid: u32,
    pub start_time_ticks: u64,
}

/// One socket of one process.
#[derive(Clone, Copy, Debug, PartialEq, Eq, Structural)]
pub struct SocketIdentity {
    pub process: ProcessIdentity,
    pub inode: u64,
}

/// The context that a flow was registered with.
#[derive(Debug, PartialEq, Eq)]
pub struct FlowContext {
    pub paths: SandboxPaths,
    pub sandbox_session_id: Option<String>,
}

impl Clone for FlowContext {
    fn clone(&self) -> (r: Self)
        ensures
            r == *self,
    {
        FlowContext {
            paths: self.paths.clone(),
            sandbox_session_id: text::copy_opt(&self.sandbox_session_id),
        }
    }
}

/// A flow, its owner, and what policy knows of its destination.
#[derive(Debug, PartialEq, Eq)]
pub struct FlowRegistration {
    pub flow: NetworkFlowKey,
    pub owner: SocketIdentity,
    pub policy_host: String,
    pub context: FlowContext,
}

/// The view of a registration.
pub struct RegistrationView {
    pub flow: NetworkFlowKey,
    pub owner: SocketIdentity,
    pub policy_host: Seq<char>,
    pub paths: PathsView,
    pub sandbox_session_id: Option<Seq<char>>,
}

impl View for FlowRegistration {
    type V = RegistrationView;

    open spec fn view(&self) -> RegistrationView {
        RegistrationView {
            flow: self.flow,
            owner: self.owner,
            policy_host: self.policy_host@,
            paths: self.context.paths@,
            sandbox_session_id: text::opt_text(self.context.sandbox_session_id),
        }
    }
}

impl Clone for FlowRegistration {
    fn clone(&self) -> (r: Self)
        ensures
            r == *self,
    {
        FlowRegistration {
            flow: self.flow,
            owner: self.owner,
            policy_host: self.policy_host.clone(),
            context: self.context.clone(),
        }
    }
}

impl FlowRegistration {
    /// Whether both registrations say the same.
    pub fn same(&self, other: &FlowRegistration) -> (r: bool)
        ensures
            r == (self@ == other@),
    {
        self.flow == other.flow && self.owner == other.owner && self.policy_host
            == other.policy_host && self.context.paths.same(&other.context.paths)
            && text::same_opt(
            &self.context.sandbox_session_id,
            &other.context.sandbox_session_id,
        )
    }

    /// Both registrations have the same destination host and context.
    pub open spec fn agrees(&self, other: &FlowRegistration) -> bool {
        &&& self@.policy_host == other@.policy_host
        &&& self@.paths == other@.paths
        &&& self@.sandbox_session_id == other@.sandbox_session_id
    }

    pub fn same_target(&self, other: &FlowRegistration) -> (r: bool)
        ensures
            r == self.agrees(other),
    {
        self.policy_host == other.policy_host && self.context.paths.same(&other.context.paths)
            && text::same_opt(
            &self.context.sandbox_session_id,
            &other.context.sandbox_session_id,
        )
    }
}

/// The secret of a proxy session.
#[derive(Clone, Copy, Debug, PartialEq, Eq, Structural)]
pub struct ProxySessionToken {
    pub value: u128,
}

/// The secret of one claimed flow.
#[derive(Clone, Copy, Debug, PartialEq, Eq, Structural)]
pub struct AttributionToken {
    pub value: u128,
}

/// One check of one proxy session.
#[derive(Clone, Copy, Debug, PartialEq, Eq, Structural)]
pub struct ProxyCheckId {
    pub session: ProxySessionToken,
    pub request: u64,
}

impl View for ProxyCheckId {
    type V = ProxyCheckId;

    open spec fn view(&self) -> ProxyCheckId {
        *self
    }
}

impl TableKey for ProxyCheckId {
    fn same(&self, other: &Self) -> (r: bool) {
        *self == *other
    }

    fn duplicate(&self) -> (r: Self) {
        *self
    }
}

} // verus!

//! One connection: what is done with each line that comes in, and what is left when it ends.

use vstd::prelude::*;
use vstd::utf8;

use crate::auth;
use crate::auth::SocketRole;
use crate::error::PolicydError;
use crate::flow::ProxyCheckId;
use crate::rpc::RpcRequest;

verus! {

/// What was read from a connection.
#[derive(Debug, PartialEq, Eq)]
pub enum LineRead {
    /// The end.
    Eof,
    /// A line that is too long, or no text.
    Unusable,
    /// A line, without its end.
    Line(String),
}

/// A line without its end.
pub open spec fn unended(bytes: Seq<u8>) -> Seq<u8> {
    if bytes.len() > 0 && bytes.last() == 10 {
        bytes.drop_last()
    } else {
        bytes
    }
}

/// `std`'s `String::from_utf8`: the text that the bytes encode, where they are UTF-8.
#[verifier::external_body]
fn utf8_text(bytes: Vec<u8>) -> (r: Option<String>)
    ensures
        match r {
            Some(s) => utf8::valid_utf8(bytes@) && s@ == utf8::decode_utf8(bytes@),
            None => !utf8::valid_utf8(bytes@),
        },
{
    String::from_utf8(bytes).ok()
}

/// What the bytes up to and with the next line end stand for. No bytes are the end of the
/// connection.
pub fn frame_line(bytes: Vec<u8>, max_bytes: usize) -> (r: LineRead)
    ensures
        if bytes@.len() == 0 {
            r == LineRead::Eof
        } else if unended(bytes@).len() > max_bytes || !utf8::valid_utf8(unended(bytes@)) {
            r == LineRead::Unusable
        } else {
            r matches LineRead::Line(s) && s@ == utf8::decode_utf8(unended(bytes@))
        },
{
    let mut bytes = bytes;
    let n = bytes.len();
    if n == 0 {
        return LineRead::Eof;
    }
    let ghost read = bytes@;
    if bytes[n - 1] == 10 {
        let _ = bytes.pop();
        assert(bytes@ =~= read.drop_last());
    }
    assert(bytes@ == unended(read));
    if bytes.len() > max_bytes {
        return LineRead::Unusable;
    }
    match utf8_text(bytes) {
        Some(s) => LineRead::Line(s),
        None => LineRead::Unusable,
    }
}

/// What is done with what was read.
#[derive(Debug, PartialEq, Eq)]
pub enum LineStep {
    /// End the connection.
    Stop,
    /// Answer with the error, and read on.
    Refuse(PolicydError),
    /// Read on.
    Skip,
    /// Take the line for a request.
    Parse(String),
}

/// What is done with a request.
#[derive(Debug, PartialEq, Eq)]
pub enum RequestStep {
    /// Check beside the connection, which reads on.
    Start(ProxyCheckId),
    /// Dispatch, and answer under the request's number where it has one.
    Dispatch { answer_under: Option<u64>, opens_session: bool, registers_ui: bool },
}

/// What is left to do when a connection ends.
#[derive(Debug, PartialEq, Eq)]
pub struct ClientEnd {
    /// The checks that are still running, to be cancelled in this order.
    pub cancel: Vec<ProxyCheckId>,
    /// The client's proxy session is to be closed.
    pub close_proxy_session: bool,
}

/// The state of a connection.
#[derive(Debug, PartialEq, Eq)]
pub struct ClientState {
    pub role: SocketRole,
    /// The connection holds the proxy session.
    pub session_owner: bool,
    /// The checks that run beside the connection.
    pub active: Vec<ProxyCheckId>,
}

/// The number that the proxy gave its request.
pub open spec fn request_number(req: RpcRequest) -> Option<u64> {
    match req {
        RpcRequest::CheckHttp { request_id, .. } => Some(request_id),
        RpcRequest::CheckNetworkFlow { request_id, .. } => Some(request_id),
        RpcRequest::CancelCheck { request_id, .. } => Some(request_id),
        _ => None,
    }
}

/// The check that the request asks for.
pub open spec fn check_identity(req: RpcRequest) -> Option<ProxyCheckId> {
    match req {
        RpcRequest::CheckHttp { proxy_session, request_id, .. } => Some(
            ProxyCheckId { session: proxy_session, request: request_id },
        ),
        RpcRequest::CheckNetworkFlow { proxy_session, request_id, .. } => Some(
            ProxyCheckId { session: proxy_session, request: request_id },
        ),
        _ => None,
    }
}

/// The number that the proxy gave its request.
pub fn proxy_request_id(req: &RpcRequest) -> (r: Option<u64>)
    ensures
        r == request_number(*req),
{
    match req {
        RpcRequest::CheckHttp { request_id, .. } => Some(*request_id),
        RpcRequest::CheckNetworkFlow { request_id, .. } => Some(*request_id),
        RpcRequest::CancelCheck { request_id, .. } => Some(*request_id),
        _ => None,
    }
}

/// The check that the request asks for.
pub fn proxy_check_identity(req: &RpcRequest) -> (r: Option<ProxyCheckId>)
    ensures
        r == check_identity(*req),
{
    match req {
        RpcRequest::CheckHttp { proxy_session, request_id, .. } => Some(
            ProxyCheckId { session: *proxy_session, request: *request_id },
        ),
        RpcRequest::CheckNetworkFlow { proxy_session, request_id, .. } => Some(
            ProxyCheckId { session: *proxy_session, request: *request_id },
        ),
        _ => None,
    }
}

/// The list without the first of its items that is the given one.
pub open spec fn without_first(list: Seq<ProxyCheckId>, check: ProxyCheckId) -> Seq<ProxyCheckId>
    decreases list.len(),
{
    if list.len() == 0 {
        list
    } else if list[0] == check {
        list.skip(1)
    } else {
        seq![list[0]] + without_first(list.skip(1), check)
    }
}

proof fn lemma_without_first(list: Seq<ProxyCheckId>, check: ProxyCheckId, i: int)
    requires
        0 <= i <= list.len(),
        forall|j: int| 0 <= j < i ==> list[j] != check,
    ensures
        i < list.len() && list[i] == check ==> without_first(list, check) == list.remove(i),
        i == list.len() ==> without_first(list, check) == list,
    decreases i,
{
    if list.len() > 0 {
        if i == 0 {
            assert(list.skip(1) =~= list.remove(0));
        } else {
            let rest = list.skip(1);
            assert forall|j: int| 0 <= j < i - 1 implies rest[j] != check by {
                assert(rest[j] == list[j + 1]);
            }
            assert(list[0] != check);
            lemma_without_first(rest, check, i - 1);
            if i < list.len() && list[i] == check {
                assert(rest[i - 1] == list[i]);
                assert(seq![list[0]] + rest.remove(i - 1) =~= list.remove(i));
            }
            if i == list.len() {
                assert(seq![list[0]] + rest =~= list);
            }
        }
    }
}

/// The role of a connection once a request has been answered: one that has registered a UI is
/// the UI's from then on.
pub open spec fn role_after(role: SocketRole, registers_ui: bool, ok: bool) -> SocketRole {
    if registers_ui && ok && (role == SocketRole::Host || role == SocketRole::Sandbox) {
        SocketRole::UiFd
    } else {
        role
    }
}

impl ClientState {
    /// A connection in a role.
    pub fn new(role: SocketRole) -> (r: Self)
        ensures
            r.role == role,
            !r.session_owner,
            r.active@ == Seq::<ProxyCheckId>::empty(),
    {
        ClientState { role, session_owner: false, active: Vec::new() }
    }

    /// The connection may not carry another request: it holds the proxy session, or a check
    /// runs beside it.
    pub open spec fn spent(&self) -> bool {
        self.role == SocketRole::Proxy && (self.session_owner || self.active@.len() > 0)
    }

    /// What is done with what was read.
    pub fn on_line(&self, read: LineRead) -> (r: LineStep)
        ensures
            r == (match read {
                LineRead::Eof => LineStep::Stop,
                LineRead::Unusable => LineStep::Refuse(PolicydError::RpcLineTooLarge),
                LineRead::Line(line) => if self.spent() {
                    LineStep::Stop
                } else if line@.len() == 0 {
                    LineStep::Skip
                } else {
                    LineStep::Parse(line)
                },
            }),
    {
        match read {
            LineRead::Eof => LineStep::Stop,
            LineRead::Unusable => LineStep::Refuse(PolicydError::RpcLineTooLarge),
            LineRead::Line(line) => {
                if self.role == SocketRole::Proxy && (self.session_owner || self.active.len()
                    > 0) {
                    LineStep::Stop
                } else if crate::text::chars_of(line.as_str()).len() == 0 {
                    LineStep::Skip
                } else {
                    LineStep::Parse(line)
                }
            },
        }
    }

    /// What is done with a request. A check of the proxy is noted as running.
    pub fn on_request(&mut self, req: &RpcRequest) -> (r: RequestStep)
        ensures
            final(self).role == old(self).role,
            final(self).session_owner == old(self).session_owner,
            match check_identity(*req) {
                Some(check) if old(self).role == SocketRole::Proxy => {
                    &&& r == RequestStep::Start(check)
                    &&& final(self).active@ == old(self).active@.push(check)
                },
                _ => {
                    &&& r == (RequestStep::Dispatch {
                        answer_under: if old(self).role == SocketRole::Proxy {
                            request_number(*req)
                        } else {
                            None
                        },
                        opens_session: *req is OpenProxySession,
                        registers_ui: *req is RegisterUi,
                    })
                    &&& final(self).active@ == old(self).active@
                },
            },
    {
        let proxy = self.role == SocketRole::Proxy;
        if proxy {
            if let Some(check) = proxy_check_identity(req) {
                self.active.push(check);
                return RequestStep::Start(check);
            }
        }
        let answer_under = if proxy {
            proxy_request_id(req)
        } else {
            None
        };
        let opens_session = match req {
            RpcRequest::OpenProxySession => true,
            _ => false,
        };
        let registers_ui = match req {
            RpcRequest::RegisterUi { .. } => true,
            _ => false,
        };
        RequestStep::Dispatch { answer_under, opens_session, registers_ui }
    }

    /// Take note of the answer to a dispatched request: whether pending requests are now to be
    /// looked at again and sent to the UI.
    pub fn on_reply(&mut self, opens_session: bool, registers_ui: bool, ok: bool) -> (r: bool)
        ensures
            final(self).active == old(self).active,
            final(self).session_owner == (old(self).session_owner || (old(self).role
                == SocketRole::Proxy && opens_session && ok)),
            final(self).role == role_after(old(self).role, registers_ui, ok),
            r == (registers_ui && ok),
    {
        if self.role == SocketRole::Proxy && opens_session && ok {
            self.session_owner = true;
        }
        if registers_ui && ok && (self.role == SocketRole::Host || self.role
            == SocketRole::Sandbox) {
            self.role = SocketRole::UiFd;
        }
        registers_ui && ok
    }

    /// Take note that a check has ended.
    pub fn on_check_done(&mut self, check: ProxyCheckId)
        ensures
            final(self).role == old(self).role,
            final(self).session_owner == old(self).session_owner,
            final(self).active@ == without_first(old(self).active@, check),
    {
        let mut i: usize = 0;
        let n = self.active.len();
        while i < n
            invariant
                i <= n,
                n == self.active@.len(),
                *self == *old(self),
                forall|j: int| 0 <= j < i ==> self.active@[j] != check,
            decreases n - i,
        {
            if self.active[i] == check {
                proof {
                    lemma_without_first(self.active@, check, i as int);
                }
                let _ = self.active.remove(i);
                return;
            }
            i += 1;
        }
        proof {
            lemma_without_first(self.active@, check, n as int);
        }
    }

    /// What is left to do when the connection ends.
    pub fn finish(self) -> (r: ClientEnd)
        ensures
            r == (ClientEnd {
                cancel: self.active,
                close_proxy_session: self.role == SocketRole::Proxy,
            }),
    {
        ClientEnd { close_proxy_session: self.role == SocketRole::Proxy, cancel: self.active }
    }
}

/// A sandboxed process never comes to hold a UI's connection: what would make its own one is not
/// admitted, and nothing else changes the role.
pub proof fn law_sandbox_connection_stays_one(req: RpcRequest, uid: u32, ok: bool)
    requires
        auth::admission_refusal(SocketRole::Sandbox, uid, req) is Some ==> !ok,
    ensures
        role_after(SocketRole::Sandbox, req is RegisterUi, ok) == SocketRole::Sandbox,
{
}

/// A check that ends takes back what starting it did.
pub proof fn law_done_undoes_start(list: Seq<ProxyCheckId>, check: ProxyCheckId)
    requires
        !list.contains(check),
    ensures
        without_first(list.push(check), check) == list,
{
    let all = list.push(check);
    assert forall|j: int| 0 <= j < list.len() implies all[j] != check by {
        assert(all[j] == list[j]);
    }
    lemma_without_first(all, check, list.len() as int);
    assert(all.remove(list.len() as int) =~= list);
}

/// A check that has ended is no longer cancelled with the connection, and every other one still
/// is.
pub proof fn law_done_keeps_the_others(
    list: Seq<ProxyCheckId>,
    check: ProxyCheckId,
    other: ProxyCheckId,
)
    requires
        other != check,
    ensures
        without_first(list, check).contains(other) == list.contains(other),
        list.no_duplicates() ==> !without_first(list, check).contains(check),
    decreases list.len(),
{
    let left = without_first(list, check);
    if list.contains(check) {
        let i = list.index_of_first(check)->0;
        list.index_of_first_ensures(check);
        lemma_without_first(list, check, i);
        assert(left == list.remove(i));
        if list.contains(other) {
            let k = choose|k: int| 0 <= k < list.len() && list[k] == other;
            if k < i {
                assert(left[k] == other);
            } else {
                assert(left[k - 1] == other);
            }
        }
        if left.contains(other) {
            let k = choose|k: int| 0 <= k < left.len() && left[k] == other;
            if k < i {
                assert(list[k] == other);
            } else {
                assert(list[k + 1] == other);
            }
        }
        if list.no_duplicates() && left.contains(check) {
            let k = choose|k: int| 0 <= k < left.len() && left[k] == check;
            if k < i {
                assert(list[k] == check);
            } else {
                assert(list[k + 1] == check);
            }
        }
    } else {
        assert forall|j: int| 0 <= j < list.len() implies list[j] != check by {
            assert(list.contains(list[j]));
        }
        lemma_without_first(list, check, list.len() as int);
    }
}

} // verus!

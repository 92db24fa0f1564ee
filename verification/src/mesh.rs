//! The mesh task's protocol rules: what to do with a datagram received on
//! the multicast socket, when to broadcast one onto it, and how the
//! processor's outcome is dispatched between the client and mesh queues.

use vstd::prelude::*;
use crate::endpoint::Endpoint;
use crate::expiring::{ExpiringMap, ExpiringSet};
use crate::resolve::{Ret, RetView, ret_view, StepView, spec_step, lemma_no_feedback_loop, HostEnv};
use crate::message::DnsMessage;

verus! {

/// What the mesh task does with a datagram received on the mesh socket.
#[derive(PartialEq, Eq, Structural)]
pub enum MeshInAction {
    /// A correlated reply: forward it to this client on the client queue.
    ForwardToClient(Endpoint),
    /// An unknown transaction: reprocess it with the mesh as its source.
    Process,
    /// Correlated but stale, or a duplicate: do nothing.
    Discard,
}

/// Where the processor's outcome goes.
pub enum Dispatch {
    ToClient(Vec<u8>, Endpoint),
    ToMesh(Vec<u8>, Endpoint),
    Discard,
}

/// The mathematical view of a `Dispatch`.
pub enum DispatchView {
    ToClient(Seq<u8>, Endpoint),
    ToMesh(Seq<u8>, Endpoint),
    Discard,
}

/// View of a `Dispatch`.
pub open spec fn dispatch_view(d: Dispatch) -> DispatchView {
    match d {
        Dispatch::ToClient(b, e) => DispatchView::ToClient(b@, e),
        Dispatch::ToMesh(b, e) => DispatchView::ToMesh(b@, e),
        Dispatch::Discard => DispatchView::Discard,
    }
}

/// The server variant's rule for a datagram received on the mesh: a
/// response to a pending transaction goes back to the recorded client
/// while still live; an unknown transaction is reprocessed; the rest is
/// dropped. The table is never written here.
pub open spec fn spec_mesh_inbound_server(
    t: ExpiringMap<Endpoint>,
    id: u16,
    qr: bool,
    now: u64,
) -> MeshInAction {
    if t.spec_has(id) {
        if qr {
            match t.spec_get(id, now) {
                Some(client) => MeshInAction::ForwardToClient(client),
                None => MeshInAction::Discard,
            }
        } else {
            MeshInAction::Discard
        }
    } else {
        MeshInAction::Process
    }
}

/// Server-variant mesh inbound (executable).
pub fn mesh_inbound_server(t: &ExpiringMap<Endpoint>, id: u16, qr: bool, now: u64) -> (r:
    MeshInAction)
    requires
        t.wf(),
    ensures
        r == spec_mesh_inbound_server(*t, id, qr, now),
{
    if t.contains(id) {
        if qr {
            match t.get(id, now) {
                Some(client) => MeshInAction::ForwardToClient(client),
                None => MeshInAction::Discard,
            }
        } else {
            MeshInAction::Discard
        }
    } else {
        MeshInAction::Process
    }
}

/// The server variant broadcasts exactly the fresh local queries: the
/// recorded client is unicast, the transaction is not pending, and the
/// datagram is a query.
pub open spec fn spec_mesh_send_server(
    t: ExpiringMap<Endpoint>,
    id: u16,
    qr: bool,
    client: Endpoint,
    now: u64,
) -> bool {
    !client.spec_is_multicast() && !t.spec_has(id) && !qr
}

/// Server-variant mesh outbound (executable): decides whether to
/// broadcast, and on a broadcast first records the client under the
/// transaction ID so a later reply can be correlated.
pub fn mesh_outbound_server(
    t: &mut ExpiringMap<Endpoint>,
    id: u16,
    qr: bool,
    client: Endpoint,
    now: u64,
) -> (send: bool)
    requires
        old(t).wf(),
        now + old(t).time_to_live <= u64::MAX,
    ensures
        send == spec_mesh_send_server(*old(t), id, qr, client, now),
        send ==> ExpiringMap::spec_inserted(*old(t), *final(t), id, client, now),
        !send ==> *final(t) == *old(t),
{
    if !client.is_multicast() && !t.contains(id) && !qr {
        let _ = t.insert(id, client, now);
        true
    } else {
        false
    }
}

/// The endpoint variant reprocesses exactly the datagrams whose
/// transaction is not in its suppression set, irrespective of expiry.
pub fn mesh_inbound_endpoint(s: &ExpiringSet, id: u16) -> (process: bool)
    ensures
        process == !s.spec_has(id),
{
    !s.contains(id)
}

/// The endpoint variant broadcasts exactly the locally produced responses
/// to transactions not in its suppression set, and records the ID first so
/// it will not reprocess its own echoed response.
pub fn mesh_outbound_endpoint(s: &mut ExpiringSet, id: u16, qr: bool, now: u64) -> (send: bool)
    requires
        old(s).wf(),
        now + old(s).inner.time_to_live <= u64::MAX,
    ensures
        send == (!old(s).spec_has(id) && qr),
        send ==> ExpiringMap::spec_inserted(old(s).inner, final(s).inner, id, (), now),
        !send ==> *final(s) == *old(s),
{
    if !s.contains(id) && qr {
        s.insert(id, now);
        true
    } else {
        false
    }
}

/// Where the processor's outcome is dispatched: a response to a
/// mesh-sourced query goes to the mesh queue, one to a client goes to the
/// client queue; a mesh hand-off goes to the mesh queue; nothing else
/// moves.
pub open spec fn spec_dispatch(r: RetView, src: Endpoint) -> DispatchView {
    match r {
        RetView::Resp(b) => if src.spec_is_multicast() {
            DispatchView::ToMesh(b, src)
        } else {
            DispatchView::ToClient(b, src)
        },
        RetView::SendToMesh(b, e) => DispatchView::ToMesh(b, e),
        RetView::NoOp => DispatchView::Discard,
    }
}

/// Dispatch the processor's outcome (executable).
pub fn dispatch_ret(r: Ret, src: Endpoint) -> (d: Dispatch)
    ensures
        dispatch_view(d) == spec_dispatch(ret_view(r), src),
{
    match r {
        Ret::Resp(b) => if src.is_multicast() {
            Dispatch::ToMesh(b, src)
        } else {
            Dispatch::ToClient(b, src)
        },
        Ret::SendToMesh(b, e) => Dispatch::ToMesh(b, e),
        Ret::NoOp => Dispatch::Discard,
    }
}

/// A forwarded local query is correlated: when the outbound rule
/// broadcasts a query recorded for `client` at time `now`, the table
/// entry it wrote routes any reply carrying that transaction ID back to
/// exactly `client`, at any time within the table's time-to-live.
pub proof fn lemma_forward_then_reply_reaches_client(
    t0: ExpiringMap<Endpoint>,
    t1: ExpiringMap<Endpoint>,
    id: u16,
    qr: bool,
    client: Endpoint,
    now: u64,
    later: u64,
)
    requires
        spec_mesh_send_server(t0, id, qr, client, now),
        ExpiringMap::spec_inserted(t0, t1, id, client, now),
        now <= later <= now + t0.time_to_live,
    ensures
        spec_mesh_inbound_server(t1, id, true, later) == MeshInAction::ForwardToClient(client),
{
}

/// Replies with one transaction ID reach one client only: whenever the
/// inbound rule forwards a correlated reply, at any two times against the
/// same table, it forwards to the same client; a reply past expiry is
/// dropped, never redirected.
pub proof fn lemma_replies_single_target(
    t: ExpiringMap<Endpoint>,
    id: u16,
    qr: bool,
    t1: u64,
    t2: u64,
)
    requires
        t.wf(),
    ensures
        match (spec_mesh_inbound_server(t, id, qr, t1), spec_mesh_inbound_server(t, id, qr, t2)) {
            (MeshInAction::ForwardToClient(c1), MeshInAction::ForwardToClient(c2)) => c1 == c2,
            _ => true,
        },
{
}

/// No feedback loop, end to end, in the server variant: processing a
/// datagram whose source is the mesh address can dispatch to the mesh
/// queue only with a multicast client, and the mesh outbound rule never
/// broadcasts for a multicast client. So no datagram received on the mesh
/// socket ever causes one to be sent back onto the mesh.
pub proof fn lemma_no_feedback_server(
    env: HostEnv,
    msg: DnsMessage,
    src: Endpoint,
    i: int,
    t: ExpiringMap<Endpoint>,
    id: u16,
    qr: bool,
    now: u64,
)
    requires
        src.spec_is_multicast(),
    ensures
        match spec_step(env, msg, src, i) {
            StepView::Done(r) => match spec_dispatch(r, src) {
                DispatchView::ToMesh(_b, client) => client.spec_is_multicast()
                    && !spec_mesh_send_server(t, id, qr, client, now),
                _ => true,
            },
            StepView::NeedUpstream(_) => true,
        },
        !spec_mesh_send_server(t, id, qr, src, now),
{
    lemma_no_feedback_loop(env, msg, src, i);
}

} // verus!

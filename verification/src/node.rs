//! The routing engine: owns the node identity, trust list, adaptor registry
//! and storage handle, and decides how and where a message travels.
//!
//! Per message the engine runs `Received -> {LocalDeliver | DirectSendAttempt
//! -> RelayAttempt*} -> {Delivered | Failed(loop) | Failed(unreachable)}`;
//! every decision for one hop is made synchronously within a single `recieve`
//! call, and nothing is persisted between hops beyond the dedup record of
//! seen message ids.

use vstd::prelude::*;
use vstd::string::*;

use crate::adaptor::{AdaptorClient, AdaptorRouter, AdaptorSpecifier, SpecifierView};
use crate::db::Database;
use crate::error::{error, Error, ErrorCode};
use crate::model::{ep_eq, shares_transport, Agent, EndPoint, Message, Meta, Receipt, ReceiptTrace};

verus! {

/// The wall-clock reading, in milliseconds since the Unix epoch.
///
/// Relies on `chrono::Utc::now`: the value depends on the clock, so nothing
/// is stated of it. On a system clock set before the Unix epoch the call
/// itself panics inside chrono.
#[verifier::external_body]
fn now_millis() -> i64 {
    chrono::Utc::now().timestamp_millis()
}

/// Some hop record in `agents` bears the identity `eid`.
pub open spec fn trail_has(agents: Seq<Agent>, eid: Seq<char>) -> bool {
    exists|i: int| 0 <= i < agents.len() && agents[i].eid@ == eid
}

/// Some id in `seen` equals `id`.
pub open spec fn seen_has(seen: Seq<String>, id: Seq<char>) -> bool {
    exists|i: int| 0 <= i < seen.len() && seen[i]@ == id
}

/// The registry resolves `k` to an adaptor that accepts posting `m` to `addr`.
pub open spec fn attempt_ok<C: AdaptorClient>(
    router: AdaptorRouter<C>,
    m: Message,
    k: SpecifierView,
    addr: Seq<char>,
) -> bool {
    router.contains_spec(k) && router.adaptor_at(k).post_ok(m, addr)
}

/// The `i`th accept entry of `ep` names a transport that `target` also
/// accepts, and its adaptor accepts posting `m` to the address under which
/// `target` listens on that transport.
pub open spec fn pair_ok<C: AdaptorClient>(
    ep: EndPoint,
    router: AdaptorRouter<C>,
    m: Message,
    target: EndPoint,
    i: int,
) -> bool {
    target.has_key(ep.accept@[i].0@) && attempt_ok(
        router,
        m,
        ep.accept@[i].0@,
        target.addr_of(ep.accept@[i].0@),
    )
}

/// Some accept entry of `ep` can hand `m` off towards `target`.
pub open spec fn send_ok<C: AdaptorClient>(
    ep: EndPoint,
    router: AdaptorRouter<C>,
    m: Message,
    target: EndPoint,
) -> bool {
    exists|i: int| 0 <= i < ep.accept@.len() && pair_ok(ep, router, m, target, i)
}

/// How many of the first `upto` accept entries of `ep` name a transport that
/// `target` also accepts: the (endpoint, transport) pairs a send attempts.
pub open spec fn count_viable(ep: EndPoint, target: EndPoint, upto: int) -> int
    decreases upto,
{
    if upto <= 0 {
        0
    } else {
        count_viable(ep, target, upto - 1) + if target.has_key(ep.accept@[upto - 1].0@) {
            1int
        } else {
            0int
        }
    }
}

/// `rc` records a successful handoff of `m` to `target`: a `Forward` trace
/// naming `target` and the first accept entry (in `ep`'s insertion order)
/// that is shared with `target` and whose adaptor accepted the post.
pub open spec fn forward_receipt<C: AdaptorClient>(
    ep: EndPoint,
    router: AdaptorRouter<C>,
    m: Message,
    target: EndPoint,
    rc: Receipt,
) -> bool {
    &&& rc.message_id == m.id
    &&& exists|i: int|
        #![auto]
        {
            &&& 0 <= i < ep.accept@.len()
            &&& pair_ok(ep, router, m, target, i)
            &&& forall|j: int| 0 <= j < i ==> !pair_ok(ep, router, m, target, j)
            &&& match rc.trace {
                ReceiptTrace::Forward { endpoint, spec } => ep_eq(endpoint, target) && spec@
                    == ep.accept@[i].0@,
                _ => false,
            }
        }
}

/// The `k`th trusted peer qualifies for relaying `m`: it is absent from the
/// trail and shares at least one transport with the destination.
pub open spec fn peer_qual(trust: Seq<EndPoint>, m: Message, k: int) -> bool {
    !trail_has(m.agents@, trust[k].eid@) && shares_transport(trust[k], m.to)
}

/// Relaying `m` through the `k`th trusted peer succeeds.
pub open spec fn relay_ok<C: AdaptorClient>(
    ep: EndPoint,
    router: AdaptorRouter<C>,
    trust: Seq<EndPoint>,
    m: Message,
    k: int,
) -> bool {
    peer_qual(trust, m, k) && send_ok(ep, router, m, trust[k])
}

/// How many (endpoint, transport) pairs a relay sweep attempts among the
/// first `upto` trusted peers: for each qualifying peer, one per transport
/// shared between `ep` and that peer.
pub open spec fn count_attempts(ep: EndPoint, trust: Seq<EndPoint>, m: Message, upto: int) -> int
    decreases upto,
{
    if upto <= 0 {
        0
    } else {
        count_attempts(ep, trust, m, upto - 1) + if peer_qual(trust, m, upto - 1) {
            count_viable(ep, trust[upto - 1], ep.accept@.len() as int)
        } else {
            0int
        }
    }
}

/// `m2` is `m` with one fresh hop record bearing identity `eid` appended to
/// its trail, everything else unchanged.
pub open spec fn hop_stamped(eid: String, m: Message, m2: Message) -> bool {
    exists|ag: Agent|
        {
            &&& #[trigger] m2.agents@ == m.agents@.push(ag)
            &&& ag.eid == eid
            &&& ag.recieve_time <= ag.forward_time
            &&& m2.id == m.id
            &&& ep_eq(m2.from, m.from)
            &&& ep_eq(m2.to, m.to)
            &&& crate::model::content_eq(m2.content, m.content)
            &&& m2.create_time == m.create_time
            &&& m2.meta == m.meta
        }
}

/// `rc` records delivery of `m` to its final destination, this node.
pub open spec fn reached_receipt(ep: EndPoint, m: Message, rc: Receipt) -> bool {
    &&& rc.message_id == m.id
    &&& match rc.trace {
        ReceiptTrace::Reached { endpoint } => ep_eq(endpoint, ep),
        _ => false,
    }
}

/// A successful `forward` outcome for the stamped message `m2`: either a
/// direct handoff to the destination, or — when no direct pair works — a
/// relay through the first qualifying trusted peer whose attempt succeeded.
pub open spec fn forward_outcome<C: AdaptorClient>(
    ep: EndPoint,
    router: AdaptorRouter<C>,
    trust: Seq<EndPoint>,
    m2: Message,
    rc: Receipt,
) -> bool {
    ||| forward_receipt(ep, router, m2, m2.to, rc)
    ||| (!send_ok(ep, router, m2, m2.to) && exists|k: int|
        {
            &&& 0 <= k < trust.len()
            &&& #[trigger] peer_qual(trust, m2, k)
            &&& forall|j: int| 0 <= j < k ==> !relay_ok(ep, router, trust, m2, j)
            &&& forward_receipt(ep, router, m2, trust[k], rc)
        })
}

/// A failed `forward` outcome for the stamped message `m2`: no direct pair
/// worked, no qualifying peer could relay, and the traceback holds exactly
/// one entry per attempted (endpoint, transport) pair — the transports
/// shared with the destination, plus those shared with each qualifying peer.
pub open spec fn unreachable_outcome<C: AdaptorClient>(
    ep: EndPoint,
    router: AdaptorRouter<C>,
    trust: Seq<EndPoint>,
    m2: Message,
    e: Error,
) -> bool {
    &&& !send_ok(ep, router, m2, m2.to)
    &&& forall|k: int| 0 <= k < trust.len() ==> !relay_ok(ep, router, trust, m2, k)
    &&& e.traceback@.len() == count_viable(ep, m2.to, ep.accept@.len() as int) + count_attempts(
        ep,
        trust,
        m2,
        trust.len() as int,
    )
}

/// The running node: its own endpoint, the peers it is willing to relay
/// through, the adaptor registry, the storage handle, and the dedup record.
pub struct Node<C: AdaptorClient, D: Database> {
    pub endpoint: EndPoint,
    pub trust: Vec<EndPoint>,
    pub adaptors: AdaptorRouter<C>,
    pub database: D,
    /// The dedup record of message ids this node has handled, in first-seen
    /// order. It is deliberately unbounded: one entry per distinct message id
    /// for the node's lifetime, so a loop is detected even when a relaying
    /// hop failed to stamp the trail.
    pub seen: Vec<String>,
}

/// Configuration collected before a node is constructed.
#[allow(dead_code)]
pub struct NodeBuilder {
    endpoint: EndPoint,
    trust: Vec<EndPoint>,
}

impl<C: AdaptorClient, D: Database> Node<C, D> {
    /// The registry keys are pairwise distinct.
    pub open spec fn wf(self) -> bool {
        self.adaptors.wf()
    }

    /// The message loops: this node has already handled its id, or its trail
    /// already bears this node's identity. The two conditions catch the same
    /// failure through independent mechanisms.
    pub open spec fn is_loop(self, m: Message) -> bool {
        seen_has(self.seen@, m.id@) || trail_has(m.agents@, self.endpoint.eid@)
    }

    /// Everything `forward` promises of its outcome, over the pre-state.
    pub open spec fn forward_post(self, m: Message, r: Result<Receipt, Error>) -> bool {
        match r {
            Result::Ok(rc) => !self.is_loop(m) && exists|m2: Message|
                #[trigger] hop_stamped(self.endpoint.eid, m, m2) && forward_outcome(
                    self.endpoint,
                    self.adaptors,
                    self.trust@,
                    m2,
                    rc,
                ),
            Result::Err(e) => {
                &&& (e.code == ErrorCode::LoopDetected || e.code == ErrorCode::Unreachable)
                &&& (e.code == ErrorCode::LoopDetected <==> self.is_loop(m))
                &&& (e.code == ErrorCode::LoopDetected ==> e.traceback@.len() == 0)
                &&& (e.code == ErrorCode::Unreachable ==> exists|m2: Message|
                    #[trigger] hop_stamped(self.endpoint.eid, m, m2) && unreachable_outcome(
                        self.endpoint,
                        self.adaptors,
                        self.trust@,
                        m2,
                        e,
                    ))
            },
        }
    }

    /// Builds a node around its own endpoint and a storage handle, with an
    /// empty trust list, an empty registry and an empty dedup record.
    pub fn new(ep: EndPoint, db: D) -> (r: Node<C, D>)
        ensures
            r.endpoint == ep,
            r.database == db,
            r.trust@.len() == 0,
            r.adaptors.router@.len() == 0,
            r.seen@.len() == 0,
            r.wf(),
    {
        Node {
            endpoint: ep,
            database: db,
            trust: Vec::new(),
            adaptors: AdaptorRouter::default(),
            seen: Vec::new(),
        }
    }

    /// This node's own endpoint.
    pub fn endpoint(&self) -> (r: &EndPoint)
        ensures
            *r == self.endpoint,
    {
        &self.endpoint
    }

    /// A fresh hop record for this node, stamped with the current time and
    /// the protocol version tag. The clock is sampled once, so the record's
    /// receive time never exceeds its forward time.
    pub fn as_agent(&self) -> (r: Agent)
        ensures
            r.eid == self.endpoint.eid,
            r.meta.swo_version@ == crate::model::protocol_version(),
            r.recieve_time <= r.forward_time,
    {
        let stamp = now_millis();
        Agent {
            eid: self.endpoint.eid.clone(),
            recieve_time: stamp,
            forward_time: stamp,
            meta: Meta::default(),
        }
    }

    /// Resolves `spec` in the registry and delegates to the adaptor's
    /// outbound capability; an unregistered transport is `NotFound`.
    pub fn send(&self, message: &Message, spec: &AdaptorSpecifier, addr: &str) -> (r: Result<
        (),
        Error,
    >)
        requires
            self.wf(),
        ensures
            r is Ok <==> attempt_ok(self.adaptors, *message, spec@, addr@),
            r matches Err(e) ==> (!self.adaptors.contains_spec(spec@) ==> e.code
                == ErrorCode::NotFound && e.message@ == "adaptor "@ + crate::adaptor::spec_canonical(
                spec.id@,
                spec.version@,
            ) + " not found"@ && e.traceback@.len() == 0),
    {
        match self.adaptors.get_client(spec) {
            None => {
                let mut msg = String::from_str("adaptor ");
                let shown = spec.canonical();
                msg.append(shown.as_str());
                msg.append(" not found");
                proof {
                    assert(msg@ =~= "adaptor "@ + crate::adaptor::spec_canonical(
                        spec.id@,
                        spec.version@,
                    ) + " not found"@);
                }
                error(msg, ErrorCode::NotFound)
            },
            Some(a) => a.post_message(message, addr),
        }
    }

    /// Attempts to hand `message` off to `endpoint` over each transport both
    /// sides accept, in this node's accept order, returning the receipt of
    /// the first success; if every shared transport fails the result is
    /// `Unreachable` with one traceback entry per attempted transport.
    pub fn send_to_ep(&self, message: &Message, endpoint: &EndPoint) -> (r: Result<Receipt, Error>)
        requires
            self.wf(),
            endpoint.wf(),
        ensures
            r is Ok <==> send_ok(self.endpoint, self.adaptors, *message, *endpoint),
            r matches Ok(rc) ==> forward_receipt(
                self.endpoint,
                self.adaptors,
                *message,
                *endpoint,
                rc,
            ),
            r matches Err(e) ==> e.code == ErrorCode::Unreachable && e.traceback@.len()
                == count_viable(self.endpoint, *endpoint, self.endpoint.accept@.len() as int),
    {
        let mut err_collect: Vec<Error> = Vec::new();
        let n = self.endpoint.accept.len();
        let mut i: usize = 0;
        while i < n
            invariant
                self.wf(),
                endpoint.wf(),
                n == self.endpoint.accept@.len(),
                i <= n,
                forall|j: int|
                    0 <= j < i ==> !pair_ok(self.endpoint, self.adaptors, *message, *endpoint, j),
                err_collect@.len() == count_viable(self.endpoint, *endpoint, i as int),
            decreases n - i,
        {
            if let Some(addr) = endpoint.address_of(&self.endpoint.accept[i].0) {
                let outcome = self.send(message, &self.endpoint.accept[i].0, addr.as_str());
                match outcome {
                    Err(e) => {
                        err_collect.push(e);
                    },
                    Ok(_done) => {
                        let rc = Receipt {
                            id: EndPoint::gen_eid(),
                            message_id: message.id.clone(),
                            trace: ReceiptTrace::Forward {
                                endpoint: endpoint.clone(),
                                spec: self.endpoint.accept[i].0.clone(),
                            },
                        };
                        proof {
                            assert(pair_ok(
                                self.endpoint,
                                self.adaptors,
                                *message,
                                *endpoint,
                                i as int,
                            ));
                        }
                        return Ok(rc);
                    },
                }
            }
            i += 1;
        }
        let e = Error {
            message: String::from_str("All endpoint is unreachable"),
            code: ErrorCode::Unreachable,
            traceback: err_collect,
        };
        Err(e)
    }

    /// This node has already handled the message id.
    fn has_recieved(&self, id: &String) -> (r: bool)
        ensures
            r == seen_has(self.seen@, id@),
    {
        let mut i: usize = 0;
        while i < self.seen.len()
            invariant
                i <= self.seen@.len(),
                forall|j: int| 0 <= j < i ==> self.seen@[j]@ != id@,
            decreases self.seen@.len() - i,
        {
            if self.seen[i] == *id {
                return true;
            }
            i += 1;
        }
        false
    }

    /// Decides where `message` travels next: rejects loops, stamps this
    /// node's hop record onto the trail, attempts a direct send to the
    /// destination, then relays through trusted peers in list order, and
    /// aggregates every failed attempt when nothing worked.
    pub fn forward(&mut self, message: &Message) -> (r: Result<Receipt, Error>)
        requires
            old(self).wf(),
            message.to.wf(),
            forall|k: int| 0 <= k < old(self).trust@.len() ==> old(self).trust@[k].wf(),
        ensures
            final(self).wf(),
            final(self).endpoint == old(self).endpoint,
            final(self).trust == old(self).trust,
            final(self).adaptors == old(self).adaptors,
            old(self).is_loop(*message) ==> final(self).seen@ == old(self).seen@,
            !old(self).is_loop(*message) ==> final(self).seen@ == old(self).seen@.push(
                message.id,
            ),
            old(self).forward_post(*message, r),
    {
        if self.has_recieved(&message.id) || trail_contains(&message.agents, &self.endpoint.eid) {
            let rc = Receipt {
                id: EndPoint::gen_eid(),
                message_id: message.id.clone(),
                trace: ReceiptTrace::Fail { reason: String::from_str("loop detected") },
            };
            let _saved = self.database.save_receipt(&rc);
            let mut msg = String::from_str("This message was sent out from me: ");
            msg.append(self.endpoint.eid.as_str());
            return error(msg, ErrorCode::LoopDetected);
        }
        self.seen.push(message.id.clone());
        let mut m = message.clone();
        let ag = self.as_agent();
        m.agents.push(ag);
        proof {
            assert(m.agents@ == message.agents@.push(ag));
            assert(hop_stamped(old(self).endpoint.eid, *message, m));
        }
        let mut err_collect: Vec<Error> = Vec::new();
        match self.send_to_ep(&m, &m.to) {
            Ok(rc) => {
                return Ok(rc);
            },
            Err(e) => {
                let Error { message: _, code: _, traceback: mut sub } = e;
                err_collect.append(&mut sub);
            },
        }
        let tn = self.trust.len();
        let mut k: usize = 0;
        while k < tn
            invariant
                self.wf(),
                self.endpoint == old(self).endpoint,
                self.trust == old(self).trust,
                self.adaptors == old(self).adaptors,
                self.seen@ == old(self).seen@.push(message.id),
                tn == self.trust@.len(),
                k <= tn,
                !old(self).is_loop(*message),
                hop_stamped(old(self).endpoint.eid, *message, m),
                ep_eq(m.to, message.to),
                m.to.wf(),
                forall|j: int| 0 <= j < tn ==> old(self).trust@[j].wf(),
                !send_ok(old(self).endpoint, old(self).adaptors, m, m.to),
                forall|j: int|
                    0 <= j < k ==> !relay_ok(
                        old(self).endpoint,
                        old(self).adaptors,
                        old(self).trust@,
                        m,
                        j,
                    ),
                err_collect@.len() == count_viable(
                    old(self).endpoint,
                    m.to,
                    old(self).endpoint.accept@.len() as int,
                ) + count_attempts(old(self).endpoint, old(self).trust@, m, k as int),
            decreases tn - k,
        {
            let qualifies = !trail_contains(&m.agents, &self.trust[k].eid)
                && crate::model::ep_shares_transport(&self.trust[k], &m.to);
            if qualifies {
                let outcome = self.send_to_ep(&m, &self.trust[k]);
                match outcome {
                    Ok(rc) => {
                        proof {
                            assert(peer_qual(old(self).trust@, m, k as int));
                            assert(forward_receipt(
                                old(self).endpoint,
                                old(self).adaptors,
                                m,
                                old(self).trust@[k as int],
                                rc,
                            ));
                        }
                        return Ok(rc);
                    },
                    Err(e) => {
                        let Error { message: _, code: _, traceback: mut sub } = e;
                        err_collect.append(&mut sub);
                    },
                }
            }
            k += 1;
        }
        let rc = Receipt {
            id: EndPoint::gen_eid(),
            message_id: message.id.clone(),
            trace: ReceiptTrace::Fail { reason: String::from_str("unreachable") },
        };
        let _saved = self.database.save_receipt(&rc);
        let e = Error {
            message: String::from_str("all forward and direct send failed"),
            code: ErrorCode::Unreachable,
            traceback: err_collect,
        };
        proof {
            assert(unreachable_outcome(
                old(self).endpoint,
                old(self).adaptors,
                old(self).trust@,
                m,
                e,
            ));
        }
        Err(e)
    }

    /// Hands a message addressed to this node to local delivery, producing
    /// and persisting a `Reached` receipt.
    pub fn revieve_tome(&mut self, message: &Message) -> (r: Result<Receipt, Error>)
        ensures
            final(self).wf() == old(self).wf(),
            final(self).endpoint == old(self).endpoint,
            final(self).trust == old(self).trust,
            final(self).adaptors == old(self).adaptors,
            final(self).seen@ == old(self).seen@,
            r matches Ok(rc) && reached_receipt(old(self).endpoint, *message, rc),
    {
        let rc = Receipt {
            id: EndPoint::gen_eid(),
            message_id: message.id.clone(),
            trace: ReceiptTrace::Reached { endpoint: self.endpoint.clone() },
        };
        let _saved = self.database.save_receipt(&rc);
        Ok(rc)
    }

    /// The single inbound entry point: a message addressed to this node is
    /// handed to local delivery and never relayed; any other message is
    /// forwarded.
    pub fn recieve(&mut self, message: &Message) -> (r: Result<Receipt, Error>)
        requires
            old(self).wf(),
            message.to.wf(),
            forall|k: int| 0 <= k < old(self).trust@.len() ==> old(self).trust@[k].wf(),
        ensures
            final(self).wf(),
            final(self).endpoint == old(self).endpoint,
            final(self).trust == old(self).trust,
            final(self).adaptors == old(self).adaptors,
            message.to.eid@ == old(self).endpoint.eid@ ==> (r matches Ok(rc) && reached_receipt(
                old(self).endpoint,
                *message,
                rc,
            ) && final(self).seen@ == old(self).seen@),
            message.to.eid@ != old(self).endpoint.eid@ ==> old(self).forward_post(*message, r),
            message.to.eid@ != old(self).endpoint.eid@ && old(self).is_loop(*message)
                ==> final(self).seen@ == old(self).seen@,
            message.to.eid@ != old(self).endpoint.eid@ && !old(self).is_loop(*message)
                ==> final(self).seen@ == old(self).seen@.push(message.id),
    {
        if message.to.eid == self.endpoint.eid {
            self.revieve_tome(message)
        } else {
            self.forward(message)
        }
    }
}

/// Direct send wins: when the node shares a transport with the destination
/// and the registered adaptor accepts every post of the stamped message,
/// `forward` returns a `Forward` receipt handing the message to the
/// destination itself over a shared transport — the trust list plays no part
/// in the outcome.
pub proof fn lemma_direct_send_wins<C: AdaptorClient, D: Database>(
    n: Node<C, D>,
    m: Message,
    r: Result<Receipt, Error>,
)
    requires
        n.forward_post(m, r),
        !n.is_loop(m),
        forall|m2: Message| #[trigger]
            hop_stamped(n.endpoint.eid, m, m2) ==> send_ok(n.endpoint, n.adaptors, m2, m2.to),
    ensures
        r matches Ok(rc) && exists|m2: Message| #[trigger]
            hop_stamped(n.endpoint.eid, m, m2) && forward_receipt(
                n.endpoint,
                n.adaptors,
                m2,
                m2.to,
                rc,
            ),
{
    match r {
        Result::Ok(rc) => {
            let m2 = choose|m2: Message| #[trigger]
                hop_stamped(n.endpoint.eid, m, m2) && forward_outcome(
                    n.endpoint,
                    n.adaptors,
                    n.trust@,
                    m2,
                    rc,
                );
            assert(send_ok(n.endpoint, n.adaptors, m2, m2.to));
            assert(forward_receipt(n.endpoint, n.adaptors, m2, m2.to, rc));
        },
        Result::Err(e) => {
            if e.code == ErrorCode::Unreachable {
                let m2 = choose|m2: Message| #[trigger]
                    hop_stamped(n.endpoint.eid, m, m2) && unreachable_outcome(
                        n.endpoint,
                        n.adaptors,
                        n.trust@,
                        m2,
                        e,
                    );
                assert(send_ok(n.endpoint, n.adaptors, m2, m2.to));
                assert(false);
            } else {
                assert(false);
            }
        },
    }
}

/// Relay through the first qualifying peer: when no transport is shared with
/// the destination, but the trusted peer at position `k` qualifies (absent
/// from the stamped trail, sharing a transport with the destination) and its
/// relay attempt is accepted, while no earlier peer can relay, `forward`
/// returns a `Forward` receipt naming exactly that peer.
pub proof fn lemma_relay_first_peer<C: AdaptorClient, D: Database>(
    n: Node<C, D>,
    m: Message,
    r: Result<Receipt, Error>,
    k: int,
)
    requires
        n.forward_post(m, r),
        !n.is_loop(m),
        !shares_transport(n.endpoint, m.to),
        0 <= k < n.trust@.len(),
        forall|m2: Message| #[trigger]
            hop_stamped(n.endpoint.eid, m, m2) ==> peer_qual(n.trust@, m2, k) && send_ok(
                n.endpoint,
                n.adaptors,
                m2,
                n.trust@[k],
            ),
        forall|m2: Message| #[trigger]
            hop_stamped(n.endpoint.eid, m, m2) ==> forall|j: int|
                0 <= j < k ==> !relay_ok(n.endpoint, n.adaptors, n.trust@, m2, j),
    ensures
        r matches Ok(rc) && exists|m2: Message| #[trigger]
            hop_stamped(n.endpoint.eid, m, m2) && forward_receipt(
                n.endpoint,
                n.adaptors,
                m2,
                n.trust@[k],
                rc,
            ),
{
    assert forall|m2: Message| #[trigger]
        hop_stamped(n.endpoint.eid, m, m2) implies !send_ok(
        n.endpoint,
        n.adaptors,
        m2,
        m2.to,
    ) by {
        if send_ok(n.endpoint, n.adaptors, m2, m2.to) {
            let i = choose|i: int|
                0 <= i < n.endpoint.accept@.len() && pair_ok(
                    n.endpoint,
                    n.adaptors,
                    m2,
                    m2.to,
                    i,
                );
            assert(m2.to.has_key(n.endpoint.accept@[i].0@));
            let w = choose|w: int|
                0 <= w < m2.to.accept@.len() && m2.to.accept@[w].0@ == n.endpoint.accept@[i].0@;
            assert(m.to.accept@[w].0@ == n.endpoint.accept@[i].0@);
            assert(m.to.has_key(n.endpoint.accept@[i].0@));
            assert(shares_transport(n.endpoint, m.to));
            assert(false);
        }
    }
    match r {
        Result::Ok(rc) => {
            let m2 = choose|m2: Message| #[trigger]
                hop_stamped(n.endpoint.eid, m, m2) && forward_outcome(
                    n.endpoint,
                    n.adaptors,
                    n.trust@,
                    m2,
                    rc,
                );
            assert(!send_ok(n.endpoint, n.adaptors, m2, m2.to));
            let kk = choose|kk: int|
                {
                    &&& 0 <= kk < n.trust@.len()
                    &&& #[trigger] peer_qual(n.trust@, m2, kk)
                    &&& forall|j: int|
                        0 <= j < kk ==> !relay_ok(n.endpoint, n.adaptors, n.trust@, m2, j)
                    &&& forward_receipt(n.endpoint, n.adaptors, m2, n.trust@[kk], rc)
                };
            if kk < k {
                assert(!relay_ok(n.endpoint, n.adaptors, n.trust@, m2, kk));
                assert(send_ok(n.endpoint, n.adaptors, m2, n.trust@[kk]));
                assert(false);
            } else if k < kk {
                assert(!relay_ok(n.endpoint, n.adaptors, n.trust@, m2, k));
                assert(relay_ok(n.endpoint, n.adaptors, n.trust@, m2, k));
                assert(false);
            }
            assert(forward_receipt(n.endpoint, n.adaptors, m2, n.trust@[k], rc));
        },
        Result::Err(e) => {
            if e.code == ErrorCode::Unreachable {
                let m2 = choose|m2: Message| #[trigger]
                    hop_stamped(n.endpoint.eid, m, m2) && unreachable_outcome(
                        n.endpoint,
                        n.adaptors,
                        n.trust@,
                        m2,
                        e,
                    );
                assert(relay_ok(n.endpoint, n.adaptors, n.trust@, m2, k));
                assert(false);
            } else {
                assert(false);
            }
        },
    }
}

/// When every direct and every relay attempt fails, `forward` returns
/// `Unreachable`, and its traceback aggregates one entry per attempted
/// endpoint: the direct attempt plus each qualifying trusted peer.
pub proof fn lemma_unreachable_aggregates<C: AdaptorClient, D: Database>(
    n: Node<C, D>,
    m: Message,
    r: Result<Receipt, Error>,
)
    requires
        n.forward_post(m, r),
        !n.is_loop(m),
        forall|m2: Message| #[trigger]
            hop_stamped(n.endpoint.eid, m, m2) ==> !send_ok(n.endpoint, n.adaptors, m2, m2.to),
        forall|m2: Message| #[trigger]
            hop_stamped(n.endpoint.eid, m, m2) ==> forall|k: int|
                0 <= k < n.trust@.len() ==> !send_ok(n.endpoint, n.adaptors, m2, n.trust@[k]),
    ensures
        r matches Err(e) && e.code == ErrorCode::Unreachable && exists|m2: Message| #[trigger]
            hop_stamped(n.endpoint.eid, m, m2) && e.traceback@.len() == count_viable(
                n.endpoint,
                m2.to,
                n.endpoint.accept@.len() as int,
            ) + count_attempts(n.endpoint, n.trust@, m2, n.trust@.len() as int),
{
    match r {
        Result::Ok(rc) => {
            let m2 = choose|m2: Message| #[trigger]
                hop_stamped(n.endpoint.eid, m, m2) && forward_outcome(
                    n.endpoint,
                    n.adaptors,
                    n.trust@,
                    m2,
                    rc,
                );
            if forward_receipt(n.endpoint, n.adaptors, m2, m2.to, rc) {
                assert(send_ok(n.endpoint, n.adaptors, m2, m2.to));
                assert(false);
            } else {
                let kk = choose|kk: int|
                    {
                        &&& 0 <= kk < n.trust@.len()
                        &&& #[trigger] peer_qual(n.trust@, m2, kk)
                        &&& forward_receipt(n.endpoint, n.adaptors, m2, n.trust@[kk], rc)
                    };
                assert(send_ok(n.endpoint, n.adaptors, m2, n.trust@[kk]));
                assert(false);
            }
        },
        Result::Err(e) => {
            assert(e.code == ErrorCode::Unreachable);
        },
    }
}

/// Some hop record in `agents` bears the identity `eid`.
fn trail_contains(agents: &Vec<Agent>, eid: &String) -> (r: bool)
    ensures
        r == trail_has(agents@, eid@),
{
    let mut i: usize = 0;
    while i < agents.len()
        invariant
            i <= agents@.len(),
            forall|j: int| 0 <= j < i ==> agents@[j].eid@ != eid@,
        decreases agents@.len() - i,
    {
        if agents[i].eid == *eid {
            return true;
        }
        i += 1;
    }
    false
}

} // verus!

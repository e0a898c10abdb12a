//! Identity and addressing model: endpoints, messages, hop records, receipts.
//!
//! An `EndPoint` is a node identity (`eid`) together with the set of
//! transport/address pairs through which it can receive messages. A `Message`
//! names a destination endpoint and carries an append-only trail of `Agent`
//! hop records, used both for loop prevention and as an audit log. A `Receipt`
//! records the outcome of one send or delivery attempt.
//!
//! Times are carried as milliseconds since the Unix epoch.

use vstd::prelude::*;
use vstd::string::*;

use crate::adaptor::AdaptorSpecifier;

verus! {

/// A node identity together with the transports it accepts.
///
/// `accept` maps a transport specifier to the address under which this
/// endpoint listens on that transport. It is kept as a sequence of pairs in
/// insertion order; well-formed endpoints have pairwise distinct specifiers.
/// An endpoint with an empty `accept` set is unreachable by direct send or
/// relay.
#[derive(Debug)]
pub struct EndPoint {
    pub eid: String,
    pub accept: Vec<(AdaptorSpecifier, String)>,
}

/// Two endpoints describe the same identity and transport set.
pub open spec fn ep_eq(a: EndPoint, b: EndPoint) -> bool {
    a.eid == b.eid && a.accept@ == b.accept@
}

impl EndPoint {
    /// The accept set has pairwise distinct transport specifiers.
    pub open spec fn wf(self) -> bool {
        forall|i: int, j: int|
            0 <= i < j < self.accept@.len() ==> self.accept@[i].0@ != self.accept@[j].0@
    }

    /// The endpoint accepts the transport identified by `k`.
    pub open spec fn has_key(self, k: crate::adaptor::SpecifierView) -> bool {
        exists|i: int| 0 <= i < self.accept@.len() && self.accept@[i].0@ == k
    }

    /// The address under which this endpoint listens on the transport `k`
    /// (meaningful when `has_key(k)` and the endpoint is well-formed).
    pub open spec fn addr_of(self, k: crate::adaptor::SpecifierView) -> Seq<char> {
        let i = choose|i: int| 0 <= i < self.accept@.len() && self.accept@[i].0@ == k;
        self.accept@[i].1@
    }

    /// In a well-formed endpoint the entry at any index holding `k` is the
    /// entry that `addr_of(k)` describes.
    pub proof fn lemma_addr_at(self, k: crate::adaptor::SpecifierView, i: int)
        requires
            self.wf(),
            0 <= i < self.accept@.len(),
            self.accept@[i].0@ == k,
        ensures
            self.has_key(k),
            self.addr_of(k) == self.accept@[i].1@,
    {
        assert(self.has_key(k));
        let j = choose|j: int| 0 <= j < self.accept@.len() && self.accept@[j].0@ == k;
        if i < j {
            assert(self.accept@[i].0@ != self.accept@[j].0@);
        } else if j < i {
            assert(self.accept@[j].0@ != self.accept@[i].0@);
        }
    }

    /// The address under which this endpoint listens on the given transport,
    /// or `None` when it does not accept it.
    pub fn address_of(&self, spec: &AdaptorSpecifier) -> (r: Option<&String>)
        requires
            self.wf(),
        ensures
            (r is Some) == self.has_key(spec@),
            r matches Some(a) ==> a@ == self.addr_of(spec@),
    {
        match self.find_key(spec) {
            Some(i) => {
                proof {
                    self.lemma_addr_at(spec@, i as int);
                }
                Some(&self.accept[i].1)
            },
            None => None,
        }
    }

    /// Generates a fresh endpoint identity.
    ///
    /// Relies on `nanoid::format` with the URL-safe alphabet: a fresh random
    /// 21-character identifier. The value depends on the random generator, so
    /// only its length is stated.
    #[verifier::external_body]
    pub fn gen_eid() -> (r: String)
        ensures
            r@.len() == 21,
    {
        nanoid::format(nanoid::rngs::default, &nanoid::alphabet::SAFE, 21)
    }

    /// Builds an endpoint with the given identity and an empty accept set.
    pub fn new(eid: String) -> (r: EndPoint)
        ensures
            r.eid == eid,
            r.accept@.len() == 0,
            r.wf(),
    {
        EndPoint { eid, accept: Vec::new() }
    }

    /// Adds (or replaces) the address under which this endpoint listens on
    /// the given transport, keeping the specifiers pairwise distinct.
    pub fn insert_accept(&mut self, spec: AdaptorSpecifier, addr: String)
        requires
            old(self).wf(),
        ensures
            final(self).wf(),
            final(self).eid == old(self).eid,
            final(self).has_key(spec@),
            final(self).addr_of(spec@) == addr@,
            forall|k: crate::adaptor::SpecifierView|
                k != spec@ ==> final(self).has_key(k) == old(self).has_key(k),
            forall|k: crate::adaptor::SpecifierView|
                k != spec@ && old(self).has_key(k) ==> final(self).addr_of(k) == old(self).addr_of(
                    k,
                ),
    {
        if let Some(i) = self.find_key(&spec) {
            self.accept.set(i, (spec, addr));
            proof {
                assert(self.accept@[i as int].0@ == spec@);
                assert forall|p: int, q: int|
                    0 <= p < q < self.accept@.len() implies self.accept@[p].0@
                    != self.accept@[q].0@ by {
                    assert(old(self).accept@[p].0@ != old(self).accept@[q].0@);
                    if p == i as int {
                        assert(self.accept@[p].0@ == old(self).accept@[p].0@);
                    }
                    if q == i as int {
                        assert(self.accept@[q].0@ == old(self).accept@[q].0@);
                    }
                }
                assert forall|k: crate::adaptor::SpecifierView| k != spec@ implies self.has_key(k)
                    == old(self).has_key(k) by {
                    if old(self).has_key(k) {
                        let j = choose|j: int|
                            0 <= j < old(self).accept@.len() && old(self).accept@[j].0@ == k;
                        assert(self.accept@[j].0@ == k);
                    }
                    if self.has_key(k) {
                        let j = choose|j: int|
                            0 <= j < self.accept@.len() && self.accept@[j].0@ == k;
                        assert(old(self).accept@[j].0@ == k);
                    }
                }
                assert(self.has_key(spec@));
                self.lemma_addr_at(spec@, i as int);
                assert forall|k: crate::adaptor::SpecifierView|
                    k != spec@ && old(self).has_key(k) implies self.addr_of(k) == old(
                    self,
                ).addr_of(k) by {
                    let j = choose|j: int|
                        0 <= j < old(self).accept@.len() && old(self).accept@[j].0@ == k;
                    old(self).lemma_addr_at(k, j);
                    assert(self.accept@[j] == old(self).accept@[j]);
                    self.lemma_addr_at(k, j);
                }
            }
            return;
        }
        self.accept.push((spec, addr));
        proof {
            assert forall|p: int, q: int|
                0 <= p < q < self.accept@.len() implies self.accept@[p].0@
                != self.accept@[q].0@ by {
                if q < self.accept@.len() - 1 {
                    assert(old(self).accept@[p].0@ != old(self).accept@[q].0@);
                }
            }
            assert(self.accept@[self.accept@.len() - 1].0@ == spec@);
            assert(self.has_key(spec@));
            assert forall|k: crate::adaptor::SpecifierView| k != spec@ implies self.has_key(k)
                == old(self).has_key(k) by {
                if old(self).has_key(k) {
                    let j = choose|j: int|
                        0 <= j < old(self).accept@.len() && old(self).accept@[j].0@ == k;
                    assert(self.accept@[j].0@ == k);
                }
                if self.has_key(k) {
                    let j = choose|j: int| 0 <= j < self.accept@.len() && self.accept@[j].0@ == k;
                    assert(j < self.accept@.len() - 1);
                    assert(old(self).accept@[j].0@ == k);
                }
            }
            self.lemma_addr_at(spec@, self.accept@.len() - 1);
            assert forall|k: crate::adaptor::SpecifierView|
                k != spec@ && old(self).has_key(k) implies self.addr_of(k) == old(self).addr_of(
                k,
            ) by {
                let j = choose|j: int|
                    0 <= j < old(self).accept@.len() && old(self).accept@[j].0@ == k;
                old(self).lemma_addr_at(k, j);
                self.lemma_addr_at(k, j);
            }
        }
    }

    /// The index at which this endpoint lists the given transport specifier.
    fn find_key(&self, spec: &AdaptorSpecifier) -> (r: Option<usize>)
        ensures
            r matches Some(i) ==> i < self.accept@.len() && self.accept@[i as int].0@ == spec@,
            r is None ==> forall|j: int| 0 <= j < self.accept@.len() ==> self.accept@[j].0@
                != spec@,
    {
        let mut i: usize = 0;
        while i < self.accept.len()
            invariant
                i <= self.accept@.len(),
                forall|j: int| 0 <= j < i ==> self.accept@[j].0@ != spec@,
            decreases self.accept@.len() - i,
        {
            if self.accept[i].0.same_spec(spec) {
                return Some(i);
            }
            i += 1;
        }
        None
    }

    /// The endpoint accepts the given transport specifier.
    pub fn accepts(&self, spec: &AdaptorSpecifier) -> (r: bool)
        ensures
            r == self.has_key(spec@),
    {
        let mut i: usize = 0;
        while i < self.accept.len()
            invariant
                i <= self.accept@.len(),
                forall|j: int| 0 <= j < i ==> self.accept@[j].0@ != spec@,
            decreases self.accept@.len() - i,
        {
            if self.accept[i].0.same_spec(spec) {
                return true;
            }
            i += 1;
        }
        false
    }
}

impl Clone for EndPoint {
    fn clone(&self) -> (r: EndPoint)
        ensures
            ep_eq(r, *self),
    {
        let mut accept: Vec<(AdaptorSpecifier, String)> = Vec::new();
        let mut i: usize = 0;
        while i < self.accept.len()
            invariant
                i <= self.accept@.len(),
                accept@.len() == i,
                forall|j: int| 0 <= j < i ==> accept@[j] == self.accept@[j],
            decreases self.accept@.len() - i,
        {
            let (s, a) = (&self.accept[i].0, &self.accept[i].1);
            accept.push((s.clone(), a.clone()));
            i += 1;
        }
        proof {
            assert(accept@ =~= self.accept@);
        }
        EndPoint { eid: self.eid.clone(), accept }
    }
}

/// Two endpoints share at least one transport specifier.
pub open spec fn shares_transport(a: EndPoint, b: EndPoint) -> bool {
    exists|i: int| 0 <= i < a.accept@.len() && b.has_key(a.accept@[i].0@)
}

/// The endpoints `a` and `b` share at least one transport specifier.
pub fn ep_shares_transport(a: &EndPoint, b: &EndPoint) -> (r: bool)
    ensures
        r == shares_transport(*a, *b),
{
    let mut i: usize = 0;
    while i < a.accept.len()
        invariant
            i <= a.accept@.len(),
            forall|j: int| 0 <= j < i ==> !b.has_key(a.accept@[j].0@),
        decreases a.accept@.len() - i,
    {
        if b.accepts(&a.accept[i].0) {
            return true;
        }
        i += 1;
    }
    false
}

/// The payload of a message: text or raw bytes.
#[derive(Debug)]
pub enum MessageContent {
    Plain(String),
    Raw(Vec<u8>),
}

/// The contents of `a` and `b` are equal.
pub open spec fn content_eq(a: MessageContent, b: MessageContent) -> bool {
    match (a, b) {
        (MessageContent::Plain(x), MessageContent::Plain(y)) => x == y,
        (MessageContent::Raw(x), MessageContent::Raw(y)) => x@ == y@,
        _ => false,
    }
}

impl Clone for MessageContent {
    fn clone(&self) -> (r: MessageContent)
        ensures
            content_eq(r, *self),
    {
        match self {
            MessageContent::Plain(s) => MessageContent::Plain(s.clone()),
            MessageContent::Raw(b) => {
                let mut v: Vec<u8> = Vec::new();
                let mut i: usize = 0;
                while i < b.len()
                    invariant
                        i <= b@.len(),
                        v@ == b@.subrange(0, i as int),
                    decreases b@.len() - i,
                {
                    v.push(b[i]);
                    i += 1;
                    proof {
                        assert(v@ =~= b@.subrange(0, i as int));
                    }
                }
                proof {
                    assert(v@ =~= b@);
                }
                MessageContent::Raw(v)
            },
        }
    }
}

/// Protocol metadata attached to messages and hop records.
#[derive(Debug)]
pub struct Meta {
    pub swo_version: String,
}

/// The protocol version tag carried in default metadata.
pub open spec fn protocol_version() -> Seq<char> {
    "1"@
}

impl Default for Meta {
    /// Metadata carrying the current protocol version tag.
    fn default() -> (r: Meta)
        ensures
            r.swo_version@ == protocol_version(),
    {
        let swo_version = String::from_str("1");
        proof {
            reveal_strlit("1");
        }
        Meta { swo_version }
    }
}

impl Clone for Meta {
    fn clone(&self) -> (r: Meta)
        ensures
            r == *self,
    {
        Meta { swo_version: self.swo_version.clone() }
    }
}

/// One hop record: a node that has handled the message, with the times at
/// which it received and forwarded it (milliseconds since the Unix epoch).
#[derive(Debug)]
pub struct Agent {
    pub eid: String,
    pub recieve_time: i64,
    pub forward_time: i64,
    pub meta: Meta,
}

impl Clone for Agent {
    fn clone(&self) -> (r: Agent)
        ensures
            r == *self,
    {
        Agent {
            eid: self.eid.clone(),
            recieve_time: self.recieve_time,
            forward_time: self.forward_time,
            meta: self.meta.clone(),
        }
    }
}

/// A message travelling through the overlay.
///
/// Immutable except for the `agents` trail, which only grows as the message
/// is relayed: every node that handles it appends one hop record before any
/// send attempt.
#[derive(Debug)]
pub struct Message {
    pub id: String,
    pub from: EndPoint,
    pub to: EndPoint,
    pub content: MessageContent,
    pub create_time: i64,
    pub meta: Meta,
    pub agents: Vec<Agent>,
}

/// The messages `a` and `b` carry the same identity, endpoints, content and
/// trail.
pub open spec fn msg_eq(a: Message, b: Message) -> bool {
    &&& a.id == b.id
    &&& ep_eq(a.from, b.from)
    &&& ep_eq(a.to, b.to)
    &&& content_eq(a.content, b.content)
    &&& a.create_time == b.create_time
    &&& a.meta == b.meta
    &&& a.agents@ == b.agents@
}

impl Clone for Message {
    fn clone(&self) -> (r: Message)
        ensures
            msg_eq(r, *self),
    {
        let mut agents: Vec<Agent> = Vec::new();
        let mut i: usize = 0;
        while i < self.agents.len()
            invariant
                i <= self.agents@.len(),
                agents@.len() == i,
                forall|j: int| 0 <= j < i ==> agents@[j] == self.agents@[j],
            decreases self.agents@.len() - i,
        {
            agents.push(self.agents[i].clone());
            i += 1;
        }
        proof {
            assert(agents@ =~= self.agents@);
        }
        Message {
            id: self.id.clone(),
            from: self.from.clone(),
            to: self.to.clone(),
            content: self.content.clone(),
            create_time: self.create_time,
            meta: self.meta.clone(),
            agents,
        }
    }
}

/// Summary information about a node, reserved for external inspection.
#[derive(Debug)]
pub struct NodeInfo {}

/// A record of the outcome of one send or delivery attempt for a message.
#[derive(Debug)]
pub struct Receipt {
    pub id: String,
    pub message_id: String,
    pub trace: ReceiptTrace,
}

/// How the attempt that produced a receipt ended.
#[derive(Debug)]
pub enum ReceiptTrace {
    /// Handed off to the next hop `endpoint` via transport `spec`.
    Forward { endpoint: EndPoint, spec: AdaptorSpecifier },
    /// Delivered to its final destination `endpoint`.
    Reached { endpoint: EndPoint },
    /// Could not be dispatched.
    Fail { reason: String },
}

/// The traces `a` and `b` record the same outcome.
pub open spec fn trace_eq(a: ReceiptTrace, b: ReceiptTrace) -> bool {
    match (a, b) {
        (
            ReceiptTrace::Forward { endpoint: e1, spec: s1 },
            ReceiptTrace::Forward { endpoint: e2, spec: s2 },
        ) => ep_eq(e1, e2) && s1 == s2,
        (ReceiptTrace::Reached { endpoint: e1 }, ReceiptTrace::Reached { endpoint: e2 }) => ep_eq(
            e1,
            e2,
        ),
        (ReceiptTrace::Fail { reason: r1 }, ReceiptTrace::Fail { reason: r2 }) => r1 == r2,
        _ => false,
    }
}

/// The receipts `a` and `b` record the same attempt and outcome.
pub open spec fn receipt_eq(a: Receipt, b: Receipt) -> bool {
    a.id == b.id && a.message_id == b.message_id && trace_eq(a.trace, b.trace)
}

impl Clone for ReceiptTrace {
    fn clone(&self) -> (r: ReceiptTrace)
        ensures
            trace_eq(r, *self),
    {
        match self {
            ReceiptTrace::Forward { endpoint, spec } => ReceiptTrace::Forward {
                endpoint: endpoint.clone(),
                spec: spec.clone(),
            },
            ReceiptTrace::Reached { endpoint } => ReceiptTrace::Reached {
                endpoint: endpoint.clone(),
            },
            ReceiptTrace::Fail { reason } => ReceiptTrace::Fail { reason: reason.clone() },
        }
    }
}

impl Clone for Receipt {
    fn clone(&self) -> (r: Receipt)
        ensures
            receipt_eq(r, *self),
    {
        Receipt {
            id: self.id.clone(),
            message_id: self.message_id.clone(),
            trace: self.trace.clone(),
        }
    }
}

} // verus!

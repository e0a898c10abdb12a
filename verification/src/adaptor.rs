//! Transport adaptors: the capability contract a transport must satisfy and
//! the registry that maps a transport specifier to a live adaptor instance.
//!
//! Only the outbound capability is a trait here: the inbound capability is a
//! concrete server in the surrounding process, whose whole duty is to decode
//! wire messages and call the routing engine's receive entry point.

use vstd::prelude::*;
use vstd::string::*;

use crate::error::{error, Error, ErrorCode};
use crate::model::Message;

verus! {

/// The mathematical value of a transport specifier: its id and version.
pub struct SpecifierView {
    pub id: Seq<char>,
    pub version: Seq<char>,
}

/// The identity of a transport mechanism: a kind and a version, with the
/// canonical string form `"id@version"`.
#[derive(Debug)]
pub struct AdaptorSpecifier {
    pub version: String,
    pub id: String,
}

impl View for AdaptorSpecifier {
    type V = SpecifierView;

    open spec fn view(&self) -> SpecifierView {
        SpecifierView { id: self.id@, version: self.version@ }
    }
}

impl Clone for AdaptorSpecifier {
    fn clone(&self) -> (r: AdaptorSpecifier)
        ensures
            r == *self,
    {
        AdaptorSpecifier { version: self.version.clone(), id: self.id.clone() }
    }
}

/// `i` is the position of the first `'@'` in `s`.
pub open spec fn is_first_at(s: Seq<char>, i: int) -> bool {
    &&& 0 <= i < s.len()
    &&& s[i] == '@'
    &&& forall|j: int| 0 <= j < i ==> s[j] != '@'
}

/// `s` contains the separator `'@'`.
pub open spec fn has_at(s: Seq<char>) -> bool {
    exists|i: int| 0 <= i < s.len() && s[i] == '@'
}

/// `sp` is the specifier parsed from `s`: its id is everything before the
/// first `'@'` and its version everything after it.
pub open spec fn parsed_from(sp: AdaptorSpecifier, s: Seq<char>) -> bool {
    exists|i: int|
        {
            &&& #[trigger] is_first_at(s, i)
            &&& sp.id@ == s.subrange(0, i)
            &&& sp.version@ == s.subrange(i + 1, s.len() as int)
        }
}

/// The canonical string form of a specifier with the given id and version.
pub open spec fn spec_canonical(id: Seq<char>, version: Seq<char>) -> Seq<char> {
    id + seq!['@'] + version
}

impl AdaptorSpecifier {
    /// Builds a specifier for the given transport id under the current
    /// protocol version.
    pub fn new(id: String) -> (r: AdaptorSpecifier)
        ensures
            r.id == id,
            r.version@ == crate::model::protocol_version(),
    {
        let version = String::from_str("1");
        proof {
            reveal_strlit("1");
        }
        AdaptorSpecifier { version, id }
    }

    /// Parses the canonical form `"id@version"`, splitting at the first
    /// `'@'`; a string without the separator is rejected as `Invalid`.
    pub fn parse(s: &str) -> (r: Result<AdaptorSpecifier, Error>)
        ensures
            r is Ok <==> has_at(s@),
            r matches Ok(sp) ==> parsed_from(sp, s@),
            r matches Err(e) ==> e.code == ErrorCode::Invalid && e.traceback@.len() == 0,
    {
        let len = s.unicode_len();
        let mut i: usize = 0;
        while i < len
            invariant
                len == s@.len(),
                i <= len,
                forall|j: int| 0 <= j < i ==> s@[j] != '@',
            decreases len - i,
        {
            if s.get_char(i) == '@' {
                let id = s.substring_char(0, i).to_owned();
                let version = s.substring_char(i + 1, len).to_owned();
                let sp = AdaptorSpecifier { version, id };
                proof {
                    assert(is_first_at(s@, i as int));
                }
                return Ok(sp);
            }
            i += 1;
        }
        error(String::from_str("invalid adaptor specifier"), ErrorCode::Invalid)
    }

    /// The canonical string form `"id@version"` of this specifier.
    pub fn canonical(&self) -> (r: String)
        ensures
            r@ == spec_canonical(self.id@, self.version@),
    {
        let mut r = self.id.clone();
        r.append("@");
        r.append(self.version.as_str());
        proof {
            reveal_strlit("@");
            assert(r@ =~= spec_canonical(self.id@, self.version@));
        }
        r
    }

    /// The specifiers are equal: same transport id and same version.
    pub fn same_spec(&self, other: &AdaptorSpecifier) -> (r: bool)
        ensures
            r == (self@ == other@),
    {
        let r = self.id == other.id && self.version == other.version;
        proof {
            if self.id@ == other.id@ && self.version@ == other.version@ {
                assert(self@ == other@);
            }
        }
        r
    }
}

impl core::str::FromStr for AdaptorSpecifier {
    type Err = Error;

    fn from_str(s: &str) -> Result<AdaptorSpecifier, Error> {
        AdaptorSpecifier::parse(s)
    }
}

/// Round trip: a specifier parsed from a valid string `"id@version"` formats
/// back to exactly that string.
pub proof fn lemma_parse_canonical_round_trip(sp: AdaptorSpecifier, s: Seq<char>)
    requires
        parsed_from(sp, s),
    ensures
        spec_canonical(sp.id@, sp.version@) == s,
{
    let i = choose|i: int|
        {
            &&& #[trigger] is_first_at(s, i)
            &&& sp.id@ == s.subrange(0, i)
            &&& sp.version@ == s.subrange(i + 1, s.len() as int)
        };
    assert(spec_canonical(sp.id@, sp.version@) =~= s);
}

/// The outbound capability: a transport client able to post messages.
///
/// `Ok` from `post_message` means "accepted for asynchronous transmission",
/// not "delivered": the network round trip happens off the decision path, and
/// the adaptor is responsible for eventually producing a receipt for the
/// completed call and handing it to the storage collaborator.
pub trait AdaptorClient: Sized {
    /// The transport specifier this adaptor serves. The default is left
    /// unconstrained; a verified implementation overrides it.
    open spec fn spec_view(&self) -> SpecifierView {
        arbitrary()
    }

    /// Whether this adaptor accepts `message` for transmission to `addr`.
    /// The default is left unconstrained; a verified implementation
    /// overrides it.
    open spec fn post_ok(&self, message: Message, addr: Seq<char>) -> bool {
        arbitrary()
    }

    /// Reports the transport specifier this adaptor serves.
    fn spec(&self) -> (r: AdaptorSpecifier)
        ensures
            r@ == self.spec_view(),
    ;

    /// Attempts to transmit `message` to the address `addr`, returning
    /// immediately: `Ok` signals only that the send was initiated without a
    /// local error. The contract obliges every implementation's initiate
    /// step to be deterministic in the adaptor, the message and the address
    /// (for instance, failing exactly when the address is malformed).
    fn post_message(&self, message: &Message, addr: &str) -> (r: Result<(), Error>)
        ensures
            r is Ok <==> self.post_ok(*message, addr@),
    ;
}

/// A registered adaptor instance.
pub struct WrappedAdaptor<C: AdaptorClient> {
    pub adaptor: C,
}

/// The registry: a mapping from transport specifier to the registered
/// outbound adaptor, kept as a sequence of pairs with pairwise distinct
/// specifiers, in registration order.
pub struct AdaptorRouter<C: AdaptorClient> {
    pub router: Vec<(AdaptorSpecifier, WrappedAdaptor<C>)>,
}

impl<C: AdaptorClient> AdaptorRouter<C> {
    /// Registered specifiers are pairwise distinct.
    pub open spec fn wf(self) -> bool {
        forall|i: int, j: int|
            0 <= i < j < self.router@.len() ==> self.router@[i].0@ != self.router@[j].0@
    }

    /// Some adaptor is registered under the specifier `k`.
    pub open spec fn contains_spec(self, k: SpecifierView) -> bool {
        exists|i: int| 0 <= i < self.router@.len() && self.router@[i].0@ == k
    }

    /// The adaptor registered under `k` (meaningful when `contains_spec(k)`).
    pub open spec fn adaptor_at(self, k: SpecifierView) -> C {
        let i = choose|i: int| 0 <= i < self.router@.len() && self.router@[i].0@ == k;
        self.router@[i].1.adaptor
    }

    /// In a well-formed registry the entry at any index holding `k` is the
    /// entry that a lookup of `k` yields.
    pub proof fn lemma_adaptor_at(self, k: SpecifierView, i: int)
        requires
            self.wf(),
            0 <= i < self.router@.len(),
            self.router@[i].0@ == k,
        ensures
            self.contains_spec(k),
            self.adaptor_at(k) == self.router@[i].1.adaptor,
    {
        assert(self.contains_spec(k));
        let j = choose|j: int| 0 <= j < self.router@.len() && self.router@[j].0@ == k;
        if i < j {
            assert(self.router@[i].0@ != self.router@[j].0@);
        } else if j < i {
            assert(self.router@[j].0@ != self.router@[i].0@);
        }
    }

    /// Boxes an adaptor for registration.
    pub fn wrap(&self, adaptor: C) -> (r: WrappedAdaptor<C>)
        ensures
            r.adaptor == adaptor,
    {
        WrappedAdaptor { adaptor }
    }

    /// The index at which the registry holds the given specifier.
    fn find_spec(&self, spec: &AdaptorSpecifier) -> (r: Option<usize>)
        ensures
            r matches Some(i) ==> i < self.router@.len() && self.router@[i as int].0@ == spec@,
            r is None ==> forall|j: int| 0 <= j < self.router@.len() ==> self.router@[j].0@
                != spec@,
    {
        let mut i: usize = 0;
        while i < self.router.len()
            invariant
                i <= self.router@.len(),
                forall|j: int| 0 <= j < i ==> self.router@[j].0@ != spec@,
            decreases self.router@.len() - i,
        {
            if self.router[i].0.same_spec(spec) {
                return Some(i);
            }
            i += 1;
        }
        None
    }

    /// Looks up the adaptor registered under `spec`; an unregistered
    /// transport yields `None`, to be treated as a routable-around failure.
    pub fn get_client(&self, spec: &AdaptorSpecifier) -> (r: Option<&C>)
        requires
            self.wf(),
        ensures
            (r is Some) == self.contains_spec(spec@),
            r matches Some(c) ==> *c == self.adaptor_at(spec@),
    {
        let mut i: usize = 0;
        while i < self.router.len()
            invariant
                self.wf(),
                i <= self.router@.len(),
                forall|j: int| 0 <= j < i ==> self.router@[j].0@ != spec@,
            decreases self.router@.len() - i,
        {
            if self.router[i].0.same_spec(spec) {
                proof {
                    self.lemma_adaptor_at(spec@, i as int);
                }
                return Some(&self.router[i].1.adaptor);
            }
            i += 1;
        }
        None
    }

    /// Registers an adaptor under its reported specifier, replacing any prior
    /// registration for that specifier: the last registration wins.
    pub fn register(&mut self, adaptor: C)
        requires
            old(self).wf(),
        ensures
            register_post(*old(self), *final(self), adaptor),
    {
        let spec = adaptor.spec();
        let ghost sv = adaptor.spec_view();
        let wrapper = self.wrap(adaptor);
        if let Some(i) = self.find_spec(&spec) {
            self.router.set(i, (spec, wrapper));
            proof {
                assert(self.router@[i as int].0@ == sv);
                assert forall|p: int, q: int|
                    0 <= p < q < self.router@.len() implies self.router@[p].0@
                    != self.router@[q].0@ by {
                    assert(old(self).router@[p].0@ != old(self).router@[q].0@);
                    if p == i as int {
                        assert(self.router@[p].0@ == old(self).router@[p].0@);
                    }
                    if q == i as int {
                        assert(self.router@[q].0@ == old(self).router@[q].0@);
                    }
                }
                self.lemma_adaptor_at(sv, i as int);
                assert forall|k: SpecifierView| k != sv implies self.contains_spec(k) == old(
                    self,
                ).contains_spec(k) by {
                    lemma_lookup_update(old(self).router@, self.router@, i as int, k);
                }
                assert forall|k: SpecifierView|
                    k != sv && old(self).contains_spec(k) implies self.adaptor_at(k) == old(
                    self,
                ).adaptor_at(k) by {
                    lemma_lookup_update(old(self).router@, self.router@, i as int, k);
                    let j = choose|j: int|
                        0 <= j < old(self).router@.len() && old(self).router@[j].0@ == k;
                    old(self).lemma_adaptor_at(k, j);
                    self.lemma_adaptor_at(k, j);
                }
            }
            return;
        }
        self.router.push((spec, wrapper));
        proof {
            assert forall|p: int, q: int|
                0 <= p < q < self.router@.len() implies self.router@[p].0@ != self.router@[q].0@ by {
                if q < self.router@.len() - 1 {
                    assert(old(self).router@[p].0@ != old(self).router@[q].0@);
                }
            }
            self.lemma_adaptor_at(sv, self.router@.len() - 1);
            assert forall|k: SpecifierView| k != sv implies self.contains_spec(k) == old(
                self,
            ).contains_spec(k) by {
                if old(self).contains_spec(k) {
                    let j = choose|j: int|
                        0 <= j < old(self).router@.len() && old(self).router@[j].0@ == k;
                    assert(self.router@[j].0@ == k);
                }
                if self.contains_spec(k) {
                    let j = choose|j: int| 0 <= j < self.router@.len() && self.router@[j].0@ == k;
                    assert(j < self.router@.len() - 1);
                    assert(old(self).router@[j].0@ == k);
                }
            }
            assert forall|k: SpecifierView|
                k != sv && old(self).contains_spec(k) implies self.adaptor_at(k) == old(
                self,
            ).adaptor_at(k) by {
                let j = choose|j: int|
                    0 <= j < old(self).router@.len() && old(self).router@[j].0@ == k;
                old(self).lemma_adaptor_at(k, j);
                self.lemma_adaptor_at(k, j);
            }
        }
    }
}

/// What `register` guarantees: the adaptor is resolvable under its reported
/// specifier, and every other registration is untouched.
pub open spec fn register_post<C: AdaptorClient>(
    pre: AdaptorRouter<C>,
    post: AdaptorRouter<C>,
    adaptor: C,
) -> bool {
    &&& post.wf()
    &&& post.contains_spec(adaptor.spec_view())
    &&& post.adaptor_at(adaptor.spec_view()) == adaptor
    &&& forall|k: SpecifierView|
        k != adaptor.spec_view() ==> #[trigger] post.contains_spec(k) == pre.contains_spec(k)
    &&& forall|k: SpecifierView|
        k != adaptor.spec_view() && pre.contains_spec(k) ==> #[trigger] post.adaptor_at(k)
            == pre.adaptor_at(k)
}

/// When two entries at different indices both hold key `k` before and after an
/// update at index `i` whose key is unchanged, membership of `k` is unchanged.
proof fn lemma_lookup_update<C: AdaptorClient>(
    pre: Seq<(AdaptorSpecifier, WrappedAdaptor<C>)>,
    post: Seq<(AdaptorSpecifier, WrappedAdaptor<C>)>,
    i: int,
    k: SpecifierView,
)
    requires
        pre.len() == post.len(),
        0 <= i < pre.len(),
        post[i].0@ != k,
        pre[i].0@ != k,
        forall|j: int| 0 <= j < pre.len() && j != i ==> post[j] == pre[j],
    ensures
        (exists|j: int| 0 <= j < post.len() && post[j].0@ == k) == (exists|j: int|
            0 <= j < pre.len() && pre[j].0@ == k),
{
    if exists|j: int| 0 <= j < pre.len() && pre[j].0@ == k {
        let j = choose|j: int| 0 <= j < pre.len() && pre[j].0@ == k;
        assert(post[j].0@ == k);
    }
    if exists|j: int| 0 <= j < post.len() && post[j].0@ == k {
        let j = choose|j: int| 0 <= j < post.len() && post[j].0@ == k;
        assert(pre[j].0@ == k);
    }
}

/// Resolving the same specifier twice without re-registration returns the
/// same adaptor both times: any two results that satisfy the lookup contract
/// for the same registry state and specifier are equal.
pub proof fn lemma_resolve_idempotent<C: AdaptorClient>(
    router: AdaptorRouter<C>,
    k: SpecifierView,
    r1: Option<C>,
    r2: Option<C>,
)
    requires
        (r1 is Some) == router.contains_spec(k),
        r1 matches Some(a) ==> a == router.adaptor_at(k),
        (r2 is Some) == router.contains_spec(k),
        r2 matches Some(a) ==> a == router.adaptor_at(k),
    ensures
        r1 == r2,
{
}

/// The last registration wins: after registering `a1` and then `a2` under the
/// same specifier, that specifier resolves to `a2`, and every other
/// registration is as it was before either call.
pub proof fn lemma_register_last_wins<C: AdaptorClient>(
    r0: AdaptorRouter<C>,
    r1: AdaptorRouter<C>,
    r2: AdaptorRouter<C>,
    a1: C,
    a2: C,
)
    requires
        a1.spec_view() == a2.spec_view(),
        register_post(r0, r1, a1),
        register_post(r1, r2, a2),
    ensures
        r2.contains_spec(a2.spec_view()),
        r2.adaptor_at(a2.spec_view()) == a2,
        forall|k: SpecifierView|
            k != a2.spec_view() ==> #[trigger] r2.contains_spec(k) == r0.contains_spec(k),
        forall|k: SpecifierView|
            k != a2.spec_view() && r0.contains_spec(k) ==> #[trigger] r2.adaptor_at(k)
                == r0.adaptor_at(k),
{
}

impl<C: AdaptorClient> Default for AdaptorRouter<C> {
    /// An empty registry.
    fn default() -> (r: AdaptorRouter<C>)
        ensures
            r.router@.len() == 0,
            r.wf(),
    {
        AdaptorRouter { router: Vec::new() }
    }
}

} // verus!

//! The storage collaborator contract: the narrow save/query interface the
//! routing engine needs. Durability is owned by the implementation.

use vstd::prelude::*;

use crate::model::{msg_eq, receipt_eq, Message, Receipt};
use crate::query::{Queried, QueryPolicy};

pub mod mem;

verus! {

/// A filter over stored messages, reserved for external inspection.
#[derive(Debug)]
pub struct MessageFilter {}

/// Some entry of `s` is stored under the id `k`.
pub open spec fn key_at<T>(s: Seq<(String, T)>, k: Seq<char>) -> bool {
    exists|i: int| 0 <= i < s.len() && s[i].0@ == k
}

/// `post` is `pre` with `m` stored under its id: an existing entry under
/// that id is replaced in place, otherwise the entry is appended; every
/// entry under another id is untouched.
pub open spec fn msg_upserted(
    pre: Seq<(String, Message)>,
    post: Seq<(String, Message)>,
    m: Message,
) -> bool {
    &&& post.len() == if key_at(pre, m.id@) {
        pre.len() as int
    } else {
        pre.len() as int + 1
    }
    &&& exists|i: int| 0 <= i < post.len() && post[i].0 == m.id && #[trigger] post[i].1 == m
    &&& forall|j: int| 0 <= j < pre.len() && pre[j].0@ != m.id@ ==> post[j] == pre[j]
}

/// `post` is `pre` with each message of `batch` stored under its id in batch
/// order, so a later duplicate id overwrites an earlier one.
pub open spec fn batch_saved(
    pre: Seq<(String, Message)>,
    post: Seq<(String, Message)>,
    batch: Seq<Message>,
) -> bool
    decreases batch.len(),
{
    if batch.len() == 0 {
        post == pre
    } else {
        exists|mid: Seq<(String, Message)>|
            #[trigger] msg_upserted(pre, mid, batch[0]) && batch_saved(
                mid,
                post,
                batch.drop_first(),
            )
    }
}

/// `post` is `pre` with a copy of `rc` stored under its id, every entry
/// under another id untouched.
pub open spec fn receipt_upserted(
    pre: Seq<(String, Receipt)>,
    post: Seq<(String, Receipt)>,
    rc: Receipt,
) -> bool {
    &&& post.len() == if key_at(pre, rc.id@) {
        pre.len() as int
    } else {
        pre.len() as int + 1
    }
    &&& exists|i: int| 0 <= i < post.len() && post[i].0 == rc.id && #[trigger] receipt_eq(
        post[i].1,
        rc,
    )
    &&& forall|j: int| 0 <= j < pre.len() && pre[j].0@ != rc.id@ ==> post[j] == pre[j]
}

/// Where a page starts in a store of `total` entries.
pub open spec fn page_start(total: int, index: int, size: int) -> int {
    if index * size > total {
        total
    } else {
        index * size
    }
}

/// `q` answers `policy` over the stored messages `view`: a page policy
/// yields copies of the page's slice and the count of entries beyond it; a
/// cursor policy yields copies of everything after the first entry stored
/// under the cursor key, or nothing when the key is absent.
pub open spec fn queried_post(
    view: Seq<(String, Message)>,
    policy: QueryPolicy,
    q: Queried<Message>,
) -> bool {
    match policy {
        QueryPolicy::Page(p) => {
            let total = view.len() as int;
            let start = page_start(total, p.index as int, p.size as int);
            let cnt = if p.size as int <= total - start {
                p.size as int
            } else {
                total - start
            };
            &&& q.data@.len() == cnt
            &&& (forall|i: int| 0 <= i < cnt ==> msg_eq(#[trigger] q.data@[i], view[start + i].1))
            &&& q.remain == total - start - cnt
        },
        QueryPolicy::After(a) => {
            if key_at(view, a.key@) {
                exists|j: int|
                    #![auto]
                    {
                        &&& 0 <= j < view.len()
                        &&& view[j].0@ == a.key@
                        &&& forall|l: int| 0 <= l < j ==> view[l].0@ != a.key@
                        &&& q.data@.len() == view.len() - j - 1
                        &&& forall|i: int|
                            0 <= i < q.data@.len() ==> msg_eq(q.data@[i], view[j + 1 + i].1)
                        &&& q.remain == 0
                    }
            } else {
                q.data@.len() == 0 && q.remain == 0
            }
        },
    }
}

/// Persistent storage of messages and receipts.
///
/// The routing engine calls `save_receipt` synchronously for locally-resolved
/// outcomes; adaptors call it asynchronously once a transport call completes.
/// `query_message` exists for external inspection and is not exercised by the
/// routing engine itself.
pub trait Database: Sized {
    /// The stored messages, as (id, message) entries in storage order. The
    /// default is left unconstrained; a verified implementation overrides it.
    open spec fn messages_view(&self) -> Seq<(String, Message)> {
        arbitrary()
    }

    /// The stored receipts, as (id, receipt) entries in storage order. The
    /// default is left unconstrained; a verified implementation overrides it.
    open spec fn receipts_view(&self) -> Seq<(String, Receipt)> {
        arbitrary()
    }

    /// Whether this store accepts writes (an in-memory store always does).
    /// The default is left unconstrained; a verified implementation
    /// overrides it.
    open spec fn store_ok(&self) -> bool {
        arbitrary()
    }

    /// Persists a batch of messages, upserting each by id in batch order.
    fn save_message(&mut self, messages: Vec<Message>) -> (r: Result<(), crate::error::Error>)
        ensures
            r is Ok <==> old(self).store_ok(),
            r is Ok ==> batch_saved(
                old(self).messages_view(),
                final(self).messages_view(),
                messages@,
            ),
            r is Ok ==> final(self).receipts_view() == old(self).receipts_view(),
    ;

    /// Persists one receipt, upserting it by id.
    fn save_receipt(&mut self, receipt: &Receipt) -> (r: Result<(), crate::error::Error>)
        ensures
            r is Ok <==> old(self).store_ok(),
            r is Ok ==> receipt_upserted(
                old(self).receipts_view(),
                final(self).receipts_view(),
                *receipt,
            ),
            r is Ok ==> final(self).messages_view() == old(self).messages_view(),
    ;

    /// Queries stored messages under a filter and pagination policy.
    fn query_message(&self, filter: &MessageFilter, policy: &QueryPolicy) -> (q: Queried<Message>)
        ensures
            queried_post(self.messages_view(), *policy, q),
    ;
}

} // verus!

//! An in-memory store: messages and receipts keyed by id, kept in insertion
//! order, with saves upserting by key.

use vstd::prelude::*;

use crate::db::{batch_saved, key_at, msg_upserted, receipt_upserted, Database, MessageFilter};
use crate::error::Error;
use crate::model::{Message, Receipt};
use crate::query::{Queried, QueryPolicy};

verus! {

/// In-memory storage of messages and receipts, keyed by their ids.
#[derive(Debug)]
pub struct MemDb {
    messages: Vec<(String, Message)>,
    receipts: Vec<(String, Receipt)>,
}

impl Default for MemDb {
    /// An empty store.
    fn default() -> (r: MemDb)
        ensures
            r.messages_view().len() == 0,
            r.receipts_view().len() == 0,
            r.store_ok(),
    {
        MemDb { messages: Vec::new(), receipts: Vec::new() }
    }
}

/// Storing one more message keeps a batch-save derivation going.
proof fn lemma_batch_saved_push(
    v0: Seq<(String, Message)>,
    v1: Seq<(String, Message)>,
    v2: Seq<(String, Message)>,
    s: Seq<Message>,
    x: Message,
)
    requires
        batch_saved(v0, v1, s),
        msg_upserted(v1, v2, x),
    ensures
        batch_saved(v0, v2, s.push(x)),
    decreases s.len(),
{
    if s.len() == 0 {
        assert(v1 == v0);
        assert(s.push(x)[0] == x);
        assert(s.push(x).drop_first() =~= Seq::<Message>::empty());
        assert(batch_saved(v2, v2, s.push(x).drop_first()));
        assert(msg_upserted(v0, v2, s.push(x)[0]));
    } else {
        let mid = choose|mid: Seq<(String, Message)>|
            #[trigger] msg_upserted(v0, mid, s[0]) && batch_saved(mid, v1, s.drop_first());
        lemma_batch_saved_push(mid, v1, v2, s.drop_first(), x);
        assert(s.push(x).drop_first() =~= s.drop_first().push(x));
        assert(s.push(x)[0] == s[0]);
        assert(msg_upserted(v0, mid, s.push(x)[0]) && batch_saved(
            mid,
            v2,
            s.push(x).drop_first(),
        ));
    }
}

/// Stores `value` under its id: replaces the first entry under that id in
/// place, or appends one.
fn upsert_message(store: &mut Vec<(String, Message)>, value: Message)
    ensures
        msg_upserted(old(store)@, final(store)@, value),
{
    let key = value.id.clone();
    let mut j: usize = 0;
    while j < store.len()
        invariant
            j <= store@.len(),
            store == old(store),
            key == value.id,
            forall|l: int| 0 <= l < j ==> store@[l].0@ != value.id@,
        decreases store@.len() - j,
    {
        if store[j].0 == key {
            store.set(j, (key, value));
            proof {
                assert(old(store)@[j as int].0@ == value.id@);
                assert(key_at(old(store)@, value.id@));
                assert(store@[j as int].0 == value.id && store@[j as int].1 == value);
            }
            return;
        }
        j += 1;
    }
    store.push((key, value));
    proof {
        if key_at(old(store)@, value.id@) {
            let l = choose|l: int|
                0 <= l < old(store)@.len() && old(store)@[l].0@ == value.id@;
            assert(false);
        }
        assert(store@[store@.len() - 1].0 == value.id && store@[store@.len() - 1].1 == value);
    }
}

impl Database for MemDb {
    /// The stored messages are exactly the private message list.
    closed spec fn messages_view(&self) -> Seq<(String, Message)> {
        self.messages@
    }

    /// The stored receipts are exactly the private receipt list.
    closed spec fn receipts_view(&self) -> Seq<(String, Receipt)> {
        self.receipts@
    }

    /// An in-memory store always accepts writes.
    open spec fn store_ok(&self) -> bool {
        true
    }

    fn save_message(&mut self, messages: Vec<Message>) -> (r: Result<(), Error>) {
        let ghost v0 = self.messages@;
        let ghost b = messages@;
        let mut rest = messages;
        proof {
            assert(b.subrange(0, 0) =~= Seq::<Message>::empty());
            assert(rest@ =~= b.subrange(b.len() - rest@.len(), b.len() as int));
        }
        while rest.len() > 0
            invariant
                rest@.len() <= b.len(),
                rest@ == b.subrange(b.len() - rest@.len(), b.len() as int),
                batch_saved(v0, self.messages@, b.subrange(0, b.len() - rest@.len())),
                self.receipts@ == old(self).receipts@,
                v0 == old(self).messages@,
            decreases rest@.len(),
        {
            let ghost done = b.len() - rest@.len();
            let ghost rest0 = rest@;
            let m = rest.remove(0);
            proof {
                assert(m == b[done]);
                assert(rest@ =~= b.subrange(b.len() - rest@.len(), b.len() as int));
            }
            let ghost vcur = self.messages@;
            upsert_message(&mut self.messages, m);
            proof {
                lemma_batch_saved_push(v0, vcur, self.messages@, b.subrange(0, done), b[done]);
                assert(b.subrange(0, done + 1) =~= b.subrange(0, done).push(b[done]));
            }
        }
        proof {
            assert(b.subrange(0, b.len() as int) =~= b);
        }
        Ok(())
    }

    fn save_receipt(&mut self, receipt: &Receipt) -> (r: Result<(), Error>) {
        let key = receipt.id.clone();
        let value = receipt.clone();
        let mut j: usize = 0;
        while j < self.receipts.len()
            invariant
                j <= self.receipts@.len(),
                self == old(self),
                key == receipt.id,
                crate::model::receipt_eq(value, *receipt),
                forall|l: int| 0 <= l < j ==> self.receipts@[l].0@ != receipt.id@,
            decreases self.receipts@.len() - j,
        {
            if self.receipts[j].0 == key {
                self.receipts.set(j, (key, value));
                proof {
                    assert(old(self).receipts@[j as int].0@ == receipt.id@);
                    assert(key_at(old(self).receipts@, receipt.id@));
                    assert(self.receipts@[j as int].0 == receipt.id && crate::model::receipt_eq(
                        self.receipts@[j as int].1,
                        *receipt,
                    ));
                }
                return Ok(());
            }
            j += 1;
        }
        self.receipts.push((key, value));
        proof {
            if key_at(old(self).receipts@, receipt.id@) {
                let l = choose|l: int|
                    0 <= l < old(self).receipts@.len() && old(self).receipts@[l].0@ == receipt.id@;
                assert(false);
            }
            let ghost last = self.receipts@.len() - 1;
            assert(self.receipts@[last].0 == receipt.id && crate::model::receipt_eq(
                self.receipts@[last].1,
                *receipt,
            ));
        }
        Ok(())
    }

    fn query_message(&self, _filter: &MessageFilter, policy: &QueryPolicy) -> (q: Queried<
        Message,
    >) {
        let total = self.messages.len();
        match policy {
            QueryPolicy::Page(p) => {
                proof {
                    let x = p.index as u128;
                    let y = p.size as u128;
                    assert(x * y <= u128::MAX) by (nonlinear_arith)
                        requires
                            x <= 0xFFFF_FFFF_FFFF_FFFFu128,
                            y <= 0xFFFF_FFFF_FFFF_FFFFu128,
                    ;
                }
                let prod: u128 = (p.index as u128) * (p.size as u128);
                let start: usize = if prod > total as u128 {
                    total
                } else {
                    prod as usize
                };
                proof {
                    assert(start as int == crate::db::page_start(
                        total as int,
                        p.index as int,
                        p.size as int,
                    ));
                }
                let mut data: Vec<Message> = Vec::new();
                let mut i: usize = start;
                while i < total && data.len() < p.size
                    invariant
                        start <= i <= total,
                        total == self.messages@.len(),
                        data@.len() == i - start,
                        data@.len() <= p.size,
                        forall|l: int|
                            0 <= l < data@.len() ==> crate::model::msg_eq(
                                #[trigger] data@[l],
                                self.messages@[start + l].1,
                            ),
                    decreases total - i,
                {
                    data.push(self.messages[i].1.clone());
                    i += 1;
                }
                Queried { data, remain: total - i }
            },
            QueryPolicy::After(a) => {
                let mut j: usize = 0;
                while j < total && !(self.messages[j].0 == a.key)
                    invariant
                        j <= total,
                        total == self.messages@.len(),
                        forall|l: int| 0 <= l < j ==> self.messages@[l].0@ != a.key@,
                    decreases total - j,
                {
                    j += 1;
                }
                let mut data: Vec<Message> = Vec::new();
                if j < total {
                    let mut i: usize = j + 1;
                    while i < total
                        invariant
                            j + 1 <= i <= total,
                            total == self.messages@.len(),
                            data@.len() == i - j - 1,
                            forall|l: int|
                                0 <= l < data@.len() ==> crate::model::msg_eq(
                                    #[trigger] data@[l],
                                    self.messages@[j + 1 + l].1,
                                ),
                        decreases total - i,
                    {
                        data.push(self.messages[i].1.clone());
                        i += 1;
                    }
                    proof {
                        assert(key_at(self.messages@, a.key@));
                    }
                } else {
                    proof {
                        if key_at(self.messages@, a.key@) {
                            let l = choose|l: int|
                                0 <= l < self.messages@.len() && self.messages@[l].0@ == a.key@;
                            assert(false);
                        }
                    }
                }
                Queried { data, remain: 0 }
            },
        }
    }
}

} // verus!

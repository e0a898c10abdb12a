use swo::db::mem::MemDb;
use swo::db::{Database, MessageFilter};
use swo::model::{EndPoint, Message, MessageContent, Meta, Receipt, ReceiptTrace};
use swo::query::{After, Page, QueryPolicy};

fn plain_message(id: &str) -> Message {
    let ep = EndPoint::new("E".to_string());
    Message {
        id: id.to_string(),
        from: ep.clone(),
        to: ep,
        content: MessageContent::Plain("x".to_string()),
        create_time: 0,
        meta: Meta::default(),
        agents: vec![],
    }
}

#[test]
fn memdb_pages_saved_messages() {
    let mut db = MemDb::default();
    db.save_message(vec![plain_message("a"), plain_message("b"), plain_message("c")]).unwrap();
    let q = db.query_message(&MessageFilter {}, &QueryPolicy::Page(Page { index: 0, size: 2 }));
    assert_eq!(q.data.len(), 2);
    assert_eq!(q.remain, 1);
    let q = db.query_message(&MessageFilter {}, &QueryPolicy::Page(Page { index: 1, size: 2 }));
    assert_eq!(q.data.len(), 1);
    assert_eq!(q.remain, 0);
}

#[test]
fn memdb_saves_upsert_by_id() {
    let mut db = MemDb::default();
    db.save_message(vec![plain_message("a")]).unwrap();
    db.save_message(vec![plain_message("a"), plain_message("b")]).unwrap();
    let q = db.query_message(&MessageFilter {}, &QueryPolicy::Page(Page { index: 0, size: 10 }));
    assert_eq!(q.data.len(), 2);
}

#[test]
fn memdb_after_cursor_returns_following_records() {
    let mut db = MemDb::default();
    db.save_message(vec![plain_message("a"), plain_message("b"), plain_message("c")]).unwrap();
    let q = db.query_message(
        &MessageFilter {},
        &QueryPolicy::After(After { key: "a".to_string() }),
    );
    assert_eq!(q.data.len(), 2);
    let q = db.query_message(
        &MessageFilter {},
        &QueryPolicy::After(After { key: "zzz".to_string() }),
    );
    assert_eq!(q.data.len(), 0);
}

#[test]
fn memdb_stores_receipts() {
    let mut db = MemDb::default();
    let rc = Receipt {
        id: "r1".to_string(),
        message_id: "m1".to_string(),
        trace: ReceiptTrace::Fail { reason: "test".to_string() },
    };
    db.save_receipt(&rc).unwrap();
    db.save_receipt(&rc).unwrap();
}

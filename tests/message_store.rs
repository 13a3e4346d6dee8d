use multi_party_ecdsa::store::{Msg, MsgStore, StoreErr};

fn msg(sender: u16, receiver: Option<u16>, body: u32) -> Msg<u32> {
    Msg { round: 1, sender, receiver, body }
}

#[test]
fn broadcast_store_collects_other_parties_in_order() {
    let mut store: MsgStore<u32> = MsgStore::new(false, 2, 4);
    assert!(store.wants_more());
    assert_eq!(store.blame(), (3, vec![1, 3, 4]));
    store.push_msg(msg(4, None, 40)).unwrap();
    store.push_msg(msg(1, None, 10)).unwrap();
    assert_eq!(store.blame(), (1, vec![3]));
    store.push_msg(msg(3, None, 30)).unwrap();
    assert!(!store.wants_more());
    assert_eq!(store.finish().unwrap(), vec![10, 30, 40]);
}

#[test]
fn broadcast_store_refusals() {
    let mut store: MsgStore<u32> = MsgStore::new(false, 2, 3);
    assert_eq!(store.push_msg(msg(0, None, 1)), Err(StoreErr::UnknownSender { sender: 0 }));
    assert_eq!(store.push_msg(msg(1, Some(2), 1)), Err(StoreErr::ExpectedBroadcast));
    assert_eq!(store.push_msg(msg(2, None, 1)), Err(StoreErr::ItsFromMe));
    assert_eq!(store.push_msg(msg(4, None, 1)), Err(StoreErr::UnknownSender { sender: 4 }));
    store.push_msg(msg(1, None, 1)).unwrap();
    assert_eq!(store.push_msg(msg(1, None, 2)), Err(StoreErr::MsgOverwrite));
    assert_eq!(store.blame(), (1, vec![3]));
}

#[test]
fn p2p_store_refusals() {
    let mut store: MsgStore<u32> = MsgStore::new(true, 1, 3);
    assert_eq!(store.push_msg(msg(2, None, 1)), Err(StoreErr::ExpectedP2P));
    assert_eq!(store.push_msg(msg(2, Some(3), 1)), Err(StoreErr::NotForMe));
    store.push_msg(msg(2, Some(1), 5)).unwrap();
    store.push_msg(msg(3, Some(1), 6)).unwrap();
    assert_eq!(store.finish().unwrap(), vec![5, 6]);
}

#[test]
fn unfinished_store_refuses_to_finish() {
    let store: MsgStore<u32> = MsgStore::new(false, 1, 3);
    assert_eq!(store.finish().err(), Some(StoreErr::WantsMoreMessages));
}

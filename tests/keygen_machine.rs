use multi_party_ecdsa::keygen::{Error, ErrorType, Keygen, ProceedError, ProtocolMessage};
use multi_party_ecdsa::rounds::{Round0, Round1, Round2};
use multi_party_ecdsa::store::{Msg, StoreErr};

#[test]
fn construction_errors() {
    assert!(matches!(Keygen::<u32, u32>::new(1, 1, 1), Err(Error::TooFewParties)));
    assert!(matches!(Keygen::<u32, u32>::new(1, 0, 3), Err(Error::InvalidThreshold)));
    assert!(matches!(Keygen::<u32, u32>::new(1, 3, 3), Err(Error::InvalidThreshold)));
    assert!(matches!(Keygen::<u32, u32>::new(0, 1, 3), Err(Error::InvalidPartyIndex)));
    assert!(matches!(Keygen::<u32, u32>::new(4, 1, 3), Err(Error::InvalidPartyIndex)));
    let k = Keygen::<u32, u32>::new(2, 1, 3).unwrap();
    assert_eq!(k.current_round(), 0);
    assert_eq!(k.total_rounds(), Some(4));
    assert_eq!(k.party_ind(), 2);
    assert_eq!(k.parties(), 3);
    assert!(k.wants_to_proceed());
    assert!(!k.is_finished());
}

#[test]
fn errors_that_are_not_critical() {
    assert!(!Error::HandleMessage(StoreErr::ItsFromMe).is_critical());
    assert!(Error::DoublePickOutput.is_critical());
    assert!(Error::TooFewParties.is_critical());
    let e = ProceedError::Round4VerifyDLogProof(ErrorType { error_type: String::new(), bad_actors: vec![] });
    assert!(e.is_critical());
}

type Body = ProtocolMessage<u32, u32, ((), Vec<u8>, ()), ()>;

#[test]
fn first_rounds_costs_and_commitment_order() {
    let r0 = Round0 { party_i: 2, t: 1, n: 3 };
    assert!(r0.is_expensive());
    let mut out: Vec<Msg<Body>> = Vec::new();
    let r1: Round1<(), u32, u32> = r0.proceed((), 20, 21, &mut out);
    assert!(!r1.is_expensive());
    assert_eq!(out.len(), 1);
    assert_eq!((out[0].round, out[0].sender, out[0].receiver), (1, 2, None));
    assert!(matches!(out[0].body, ProtocolMessage::M1(20)));
    let r2: Round2<(), u32, u32> = r1.proceed(vec![10, 30], &mut out);
    assert!(r2.is_expensive());
    assert_eq!(r2.received_comm(), &vec![10, 20, 30]);
    assert_eq!(out.len(), 2);
    assert_eq!((out[1].round, out[1].sender, out[1].receiver), (2, 2, None));
    assert!(matches!(out[1].body, ProtocolMessage::M2(21)));
    assert_eq!(r2.received_decom(vec![11, 31]), vec![11, 21, 31]);
    let store = Round1::<(), u32, u32>::expects_messages(2, 3);
    assert_eq!(store.blame(), (2, vec![1, 3]));
    let store = Round2::<(), u32, u32>::expects_messages(3, 3);
    assert_eq!(store.blame(), (2, vec![1, 2]));
}

#[test]
fn failed_commitment_check_sends_nothing() {
    let r0 = Round0 { party_i: 1, t: 1, n: 3 };
    let mut out: Vec<Msg<ProtocolMessage<u32, u32, (u8, Vec<u8>, u8), ()>>> = Vec::new();
    let r1: Round1<(), u32, u32> = r0.proceed((), 10, 11, &mut out);
    let r2 = r1.proceed(vec![20, 30], &mut out);
    let checked: Result<(u8, Vec<u64>, Vec<u8>), ErrorType> =
        Err(ErrorType { error_type: "bad opening".to_string(), bad_actors: vec![2] });
    let r = r2.proceed(checked, vec![vec![]; 3], vec![vec![]; 3], &mut out);
    assert!(matches!(r, Err(ProceedError::Round2VerifyCommitments(_))));
    assert_eq!(out.len(), 2);
}

#[test]
fn shares_go_to_every_other_party() {
    let r0 = Round0 { party_i: 2, t: 1, n: 3 };
    let mut out: Vec<Msg<ProtocolMessage<u32, u32, (u8, Vec<u8>, u8), ()>>> = Vec::new();
    let r1: Round1<(), u32, u32> = r0.proceed((), 10, 11, &mut out);
    let r2 = r1.proceed(vec![20, 30], &mut out);
    let checked: Result<(u8, Vec<u64>, Vec<u8>), ErrorType> = Ok((9, vec![100, 200, 300], vec![1, 2, 3]));
    let encrypted = vec![vec![101], vec![201], vec![251]];
    let r3 = r2.proceed(checked, encrypted, vec![vec![]; 3], &mut out);
    assert!(r3.is_ok());
    assert_eq!(out.len(), 4);
    let sent: Vec<(u16, u16, Option<u16>)> = out[2..].iter().map(|m| (m.round, m.sender, m.receiver)).collect();
    assert_eq!(sent, vec![(3, 2, Some(1)), (3, 2, Some(3))]);
    assert!(matches!(&out[2].body, ProtocolMessage::M3((9, e, 1)) if e == &vec![101]));
    assert!(matches!(&out[3].body, ProtocolMessage::M3((9, e, 3)) if e == &vec![251]));
}

#[test]
fn message_bodies_name_their_round() {
    type Body = ProtocolMessage<u8, u16, u32, u64>;
    assert_eq!(Body::M1(1).round_id(), 1);
    assert_eq!(Body::M2(2).round_id(), 2);
    assert_eq!(Body::M3(3).round_id(), 3);
    assert_eq!(Body::M4(4).round_id(), 4);
}

//! The key-generation state machine: five rounds driven to completion over message stores.

use vstd::prelude::*;
use crate::store::{Msg, MsgStore, StoreErr};

verus! {

/// A failed check of a round, with the parties that caused it.
#[derive(Clone, Debug)]
pub struct ErrorType {
    pub error_type: String,
    pub bad_actors: Vec<usize>,
}

/// A round's cryptographic checks failed; the run must be abandoned.
#[derive(Clone, Debug)]
pub enum ProceedError {
    Round2VerifyCommitments(ErrorType),
    Round3VerifyVssConstruct(ErrorType),
    Round4VerifyDLogProof(ErrorType),
    /// A round's cryptography handed back results of the wrong shape.
    MalformedRoundResult { round: u16 },
}

impl ProceedError {
    /// Every failed check is fatal to the run.
    pub fn is_critical(&self) -> (r: bool)
        ensures
            r,
    {
        true
    }
}

/// A broken invariant of the state machine itself.
#[derive(Clone, Copy, Debug, PartialEq, Eq, Structural)]
pub enum InternalError {
    /// The round's store was gone when its messages were needed.
    StoreGone,
    /// The store was full but refused to hand its messages over.
    RetrieveMessagesFromStore(StoreErr),
    /// The last round ended without an output.
    NoOutput,
}

/// Why the state machine refused a call.
#[derive(Clone, Debug)]
pub enum Error {
    /// Fewer than two parties.
    TooFewParties,
    /// The threshold is not in `[1, n - 1]`.
    InvalidThreshold,
    /// The party index is not in `[1, n]`.
    InvalidPartyIndex,
    /// A round's computation failed.
    ProceedRound(ProceedError),
    /// A message for a round that is not the active one.
    ReceivedOutOfOrderMessage { current_round: u16, msg_round: u16 },
    /// A message the active store refused.
    HandleMessage(StoreErr),
    /// The output was already taken.
    DoublePickOutput,
    /// A bug of the state machine.
    Bug(InternalError),
}

impl Error {
    /// Whether the run must be abandoned: all but a stray or refused message.
    pub open spec fn spec_is_critical(&self) -> bool {
        !(self is ReceivedOutOfOrderMessage || self is HandleMessage)
    }

    pub fn is_critical(&self) -> (r: bool)
        ensures
            r == self.spec_is_critical(),
    {
        match self {
            Error::ReceivedOutOfOrderMessage { .. } => false,
            Error::HandleMessage(_) => false,
            _ => true,
        }
    }
}

impl From<InternalError> for Error {
    fn from(err: InternalError) -> (r: Error) {
        Error::Bug(err)
    }
}

impl vstd::std_specs::convert::FromSpecImpl<InternalError> for Error {
    open spec fn obeys_from_spec() -> bool {
        true
    }

    open spec fn from_spec(err: InternalError) -> Error {
        Error::Bug(err)
    }
}


/// The body of a key-generation message, one variant per round: a commitment `C`, its
/// decommitment `D`, a share with its proof `S`, and a proof of knowledge `L`.
#[derive(Clone, Debug)]
pub enum ProtocolMessage<C, D, S, L> {
    M1(C),
    M2(D),
    M3(S),
    M4(L),
}

impl<C, D, S, L> ProtocolMessage<C, D, S, L> {
    /// The round the body belongs to.
    pub open spec fn spec_round_id(&self) -> u16 {
        match self {
            ProtocolMessage::M1(_) => 1,
            ProtocolMessage::M2(_) => 2,
            ProtocolMessage::M3(_) => 3,
            ProtocolMessage::M4(_) => 4,
        }
    }

    pub fn round_id(&self) -> (r: u16)
        ensures
            r == self.spec_round_id(),
    {
        match self {
            ProtocolMessage::M1(_) => 1,
            ProtocolMessage::M2(_) => 2,
            ProtocolMessage::M3(_) => 3,
            ProtocolMessage::M4(_) => 4,
        }
    }
}

/// The last round of the protocol.
pub const LAST_ROUND: u16 = 4;

/// The phase after the last round, while the output waits to be taken.
pub const FINISHED: u16 = 5;

/// The phase after the output was taken or a round failed.
pub const GONE: u16 = 6;

/// The work of the rounds, run by the state machine once a round's messages are all in.
pub trait KeygenRounds<B, O> {
    /// Whether running `round` takes significant time.
    spec fn spec_is_expensive(&self, round: u16) -> bool;

    fn is_expensive(&self, round: u16) -> (r: bool)
        ensures
            r == self.spec_is_expensive(round);

    /// The round a message body belongs to.
    spec fn spec_body_round(&self, body: &B) -> u16;

    fn body_round(&self, body: &B) -> (r: u16)
        ensures
            r == self.spec_body_round(body);

    /// The rounds run so far, in order: each round's number, its input, and what it handed back.
    spec fn spec_runs(&self) -> Seq<RoundRun<B, O>>;

    /// Runs `round` on the messages of the other parties, in party order (none for the first
    /// round): the messages it sends, and the protocol's output after the last round.
    fn proceed(&mut self, round: u16, input: Vec<B>) -> (r: Result<(Vec<Msg<B>>, Option<O>), ProceedError>)
        ensures
            final(self).spec_runs() == old(self).spec_runs().push((round, input@, run_result(r)));
}

/// One run of a round: its number, its input, and what it handed back.
pub type RoundRun<B, O> = (u16, Seq<B>, Result<(Seq<Msg<B>>, Option<O>), ProceedError>);

/// What a round handed back, with its messages as a sequence.
pub open spec fn run_result<B, O>(r: Result<(Vec<Msg<B>>, Option<O>), ProceedError>) -> Result<(Seq<Msg<B>>, Option<O>), ProceedError> {
    match r {
        Ok((msgs, o)) => Ok((msgs@, o)),
        Err(e) => Err(e),
    }
}

/// The messages that the successful runs among `runs` sent, in order.
pub open spec fn sent<B, O>(runs: Seq<RoundRun<B, O>>) -> Seq<Msg<B>>
    decreases runs.len(),
{
    if runs.len() == 0 {
        Seq::empty()
    } else {
        sent(runs.drop_last()) + match runs.last().2 {
            Ok((msgs, _)) => msgs,
            Err(_) => Seq::empty(),
        }
    }
}

/// What the active round of `k` receives when it runs: nothing for round `0`, otherwise the
/// messages of its store in party order.
pub open spec fn round_input<B, O>(k: Keygen<B, O>) -> Seq<B> {
    if k.phase() == 0 {
        Seq::empty()
    } else {
        k.active_store().unwrap().slots().map_values(|m: Option<B>| m.unwrap())
    }
}

/// Key generation of party `party_i` out of `n` with threshold `t`: rounds `0` to `4`, then
/// the output, taken once.
pub struct Keygen<B, O> {
    round: u16,
    store: Option<MsgStore<B>>,
    output: Option<O>,
    msgs_queue: Vec<Msg<B>>,
    party_i: u16,
    t: u16,
    n: u16,
}

/// What running the ready rounds did, from `before` to `after`: nothing where the active
/// round waits for messages, or is expensive and blocking is not allowed; otherwise the
/// active round ran first on its store's messages, the phase moved forward, exactly the
/// messages the rounds sent were appended to the queue, and the run stopped at a round that
/// waits (or is expensive, without blocking), at `FINISHED` with the output the last round
/// handed back, or at `GONE` with the error a round handed back.
pub open spec fn proceed_outcome<B, O, S: KeygenRounds<B, O>>(
    before: Keygen<B, O>,
    after: Keygen<B, O>,
    rounds_before: S,
    rounds_after: S,
    may_block: bool,
    r: Result<(), Error>,
) -> bool {
    let runs = before.spec_wants_to_proceed() && (may_block || !rounds_before.spec_is_expensive(before.phase()));
    let k0 = rounds_before.spec_runs().len();
    let all = rounds_after.spec_runs();
    let new_runs = all.subrange(k0 as int, all.len() as int);
    &&& k0 <= all.len()
    &&& all.subrange(0, k0 as int) == rounds_before.spec_runs()
    &&& runs ==> new_runs.len() >= 1 && new_runs[0].0 == before.phase() && new_runs[0].1 == round_input(before)
    &&& after.queue() == before.queue() + sent(new_runs)
    &&& r matches Err(Error::ProceedRound(e)) ==> new_runs.len() >= 1 && new_runs.last().2 == Err::<(Seq<Msg<B>>, Option<O>), ProceedError>(e)
    &&& r is Ok && after.phase() == FINISHED && before.phase() != FINISHED ==> new_runs.len() >= 1
        && (new_runs.last().2 matches Ok((_, Some(o))) && after.spec_output() == Some(o))
    &&& after.well_formed()
    &&& after.spec_party() == before.spec_party()
    &&& after.spec_threshold() == before.spec_threshold()
    &&& after.spec_parties() == before.spec_parties()
    &&& !runs ==> r is Ok && after == before && rounds_after == rounds_before
    &&& runs ==> after.phase() > before.phase()
    &&& r is Ok ==> after.phase() != GONE || before.phase() == GONE
    &&& r is Ok && runs ==> !after.spec_wants_to_proceed() || (!may_block
        && rounds_after.spec_is_expensive(after.phase()))
    &&& r is Ok && after.phase() != before.phase() ==> after.store_is_empty()
    &&& r is Err ==> after.phase() == GONE
    &&& r matches Err(e) ==> (e is ProceedRound || e matches Error::Bug(InternalError::NoOutput))
}

impl<B, O> Keygen<B, O> {
    /// The phase: an active round `0..=4`, `FINISHED` or `GONE`.
    pub closed spec fn phase(&self) -> u16 {
        self.round
    }

    /// The store of the active round.
    pub closed spec fn active_store(&self) -> Option<MsgStore<B>> {
        self.store
    }

    /// The output, present while the phase is `FINISHED`.
    pub closed spec fn spec_output(&self) -> Option<O> {
        self.output
    }

    /// The messages sent so far and not yet taken.
    pub closed spec fn queue(&self) -> Seq<Msg<B>> {
        self.msgs_queue@
    }

    pub closed spec fn spec_party(&self) -> u16 {
        self.party_i
    }

    pub closed spec fn spec_threshold(&self) -> u16 {
        self.t
    }

    pub closed spec fn spec_parties(&self) -> u16 {
        self.n
    }

    /// Whether the round `round` takes addressed messages rather than broadcasts.
    pub open spec fn round_is_p2p(round: u16) -> bool {
        round == 3
    }

    /// Everything `well_formed` asks but the active round's store.
    pub open spec fn well_formed_but_store(&self) -> bool {
        &&& 1 <= self.spec_threshold() < self.spec_parties()
        &&& 1 <= self.spec_party() <= self.spec_parties()
        &&& self.phase() <= GONE
        &&& (self.phase() == FINISHED) == self.spec_output() is Some
    }

    pub open spec fn well_formed(&self) -> bool {
        &&& self.well_formed_but_store()
        &&& (1 <= self.phase() <= LAST_ROUND) == self.active_store() is Some
        &&& self.active_store() matches Some(s) ==> {
            &&& s.well_formed()
            &&& s.owner() == self.spec_party()
            &&& s.slots().len() == self.spec_parties() - 1
            &&& s.is_p2p() == Self::round_is_p2p(self.phase())
        }
    }

    /// The round that `current_round` reports: the active one, or `5` once none is.
    pub open spec fn spec_current_round(&self) -> u16 {
        if self.phase() <= LAST_ROUND {
            self.phase()
        } else {
            FINISHED
        }
    }

    /// Whether the active round has every message it needs.
    pub open spec fn spec_wants_to_proceed(&self) -> bool {
        if self.phase() == 0 {
            true
        } else if self.phase() <= LAST_ROUND {
            self.active_store() matches Some(s) && !s.spec_wants_more()
        } else {
            false
        }
    }

    /// Whether the store of the active round is fresh: no message in it yet.
    pub open spec fn store_is_empty(&self) -> bool {
        self.active_store() matches Some(s) ==> forall|k: int|
            0 <= k < s.slots().len() ==> (#[trigger] s.slots()[k]) is None
    }

    /// A state machine for party `i` out of `n` with threshold `t`, at round `0`.
    pub fn new(i: u16, t: u16, n: u16) -> (r: Result<Self, Error>)
        ensures
            n < 2 ==> r matches Err(Error::TooFewParties),
            n >= 2 && (t == 0 || t >= n) ==> r matches Err(Error::InvalidThreshold),
            n >= 2 && 1 <= t < n && (i == 0 || i > n) ==> r matches Err(Error::InvalidPartyIndex),
            n >= 2 && 1 <= t < n && 1 <= i <= n ==> (r matches Ok(k) && k.well_formed() && k.phase() == 0
                && k.spec_party() == i && k.spec_threshold() == t && k.spec_parties() == n
                && k.queue().len() == 0),
    {
        if n < 2 {
            return Err(Error::TooFewParties);
        }
        if t == 0 || t >= n {
            return Err(Error::InvalidThreshold);
        }
        if i == 0 || i > n {
            return Err(Error::InvalidPartyIndex);
        }
        Ok(Keygen { round: 0, store: None, output: None, msgs_queue: Vec::new(), party_i: i, t, n })
    }

    /// The active round, or `5` once the protocol is over.
    pub fn current_round(&self) -> (r: u16)
        ensures
            r == self.spec_current_round(),
    {
        if self.round <= LAST_ROUND {
            self.round
        } else {
            FINISHED
        }
    }

    /// The number of rounds after the first.
    pub fn total_rounds(&self) -> (r: Option<u16>)
        ensures
            r == Some(LAST_ROUND),
    {
        Some(LAST_ROUND)
    }

    pub fn party_ind(&self) -> (r: u16)
        ensures
            r == self.spec_party(),
    {
        self.party_i
    }

    pub fn parties(&self) -> (r: u16)
        ensures
            r == self.spec_parties(),
    {
        self.n
    }

    /// Whether the output is ready to be taken.
    pub fn is_finished(&self) -> (r: bool)
        ensures
            r == (self.phase() == FINISHED),
    {
        self.round == FINISHED
    }

    /// Whether the active round has every message it needs.
    pub fn wants_to_proceed(&self) -> (r: bool)
        requires
            self.well_formed(),
        ensures
            r == self.spec_wants_to_proceed(),
    {
        if self.round == 0 {
            true
        } else if self.round <= LAST_ROUND {
            match &self.store {
                Some(s) => !s.wants_more(),
                None => false,
            }
        } else {
            false
        }
    }

    /// Takes the messages sent so far.
    pub fn message_queue(&mut self) -> (r: Vec<Msg<B>>)
        requires
            old(self).well_formed(),
        ensures
            final(self).well_formed(),
            r@ == old(self).queue(),
            final(self).queue().len() == 0,
            final(self).phase() == old(self).phase(),
            final(self).active_store() == old(self).active_store(),
            final(self).spec_output() == old(self).spec_output(),
            final(self).spec_party() == old(self).spec_party(),
            final(self).spec_threshold() == old(self).spec_threshold(),
            final(self).spec_parties() == old(self).spec_parties(),
    {
        let mut taken: Vec<Msg<B>> = Vec::new();
        std::mem::swap(&mut taken, &mut self.msgs_queue);
        taken
    }

    /// Installs what round `round` (the active one, whose store was taken) handed back: on
    /// failure the run ends at `GONE`; otherwise the messages are queued, and the next round
    /// starts with a fresh store (addressed messages exactly for round `3`), or after the last
    /// round the output waits at `FINISHED`. A last round without output is a bug.
    pub fn install(&mut self, round: u16, out: Result<(Vec<Msg<B>>, Option<O>), ProceedError>) -> (r: Result<(), Error>)
        requires
            old(self).well_formed_but_store(),
            old(self).phase() == round,
            round <= LAST_ROUND,
        ensures
            final(self).well_formed(),
            final(self).spec_party() == old(self).spec_party(),
            final(self).spec_threshold() == old(self).spec_threshold(),
            final(self).spec_parties() == old(self).spec_parties(),
            match out {
                Err(e) => r == Err::<(), Error>(Error::ProceedRound(e)) && final(self).phase() == GONE
                    && final(self).queue() == old(self).queue(),
                Ok((msgs, o)) => {
                    &&& final(self).queue() == old(self).queue() + msgs@
                    &&& round < LAST_ROUND ==> r is Ok && final(self).phase() == round + 1
                        && final(self).store_is_empty()
                    &&& round == LAST_ROUND ==> match o {
                        Some(v) => r is Ok && final(self).phase() == FINISHED && final(self).spec_output() == Some(v),
                        None => r == Err::<(), Error>(Error::Bug(InternalError::NoOutput))
                            && final(self).phase() == GONE,
                    }
                },
            },
    {
        match out {
            Err(e) => {
                self.store = None;
                self.output = None;
                self.round = GONE;
                Err(Error::ProceedRound(e))
            },
            Ok((msgs, o)) => {
                let mut msgs = msgs;
                let ghost queued = msgs@;
                self.msgs_queue.append(&mut msgs);
                if round == LAST_ROUND {
                    self.store = None;
                    match o {
                        Some(v) => {
                            self.output = Some(v);
                            self.round = FINISHED;
                            Ok(())
                        },
                        None => {
                            self.output = None;
                            self.round = GONE;
                            Err(Error::Bug(InternalError::NoOutput))
                        },
                    }
                } else {
                    let next = round + 1;
                    self.store = Some(MsgStore::new(next == 3, self.party_i, self.n));
                    self.output = None;
                    self.round = next;
                    Ok(())
                }
            },
        }
    }

    /// Puts `msg` into the store of its round, then runs the rounds that are ready, expensive
    /// ones excepted. A message tagged for a round other than the active one, or whose body
    /// belongs to another round, is refused as out of order, and one that the store refuses is
    /// refused with the store's reason; either way nothing changes.
    pub fn handle_incoming<S: KeygenRounds<B, O>>(&mut self, rounds: &mut S, msg: Msg<B>) -> (r: Result<(), Error>)
        requires
            old(self).well_formed(),
        ensures
            final(self).well_formed(),
            ({
                let tagged = 1 <= old(self).phase() <= LAST_ROUND && msg.round == old(self).phase();
                let active = tagged && old(rounds).spec_body_round(&msg.body) == msg.round;
                &&& !tagged ==> r == Err::<(), Error>(Error::ReceivedOutOfOrderMessage {
                    current_round: old(self).spec_current_round(),
                    msg_round: msg.round,
                })
                &&& tagged && !active ==> r == Err::<(), Error>(Error::ReceivedOutOfOrderMessage {
                    current_round: old(self).spec_current_round(),
                    msg_round: old(rounds).spec_body_round(&msg.body),
                })
                &&& !active ==> *final(self) == *old(self) && *final(rounds) == *old(rounds)
                &&& active ==> match old(self).active_store().unwrap().push_outcome(&msg) {
                    Ok(slots) => exists|mid: Keygen<B, O>| {
                        &&& mid.well_formed()
                        &&& mid.phase() == old(self).phase()
                        &&& mid.active_store().unwrap().slots() == slots
                        &&& mid.queue() == old(self).queue()
                        &&& mid.spec_party() == old(self).spec_party()
                        &&& mid.spec_parties() == old(self).spec_parties()
                        &&& mid.spec_threshold() == old(self).spec_threshold()
                        &&& #[trigger] proceed_outcome(mid, *final(self), *old(rounds), *final(rounds), false, r)
                    },
                    Err(e) => r == Err::<(), Error>(Error::HandleMessage(e))
                        && *final(self) == *old(self) && *final(rounds) == *old(rounds),
                }
            }),
    {
        let current_round = self.current_round();
        if self.round == 0 || self.round > LAST_ROUND || msg.round != self.round {
            return Err(Error::ReceivedOutOfOrderMessage { current_round, msg_round: msg.round });
        }
        let body_round = rounds.body_round(&msg.body);
        if body_round != msg.round {
            return Err(Error::ReceivedOutOfOrderMessage { current_round, msg_round: body_round });
        }
        let mut store = match self.store.take() {
            Some(s) => s,
            None => vstd::pervasive::unreached(),
        };
        let ghost before = store;
        let res = store.push_msg(msg);
        match res {
            Ok(()) => {
                self.store = Some(store);
                let ghost mid = *self;
                let r = self.proceed_round(rounds, false);
                assert(proceed_outcome(mid, *self, *old(rounds), *rounds, false, r));
                r
            },
            Err(e) => {
                assert(store == before);
                self.store = Some(store);
                assert(*self == *old(self));
                Err(Error::HandleMessage(e))
            },
        }
    }

    /// Runs every round whose messages are all in, one after the other, stopping at a round
    /// that still waits for messages, or at an expensive one unless `may_block`. A failed
    /// round ends the run: the phase becomes `GONE`.
    pub fn proceed_round<S: KeygenRounds<B, O>>(&mut self, rounds: &mut S, may_block: bool) -> (r: Result<(), Error>)
        requires
            old(self).well_formed(),
        ensures
            proceed_outcome(*old(self), *final(self), *old(rounds), *final(rounds), may_block, r),
    {
        let ghost start = *self;
        let ghost rounds_start = *rounds;
        assert(rounds.spec_runs().subrange(0, rounds.spec_runs().len() as int) =~= rounds.spec_runs());
        assert(rounds.spec_runs().subrange(rounds.spec_runs().len() as int, rounds.spec_runs().len() as int) =~= Seq::<RoundRun<B, O>>::empty());
        assert(self.queue() =~= start.queue() + sent(Seq::<RoundRun<B, O>>::empty()));
        loop
            invariant
                self.well_formed(),
                start.well_formed(),
                start == *old(self),
                rounds_start == *old(rounds),
                self.spec_party() == start.spec_party(),
                self.spec_threshold() == start.spec_threshold(),
                self.spec_parties() == start.spec_parties(),
                self.phase() >= start.phase(),
                self.phase() == start.phase() ==> *self == start && *rounds == rounds_start,
                self.phase() != start.phase() ==> self.store_is_empty() && self.phase() != GONE
                    && start.spec_wants_to_proceed()
                    && (may_block || !rounds_start.spec_is_expensive(start.phase())),
                rounds_start.spec_runs().len() <= rounds.spec_runs().len(),
                rounds.spec_runs().subrange(0, rounds_start.spec_runs().len() as int) == rounds_start.spec_runs(),
                self.queue() == start.queue() + sent(rounds.spec_runs().subrange(rounds_start.spec_runs().len() as int, rounds.spec_runs().len() as int)),
                self.phase() != start.phase() ==> self.phase() <= LAST_ROUND,
                self.phase() != start.phase() ==> ({
                    let nr = rounds.spec_runs().subrange(rounds_start.spec_runs().len() as int, rounds.spec_runs().len() as int);
                    nr.len() >= 1 && nr[0].0 == start.phase() && nr[0].1 == round_input(start)
                }),
            decreases GONE - self.round,
        {
            let round = self.round;
            if round > LAST_ROUND {
                return Ok(());
            }
            if round > 0 {
                let ready = match &self.store {
                    Some(s) => !s.wants_more(),
                    None => false,
                };
                if !ready {
                    return Ok(());
                }
            }
            if rounds.is_expensive(round) && !may_block {
                return Ok(());
            }
            let input: Vec<B> = if round == 0 {
                Vec::new()
            } else {
                let store = match self.store.take() {
                    Some(s) => s,
                    None => vstd::pervasive::unreached(),
                };
                match store.finish() {
                    Ok(v) => v,
                    Err(_) => vstd::pervasive::unreached(),
                }
            };
            proof {
                if round > 0 {
                    assert(input@ =~= round_input(*old(self)) || self.phase() != start.phase());
                }
            }
            let ghost q0 = self.queue();
            let ghost runs0 = rounds.spec_runs();
            let ghost in0 = input@;
            let out = rounds.proceed(round, input);
            let ghost x = (round, in0, run_result(out));
            let step = self.install(round, out);
            proof {
                let k0 = rounds_start.spec_runs().len() as int;
                let nr0 = runs0.subrange(k0, runs0.len() as int);
                let nr1 = rounds.spec_runs().subrange(k0, rounds.spec_runs().len() as int);
                assert(nr1 =~= nr0.push(x));
                assert(nr1.len() == nr0.len() + 1);
                assert(nr1.last() == x);
                assert(nr1.drop_last() =~= nr0);
                if nr0.len() > 0 {
                    assert(nr1[0] == nr0[0]);
                }
                assert(rounds.spec_runs().subrange(0, k0) =~= rounds_start.spec_runs()) by {
                    assert(runs0.subrange(0, k0) == rounds_start.spec_runs());
                }
                match x.2 {
                    Ok((msgs, _)) => {
                        assert(self.queue() =~= start.queue() + sent(nr1));
                    },
                    Err(_) => {
                        assert(self.queue() =~= start.queue() + sent(nr1));
                    },
                }
            }
            match step {
                Err(e) => {
                    return Err(e);
                },
                Ok(()) => {
                    if self.round == FINISHED {
                        return Ok(());
                    }
                },
            }
        }
    }

    /// Runs every round whose messages are all in, expensive ones included.
    pub fn proceed<S: KeygenRounds<B, O>>(&mut self, rounds: &mut S) -> (r: Result<(), Error>)
        requires
            old(self).well_formed(),
        ensures
            proceed_outcome(*old(self), *final(self), *old(rounds), *final(rounds), true, r),
    {
        self.proceed_round(rounds, true)
    }

    /// Takes the output once the last round is done: `None` before, and
    /// `DoublePickOutput` once it was taken.
    pub fn pick_output(&mut self) -> (r: Option<Result<O, Error>>)
        requires
            old(self).well_formed(),
        ensures
            final(self).well_formed(),
            old(self).phase() == FINISHED ==> r == Some(Ok::<O, Error>(old(self).spec_output().unwrap()))
                && final(self).phase() == GONE,
            old(self).phase() == GONE ==> (r matches Some(Err(Error::DoublePickOutput)) && *final(self) == *old(self)),
            old(self).phase() < FINISHED ==> r is None && *final(self) == *old(self),
    {
        if self.round == GONE {
            return Some(Err(Error::DoublePickOutput));
        }
        if self.round != FINISHED {
            return None;
        }
        self.round = GONE;
        match self.output.take() {
            Some(o) => Some(Ok(o)),
            None => vstd::pervasive::unreached(),
        }
    }

    /// The number of messages the active round still waits for, and the parties they are
    /// due from, in order; none outside the rounds that take messages.
    pub fn round_blame(&self) -> (r: (u16, Vec<u16>))
        requires
            self.well_formed(),
        ensures
            r.0 == r.1@.len(),
            r.1@ == match self.active_store() {
                Some(s) => s.blamed(),
                None => Seq::<u16>::empty(),
            },
    {
        match &self.store {
            Some(s) => s.blame(),
            None => (0, Vec::new()),
        }
    }
}

} // verus!

//! Per-round message stores: one message from each other party, broadcast or addressed.

use vstd::prelude::*;

verus! {

/// A message of a round: its round number, sender, receiver (`None` for a broadcast) and body.
#[derive(Clone, Debug)]
pub struct Msg<B> {
    pub round: u16,
    pub sender: u16,
    pub receiver: Option<u16>,
    pub body: B,
}

/// Why a store refused a message, or refused to hand its messages over.
#[derive(Clone, Copy, Debug, PartialEq, Eq, Structural)]
pub enum StoreErr {
    /// A message from this sender was already received.
    MsgOverwrite,
    /// The sender is no party.
    UnknownSender { sender: u16 },
    /// A broadcast message where an addressed one is expected.
    ExpectedP2P,
    /// An addressed message where a broadcast is expected.
    ExpectedBroadcast,
    /// The message is addressed to another party.
    NotForMe,
    /// The message claims to come from this party.
    ItsFromMe,
    /// Messages are still missing.
    WantsMoreMessages,
}

/// The slot of `sender`'s message in a store of party `party_i`: parties in order, this one left out.
pub open spec fn slot_of(sender: int, party_i: int) -> int {
    if sender < party_i {
        sender - 1
    } else {
        sender - 2
    }
}

/// The party whose message goes to slot `k` of a store of party `party_i`.
pub open spec fn sender_of(k: int, party_i: int) -> int {
    if k < party_i - 1 {
        k + 1
    } else {
        k + 2
    }
}

/// Collects one message of a round from each of the other `n - 1` parties.
pub struct MsgStore<B> {
    p2p: bool,
    party_i: u16,
    msgs: Vec<Option<B>>,
}

impl<B> MsgStore<B> {
    /// Whether the store takes addressed messages rather than broadcasts.
    pub closed spec fn is_p2p(&self) -> bool {
        self.p2p
    }

    /// The party that owns the store.
    pub closed spec fn owner(&self) -> int {
        self.party_i as int
    }

    /// The slots, one per other party, in party order.
    pub closed spec fn slots(&self) -> Seq<Option<B>> {
        self.msgs@
    }

    pub open spec fn well_formed(&self) -> bool {
        1 <= self.owner() <= self.slots().len() + 1 <= u16::MAX
    }

    /// Whether a message is still missing.
    pub open spec fn spec_wants_more(&self) -> bool {
        exists|k: int| 0 <= k < self.slots().len() && (#[trigger] self.slots()[k]) is None
    }

    /// What pushing `msg` does: the error, or the slots afterwards.
    pub open spec fn push_outcome(&self, msg: &Msg<B>) -> Result<Seq<Option<B>>, StoreErr> {
        let k = slot_of(msg.sender as int, self.owner());
        if msg.sender == 0 {
            Err(StoreErr::UnknownSender { sender: msg.sender })
        } else if !self.is_p2p() && msg.receiver is Some {
            Err(StoreErr::ExpectedBroadcast)
        } else if self.is_p2p() && msg.receiver is None {
            Err(StoreErr::ExpectedP2P)
        } else if self.is_p2p() && msg.receiver != Some(self.owner() as u16) {
            Err(StoreErr::NotForMe)
        } else if msg.sender == self.owner() {
            Err(StoreErr::ItsFromMe)
        } else if k >= self.slots().len() {
            Err(StoreErr::UnknownSender { sender: msg.sender })
        } else if self.slots()[k] is Some {
            Err(StoreErr::MsgOverwrite)
        } else {
            Ok(self.slots().update(k, Some(msg.body)))
        }
    }

    /// An empty store of party `party_i` out of `n`.
    pub fn new(p2p: bool, party_i: u16, n: u16) -> (r: Self)
        requires
            1 <= party_i <= n,
        ensures
            r.well_formed(),
            r.is_p2p() == p2p,
            r.owner() == party_i,
            r.slots().len() == n - 1,
            forall|k: int| 0 <= k < n - 1 ==> (#[trigger] r.slots()[k]) is None,
    {
        let mut msgs: Vec<Option<B>> = Vec::new();
        while msgs.len() < (n - 1) as usize
            invariant
                msgs@.len() <= n - 1,
                forall|k: int| 0 <= k < msgs@.len() ==> (#[trigger] msgs@[k]) is None,
            decreases n - 1 - msgs@.len(),
        {
            msgs.push(None);
        }
        MsgStore { p2p, party_i, msgs }
    }

    /// Stores `msg`, or says why it is refused and leaves the store as it was.
    pub fn push_msg(&mut self, msg: Msg<B>) -> (r: Result<(), StoreErr>)
        requires
            old(self).well_formed(),
        ensures
            final(self).well_formed(),
            final(self).is_p2p() == old(self).is_p2p(),
            final(self).owner() == old(self).owner(),
            match old(self).push_outcome(&msg) {
                Ok(slots) => r is Ok && final(self).slots() == slots,
                Err(e) => r == Err::<(), StoreErr>(e) && *final(self) == *old(self),
            },
    {
        if msg.sender == 0 {
            return Err(StoreErr::UnknownSender { sender: msg.sender });
        }
        if !self.p2p && msg.receiver.is_some() {
            return Err(StoreErr::ExpectedBroadcast);
        }
        if self.p2p {
            match msg.receiver {
                None => {
                    return Err(StoreErr::ExpectedP2P);
                },
                Some(j) => {
                    if j != self.party_i {
                        return Err(StoreErr::NotForMe);
                    }
                },
            }
        }
        if msg.sender == self.party_i {
            return Err(StoreErr::ItsFromMe);
        }
        let k: usize = if msg.sender < self.party_i {
            (msg.sender - 1) as usize
        } else {
            (msg.sender - 2) as usize
        };
        if k >= self.msgs.len() {
            return Err(StoreErr::UnknownSender { sender: msg.sender });
        }
        if self.msgs[k].is_some() {
            return Err(StoreErr::MsgOverwrite);
        }
        self.msgs.set(k, Some(msg.body));
        Ok(())
    }

    /// Whether a message is still missing.
    pub fn wants_more(&self) -> (r: bool)
        ensures
            r == self.spec_wants_more(),
    {
        let mut k: usize = 0;
        while k < self.msgs.len()
            invariant
                k <= self.msgs@.len(),
                forall|j: int| 0 <= j < k ==> (#[trigger] self.msgs@[j]) is Some,
            decreases self.msgs@.len() - k,
        {
            if self.msgs[k].is_none() {
                assert(self.slots()[k as int] is None);
                return true;
            }
            k = k + 1;
        }
        false
    }

    /// The number of missing messages and the parties that have not sent theirs, in order.
    pub fn blame(&self) -> (r: (u16, Vec<u16>))
        requires
            self.well_formed(),
        ensures
            r.0 == r.1@.len(),
            r.1@ == self.blamed(),
    {
        let mut guilty: Vec<u16> = Vec::new();
        let mut k: usize = 0;
        while k < self.msgs.len()
            invariant
                self.well_formed(),
                k <= self.msgs@.len(),
                guilty@ == self.blamed_upto(k as int),
                guilty@.len() <= k,
            decreases self.msgs@.len() - k,
        {
            if self.msgs[k].is_none() {
                let who: u16 = if k < (self.party_i - 1) as usize {
                    (k + 1) as u16
                } else {
                    (k + 2) as u16
                };
                guilty.push(who);
            }
            k = k + 1;
        }
        (guilty.len() as u16, guilty)
    }

    /// The senders of the missing messages among the first `k` slots, in order.
    pub open spec fn blamed_upto(&self, k: int) -> Seq<u16>
        decreases k,
    {
        if k <= 0 {
            Seq::empty()
        } else if self.slots()[k - 1] is None {
            self.blamed_upto(k - 1).push(sender_of(k - 1, self.owner()) as u16)
        } else {
            self.blamed_upto(k - 1)
        }
    }

    /// The senders of the missing messages, in order.
    pub open spec fn blamed(&self) -> Seq<u16> {
        self.blamed_upto(self.slots().len() as int)
    }

    /// The received messages in party order, once none is missing.
    pub fn finish(self) -> (r: Result<Vec<B>, StoreErr>)
        ensures
            self.spec_wants_more() ==> r == Err::<Vec<B>, StoreErr>(StoreErr::WantsMoreMessages),
            !self.spec_wants_more() ==> (r matches Ok(v) && v@.len() == self.slots().len()
                && forall|k: int| 0 <= k < v@.len() ==> self.slots()[k] == Some(#[trigger] v@[k])),
    {
        if self.wants_more() {
            return Err(StoreErr::WantsMoreMessages);
        }
        let ghost slots = self.slots();
        let mut msgs = self.msgs;
        let mut out: Vec<B> = Vec::new();
        while msgs.len() > 0
            invariant
                out@.len() + msgs@.len() == slots.len(),
                msgs@ == slots.subrange(out@.len() as int, slots.len() as int),
                forall|k: int| 0 <= k < slots.len() ==> (#[trigger] slots[k]) is Some,
                forall|k: int| 0 <= k < out@.len() ==> slots[k] == Some(#[trigger] out@[k]),
            decreases msgs@.len(),
        {
            let m = msgs.remove(0);
            assert(slots[out@.len() as int] == m);
            match m {
                Some(b) => {
                    out.push(b);
                },
                None => {
                    assert(false);
                },
            }
            assert(msgs@ =~= slots.subrange(out@.len() as int, slots.len() as int));
        }
        Ok(out)
    }
}

} // verus!

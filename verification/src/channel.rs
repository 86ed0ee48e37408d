//! One-way payment channels: opened against collateral in escrow, closed once
//! by the recipient with a claim that the channel's key has signed.

use vstd::prelude::*;
use std::collections::HashMap;
use crate::codec::{le_value, to_u128};
use crate::escrow::{reserved_by, same_balances, Escrow};
use crate::primitives::{AccountId, Balance, Moment};
use crate::signature::{is_signed, signature_verifies};

verus! {

broadcast use vstd::std_specs::hash::group_hash_axioms;

/// A payment commitment from `sender` to `recipient`, backed by `collateral`
/// locked in escrow and drawn on with claims signed by `signing_key`.
#[derive(Clone, Debug, PartialEq, Eq)]
pub struct Channel {
    pub sender: AccountId,
    pub signing_key: Vec<u8>,
    pub recipient: AccountId,
    pub start: Moment,
    pub collateral: Balance,
}

/// What the ledger makes known to the outside.
#[derive(Clone, Copy, Debug, PartialEq, Eq, Structural)]
pub enum Event {
    /// A channel was opened, with its identifier and its sender.
    NewChannel(u32, AccountId),
}

/// Why opening or closing a channel is refused.
#[derive(Clone, Copy, Debug, PartialEq, Eq, Structural)]
pub enum ChannelError {
    /// The escrow could not lock the collateral.
    InsufficientFunds,
    /// Every identifier has been handed out.
    IdsExhausted,
    /// The claimed amount does not fit a balance.
    AmountOverflow,
    /// No open channel has the identifier.
    UnknownChannel,
    /// Somebody other than the recipient tried to close.
    NotRecipient,
    /// The claim is beyond what the channel or the escrow holds.
    ImpossibleState,
    /// The channel's key did not sign the claimed amount.
    InvalidSignature,
}

impl ChannelError {
    /// The reason in words.
    pub fn message(&self) -> (text: &'static str)
        ensures
            text@ == match *self {
                ChannelError::InsufficientFunds => "Not enough free balance to reserve"@,
                ChannelError::IdsExhausted => "No channel id left"@,
                ChannelError::AmountOverflow => "Amount does not fit a balance"@,
                ChannelError::UnknownChannel => "Unknown channel"@,
                ChannelError::NotRecipient => "Only the recipient can close"@,
                ChannelError::ImpossibleState => "Submitted an impossible state"@,
                ChannelError::InvalidSignature => "Invalid signature"@,
            },
    {
        match self {
            ChannelError::InsufficientFunds => "Not enough free balance to reserve",
            ChannelError::IdsExhausted => "No channel id left",
            ChannelError::AmountOverflow => "Amount does not fit a balance",
            ChannelError::UnknownChannel => "Unknown channel",
            ChannelError::NotRecipient => "Only the recipient can close",
            ChannelError::ImpossibleState => "Submitted an impossible state",
            ChannelError::InvalidSignature => "Invalid signature",
        }
    }
}

/// A channel as plain values.
pub struct ChannelView {
    pub sender: AccountId,
    pub signing_key: Seq<u8>,
    pub recipient: AccountId,
    pub start: Moment,
    pub collateral: Balance,
}

impl View for Channel {
    type V = ChannelView;

    open spec fn view(&self) -> ChannelView {
        ChannelView {
            sender: self.sender,
            signing_key: self.signing_key@,
            recipient: self.recipient,
            start: self.start,
            collateral: self.collateral,
        }
    }
}

/// What of the collateral goes back to the sender once `claimed` has left
/// the lock: the rest of the collateral, as far as the lock still holds it.
pub open spec fn refund(channel: ChannelView, locked: nat, claimed: nat) -> nat
    recommends
        claimed <= channel.collateral,
        claimed <= locked,
{
    if channel.collateral <= locked {
        (channel.collateral - claimed) as nat
    } else {
        (locked - claimed) as nat
    }
}

/// `after` is `before` with the channel settled on `claimed`: that much went
/// from the sender's lock to the recipient's free balance, and the refund
/// from the sender's lock to the sender's free balance.
pub open spec fn settled<E: Escrow>(before: &E, after: &E, channel: ChannelView, claimed: nat) -> bool {
    let back = refund(channel, before.reserved(channel.sender), claimed);
    forall|w: AccountId|
        #![trigger after.free(w)]
        #![trigger after.reserved(w)]
        {
            &&& after.reserved(w) == before.reserved(w) - (if w == channel.sender {
                claimed + back
            } else {
                0
            })
            &&& after.free(w) == before.free(w) + (if w == channel.recipient {
                claimed
            } else {
                0
            }) + (if w == channel.sender {
                back
            } else {
                0
            })
        }
}

/// A settlement neither makes nor loses funds: what the sender and the
/// recipient hold together, free and locked, is the same before and after,
/// and nobody else's balances change.
pub proof fn lemma_settlement_conserves<E: Escrow>(before: &E, after: &E, channel: ChannelView, claimed: nat)
    requires
        settled(before, after, channel, claimed),
    ensures
        channel.sender != channel.recipient ==> after.free(channel.sender) + after.reserved(channel.sender)
            + after.free(channel.recipient) + after.reserved(channel.recipient) == before.free(
            channel.sender,
        ) + before.reserved(channel.sender) + before.free(channel.recipient) + before.reserved(
            channel.recipient,
        ),
        channel.sender == channel.recipient ==> after.free(channel.sender) + after.reserved(channel.sender)
            == before.free(channel.sender) + before.reserved(channel.sender),
        forall|w: AccountId|
            w != channel.sender && w != channel.recipient ==> #[trigger] after.free(w) == before.free(w)
                && after.reserved(w) == before.reserved(w),
{
    let s = channel.sender;
    let r = channel.recipient;
    assert(after.free(s) == before.free(s) + (if s == r { claimed } else { 0 }) + refund(
        channel,
        before.reserved(s),
        claimed,
    ));
    assert(after.reserved(s) == before.reserved(s) - (claimed + refund(channel, before.reserved(s), claimed)));
    assert(after.free(r) == before.free(r) + claimed + (if r == s {
        refund(channel, before.reserved(s), claimed)
    } else {
        0
    }));
    assert(after.reserved(r) == before.reserved(r) - (if r == s {
        claimed + refund(channel, before.reserved(s), claimed)
    } else {
        0
    }));
}

/// How an attempt to close ends, given the open channels, what the escrow
/// holds locked for each account, and whether the signature verified under
/// the channel's key. The tests are made in this order: the amount is read,
/// the channel found, the claim held against the collateral and against the
/// sender's lock, the signature looked at, and last the caller held to be
/// the recipient.
pub open spec fn close_verdict(
    channels: Map<u32, ChannelView>,
    locked: spec_fn(AccountId) -> nat,
    caller: AccountId,
    channel_id: u32,
    amount: Seq<u8>,
    signature_valid: bool,
) -> Result<(), ChannelError> {
    if le_value(amount) > Balance::MAX {
        Err(ChannelError::AmountOverflow)
    } else if !channels.contains_key(channel_id) {
        Err(ChannelError::UnknownChannel)
    } else if channels[channel_id].collateral < le_value(amount) {
        Err(ChannelError::ImpossibleState)
    } else if locked(channels[channel_id].sender) < le_value(amount) {
        Err(ChannelError::ImpossibleState)
    } else if !signature_valid {
        Err(ChannelError::InvalidSignature)
    } else if channels[channel_id].recipient != caller {
        Err(ChannelError::NotRecipient)
    } else {
        Ok(())
    }
}

/// A claim above the collateral of the channel it names is an impossible
/// state, whoever brings it, whoever signed it and whatever the escrow
/// holds.
pub proof fn lemma_claim_above_collateral(
    channels: Map<u32, ChannelView>,
    locked: spec_fn(AccountId) -> nat,
    caller: AccountId,
    channel_id: u32,
    amount: Seq<u8>,
    signature_valid: bool,
)
    requires
        le_value(amount) <= Balance::MAX,
        channels.contains_key(channel_id),
        le_value(amount) > channels[channel_id].collateral,
    ensures
        close_verdict(channels, locked, caller, channel_id, amount, signature_valid) == Err::<
            (),
            ChannelError,
        >(ChannelError::ImpossibleState),
{
}

/// A claim that the channel and the escrow cover, brought by anybody
/// without a signature of the channel's key over its bytes, is turned away
/// as wrongly signed.
pub proof fn lemma_unsigned_claim(
    channels: Map<u32, ChannelView>,
    locked: spec_fn(AccountId) -> nat,
    caller: AccountId,
    channel_id: u32,
    amount: Seq<u8>,
)
    requires
        le_value(amount) <= Balance::MAX,
        channels.contains_key(channel_id),
        le_value(amount) <= channels[channel_id].collateral,
        le_value(amount) <= locked(channels[channel_id].sender),
    ensures
        close_verdict(channels, locked, caller, channel_id, amount, false) == Err::<(), ChannelError>(
            ChannelError::InvalidSignature,
        ),
{
}

/// A claim within the collateral but above what the escrow holds locked for
/// the sender is an impossible state, whoever brings it and whoever signed
/// it.
pub proof fn lemma_claim_above_lock(
    channels: Map<u32, ChannelView>,
    locked: spec_fn(AccountId) -> nat,
    caller: AccountId,
    channel_id: u32,
    amount: Seq<u8>,
    signature_valid: bool,
)
    requires
        le_value(amount) <= Balance::MAX,
        channels.contains_key(channel_id),
        le_value(amount) > locked(channels[channel_id].sender),
    ensures
        close_verdict(channels, locked, caller, channel_id, amount, signature_valid) == Err::<
            (),
            ChannelError,
        >(ChannelError::ImpossibleState),
{
}

/// Whatever claim is accepted was brought by the recipient of an open
/// channel, is covered by the channel's collateral and by what the escrow
/// holds locked for the sender, and was signed.
pub proof fn lemma_accepted_claim_is_covered(
    channels: Map<u32, ChannelView>,
    locked: spec_fn(AccountId) -> nat,
    caller: AccountId,
    channel_id: u32,
    amount: Seq<u8>,
    signature_valid: bool,
)
    requires
        close_verdict(channels, locked, caller, channel_id, amount, signature_valid) is Ok,
    ensures
        channels.contains_key(channel_id),
        channels[channel_id].recipient == caller,
        le_value(amount) <= channels[channel_id].collateral,
        le_value(amount) <= locked(channels[channel_id].sender),
        signature_valid,
{
}

/// An attempt to close succeeds only for a channel that is open.
pub proof fn lemma_closed_stays_closed(
    channels: Map<u32, ChannelView>,
    locked: spec_fn(AccountId) -> nat,
    caller: AccountId,
    channel_id: u32,
    amount: Seq<u8>,
    signature_valid: bool,
)
    requires
        le_value(amount) <= Balance::MAX,
    ensures
        close_verdict(channels.remove(channel_id), locked, caller, channel_id, amount, signature_valid)
            == Err::<(), ChannelError>(ChannelError::UnknownChannel),
{
}

/// The open channels, the next free identifier, and the events not yet
/// taken.
#[derive(Debug)]
pub struct ChannelLedger {
    channels: HashMap<u32, Channel>,
    next_free_id: u32,
    events: Vec<Event>,
}

impl ChannelLedger {
    /// The open channels by identifier.
    pub closed spec fn channels(&self) -> Map<u32, ChannelView> {
        self.channels@.map_values(|c: Channel| c@)
    }

    /// The identifier that the next channel gets.
    pub closed spec fn next_free_id(&self) -> u32 {
        self.next_free_id
    }

    /// The events not yet taken, oldest first.
    pub closed spec fn events(&self) -> Seq<Event> {
        self.events@
    }

    /// Every open channel has an identifier that was handed out.
    pub closed spec fn wf(&self) -> bool {
        forall|id: u32| #[trigger] self.channels@.contains_key(id) ==> id < self.next_free_id
    }

    /// Whether `later` can be this ledger at a later time: its counter has
    /// not gone back.
    pub open spec fn precedes(&self, later: &ChannelLedger) -> bool {
        self.next_free_id() <= later.next_free_id()
    }

    /// Of two identifiers handed out, the second one by the ledger as it was
    /// at any time after the first, the second is the larger: identifiers
    /// only grow, and none is handed out twice.
    pub proof fn lemma_ids_increase(
        before_first: &ChannelLedger,
        after_first: &ChannelLedger,
        before_second: &ChannelLedger,
        first: u32,
        second: u32,
    )
        requires
            first == before_first.next_free_id(),
            after_first.next_free_id() == first + 1,
            after_first.precedes(before_second),
            second == before_second.next_free_id(),
        ensures
            first < second,
    {
    }

    /// No identifier from the next free one on names an open channel.
    pub proof fn lemma_fresh_ids(&self, id: u32)
        requires
            self.wf(),
            id >= self.next_free_id(),
        ensures
            !self.channels().contains_key(id),
    {
    }

    /// A ledger without channels, whose first identifier is 0.
    pub fn new() -> (r: Self)
        ensures
            r.wf(),
            r.channels() == Map::<u32, ChannelView>::empty(),
            r.next_free_id() == 0,
            r.events() == Seq::<Event>::empty(),
    {
        let r = ChannelLedger { channels: HashMap::new(), next_free_id: 0, events: Vec::new() };
        proof {
            assert(r.channels() =~= Map::<u32, ChannelView>::empty());
        }
        r
    }

    /// A ledger without channels that hands out identifiers from
    /// `next_free_id` on, as when the counter is taken up from stored state.
    pub fn starting_at(next_free_id: u32) -> (r: Self)
        ensures
            r.wf(),
            r.channels() == Map::<u32, ChannelView>::empty(),
            r.next_free_id() == next_free_id,
            r.events() == Seq::<Event>::empty(),
    {
        let r = ChannelLedger { channels: HashMap::new(), next_free_id, events: Vec::new() };
        proof {
            assert(r.channels() =~= Map::<u32, ChannelView>::empty());
        }
        r
    }

    /// The open channel with the identifier `id`.
    pub fn channel(&self, id: u32) -> (r: Option<&Channel>)
        ensures
            r is Some <==> self.channels().contains_key(id),
            r matches Some(c) ==> c@ == self.channels()[id],
    {
        self.channels.get(&id)
    }

    /// The identifier that the next channel gets.
    pub fn next_id(&self) -> (id: u32)
        ensures
            id == self.next_free_id(),
    {
        self.next_free_id
    }

    /// Takes the events that have gathered.
    pub fn take_events(&mut self) -> (taken: Vec<Event>)
        ensures
            taken@ == old(self).events(),
            old(self).precedes(final(self)),
            final(self).events() == Seq::<Event>::empty(),
            final(self).channels() == old(self).channels(),
            final(self).next_free_id() == old(self).next_free_id(),
            old(self).wf() ==> final(self).wf(),
    {
        let mut taken: Vec<Event> = Vec::new();
        std::mem::swap(&mut self.events, &mut taken);
        taken
    }

    /// Hands out the next identifier, which is larger than every one handed
    /// out before; `None` when none is left. Only the counter changes.
    pub fn new_id(&mut self) -> (id: Option<u32>)
        requires
            old(self).wf(),
        ensures
            final(self).wf(),
            old(self).precedes(final(self)),
            final(self).channels() == old(self).channels(),
            final(self).events() == old(self).events(),
            old(self).next_free_id() == u32::MAX ==> id is None && final(self).next_free_id() == u32::MAX,
            old(self).next_free_id() < u32::MAX ==> id == Some(old(self).next_free_id())
                && final(self).next_free_id() == old(self).next_free_id() + 1,
    {
        if self.next_free_id == u32::MAX {
            return None;
        }
        let id = self.next_free_id;
        self.next_free_id = id + 1;
        Some(id)
    }

    /// Opens a channel from `sender` to `recipient` at time `now`. The
    /// collateral is locked in escrow, the channel gets the next identifier,
    /// which was never used before, and the opening is made known. The
    /// escrow is asked first: when it cannot lock the collateral the funds
    /// are insufficient, whether or not an identifier is left. When it can
    /// but no identifier is left, the lock is undone. Either way nothing
    /// changes.
    pub fn open_channel<E: Escrow>(
        &mut self,
        escrow: &mut E,
        sender: AccountId,
        signing_key: Vec<u8>,
        recipient: AccountId,
        collateral: Balance,
        now: Moment,
    ) -> (opened: Result<u32, ChannelError>)
        requires
            old(self).wf(),
            old(escrow).wf(),
        ensures
            final(self).wf(),
            final(escrow).wf(),
            old(self).precedes(final(self)),
            opened == (if !old(escrow).can_reserve(sender, collateral) {
                Err::<u32, ChannelError>(ChannelError::InsufficientFunds)
            } else if old(self).next_free_id() == u32::MAX {
                Err::<u32, ChannelError>(ChannelError::IdsExhausted)
            } else {
                Ok::<u32, ChannelError>(old(self).next_free_id())
            }),
            opened is Err ==> {
                &&& same_balances(old(escrow), final(escrow))
                &&& final(self).channels() == old(self).channels()
                &&& final(self).next_free_id() == old(self).next_free_id()
                &&& final(self).events() == old(self).events()
            },
            opened matches Ok(id) ==> {
                &&& reserved_by(old(escrow), final(escrow), sender, collateral)
                &&& !old(self).channels().contains_key(id)
                &&& final(self).channels() == old(self).channels().insert(
                    id,
                    ChannelView { sender, signing_key: signing_key@, recipient, start: now, collateral },
                )
                &&& final(self).next_free_id() == id + 1
                &&& final(self).events() == old(self).events().push(Event::NewChannel(id, sender))
            },
    {
        match escrow.reserve(sender, collateral) {
            Ok(()) => {},
            Err(_) => {
                return Err(ChannelError::InsufficientFunds);
            },
        }
        let id = match self.new_id() {
            Some(id) => id,
            None => {
                escrow.release(sender, sender, collateral);
                return Err(ChannelError::IdsExhausted);
            },
        };
        let channel = Channel { sender, signing_key, recipient, start: now, collateral };
        self.channels.insert(id, channel);
        self.events.push(Event::NewChannel(id, sender));
        proof {
            assert(self.channels() =~= old(self).channels().insert(id, channel@));
        }
        Ok(id)
    }

    /// Closes a channel once it is known whether the signature over `amount`
    /// verified under the channel's key. On success the claimed amount goes
    /// from the sender's lock to the recipient, what is left of the
    /// collateral goes back to the sender, and the channel is gone. On
    /// failure nothing changes.
    pub fn close_channel_with<E: Escrow>(
        &mut self,
        escrow: &mut E,
        caller: AccountId,
        channel_id: u32,
        amount: &[u8],
        signature_valid: bool,
    ) -> (closed: Result<(), ChannelError>)
        requires
            old(self).wf(),
            old(escrow).wf(),
        ensures
            final(self).wf(),
            final(escrow).wf(),
            old(self).precedes(final(self)),
            closed == close_verdict(
                old(self).channels(),
                |w: AccountId| old(escrow).reserved(w),
                caller,
                channel_id,
                amount@,
                signature_valid,
            ),
            final(self).next_free_id() == old(self).next_free_id(),
            final(self).events() == old(self).events(),
            closed is Err ==> {
                &&& same_balances(old(escrow), final(escrow))
                &&& final(self).channels() == old(self).channels()
            },
            closed is Ok ==> {
                &&& settled(old(escrow), final(escrow), old(self).channels()[channel_id], le_value(amount@))
                &&& final(self).channels() == old(self).channels().remove(channel_id)
            },
    {
        let claimed = match to_u128(amount) {
            Some(v) => v,
            None => {
                return Err(ChannelError::AmountOverflow);
            },
        };
        let (sender, recipient, collateral) = match self.channels.get(&channel_id) {
            Some(c) => (c.sender, c.recipient, c.collateral),
            None => {
                return Err(ChannelError::UnknownChannel);
            },
        };
        if collateral < claimed {
            return Err(ChannelError::ImpossibleState);
        }
        let locked = escrow.reserved_balance(sender);
        if locked < claimed {
            return Err(ChannelError::ImpossibleState);
        }
        if !signature_valid {
            return Err(ChannelError::InvalidSignature);
        }
        if recipient != caller {
            return Err(ChannelError::NotRecipient);
        }
        let back = if collateral <= locked {
            collateral - claimed
        } else {
            locked - claimed
        };
        escrow.release(sender, recipient, claimed);
        escrow.release(sender, sender, back);
        self.channels.remove(&channel_id);
        proof {
            assert(self.channels() =~= old(self).channels().remove(channel_id));
        }
        Ok(())
    }

    /// Closes a channel on the recipient's claim of `amount`, an unsigned
    /// number written least significant byte first, with the signature of the
    /// channel's key over those bytes.
    pub fn close_channel<E: Escrow>(
        &mut self,
        escrow: &mut E,
        caller: AccountId,
        channel_id: u32,
        amount: &[u8],
        signature: &[u8],
    ) -> (closed: Result<(), ChannelError>)
        requires
            old(self).wf(),
            old(escrow).wf(),
        ensures
            final(self).wf(),
            final(escrow).wf(),
            old(self).precedes(final(self)),
            closed == close_verdict(
                old(self).channels(),
                |w: AccountId| old(escrow).reserved(w),
                caller,
                channel_id,
                amount@,
                old(self).channels().contains_key(channel_id) && signature_verifies(
                    signature@,
                    amount@,
                    old(self).channels()[channel_id].signing_key,
                ),
            ),
            final(self).next_free_id() == old(self).next_free_id(),
            final(self).events() == old(self).events(),
            closed is Err ==> {
                &&& same_balances(old(escrow), final(escrow))
                &&& final(self).channels() == old(self).channels()
            },
            closed is Ok ==> {
                &&& settled(old(escrow), final(escrow), old(self).channels()[channel_id], le_value(amount@))
                &&& final(self).channels() == old(self).channels().remove(channel_id)
            },
    {
        let signature_valid = match self.channels.get(&channel_id) {
            Some(c) => is_signed(c.signing_key.as_slice(), amount, signature),
            None => false,
        };
        self.close_channel_with(escrow, caller, channel_id, amount, signature_valid)
    }
}

} // verus!

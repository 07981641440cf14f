//! The rotating-trusted failure detector of one broker.
//!
//! Every broker trusts the broker with the lowest id that it has heard of lately,
//! starting with broker 0. The trusted broker tells the brokers above it that it is
//! alive; a broker that hears nothing from the one it trusts for a whole waiting time
//! moves its trust to the next id. A broker that hears from a lower id than the one it
//! trusts moves its trust back and waits a second longer for that broker from then on.
//!
//! The detector does no waiting and no sending of its own: each round says how long
//! to wait and what to send, and its caller does both.

use crate::communication::{Action, ActionMessage, ActionMessageView, ActionView};
use crate::wire::texts;
use vstd::prelude::*;

verus! {

/// Seconds that a broker waits for a peer before it has heard of it twice.
pub const INITIAL_WAIT: u64 = 10;

/// Seconds between two heartbeats of the trusted broker.
pub const HEARTBEAT_WAIT: u64 = 1;

/// Requests to send to one peer over a connection of their own, in order.
#[derive(Debug, PartialEq, Eq)]
pub struct Outbound {
    pub address: String,
    pub messages: Vec<ActionMessage>,
}

/// An `Outbound` over character sequences.
pub struct OutboundView {
    pub address: Seq<char>,
    pub messages: Seq<ActionMessageView>,
}

impl View for Outbound {
    type V = OutboundView;

    open spec fn view(&self) -> OutboundView {
        OutboundView {
            address: self.address@,
            messages: self.messages@.map_values(|message: ActionMessage| message@),
        }
    }
}

/// The deliveries of `list`, over character sequences.
pub open spec fn deliveries(list: Seq<Outbound>) -> Seq<OutboundView> {
    list.map_values(|outbound: Outbound| outbound@)
}

/// The delivery of one request to `address`: the request, then `Quit`, both without
/// a consumer id.
pub open spec fn one_shot(address: Seq<char>, action: ActionView) -> OutboundView {
    OutboundView {
        address,
        messages: seq![
            ActionMessageView { action, consumer_id: Seq::empty() },
            ActionMessageView { action: ActionView::Quit, consumer_id: Seq::empty() },
        ],
    }
}

/// What a failure detector knows.
pub struct DetectorState {
    /// The id of the broker that runs the detector.
    pub id: u32,
    /// The id of the broker that it trusts.
    pub trusted: u32,
    /// Whether the trusted broker has been heard of since the last round.
    pub received: bool,
    /// The addresses of all brokers, by id.
    pub brokers: Seq<Seq<char>>,
    /// The seconds to wait for each broker, by id.
    pub durations: Seq<u64>,
}

impl DetectorState {
    /// The broker is one of the brokers, each broker has a waiting time, and the
    /// trusted id is not above the broker's own.
    pub open spec fn valid(self) -> bool {
        &&& self.id < self.brokers.len()
        &&& self.durations.len() == self.brokers.len()
        &&& self.trusted <= self.id
    }

    /// The state of a new detector: it trusts broker 0, counts it as heard of, and
    /// waits the initial time for every broker.
    pub open spec fn initial(id: u32, brokers: Seq<Seq<char>>) -> DetectorState {
        DetectorState {
            id,
            trusted: 0,
            received: true,
            brokers,
            durations: Seq::new(brokers.len(), |i: int| INITIAL_WAIT),
        }
    }

    /// The state after one round. A broker that trusts a lower id forgets that it
    /// has heard of it, or, where it has not, trusts the next id.
    pub open spec fn after_round(self) -> DetectorState {
        if self.trusted < self.id {
            if self.received {
                DetectorState { received: false, ..self }
            } else {
                DetectorState { trusted: (self.trusted + 1) as u32, ..self }
            }
        } else {
            self
        }
    }

    /// The seconds to wait after one round: the heartbeat interval for the trusted
    /// broker itself, else the waiting time of the broker that is trusted once the
    /// round is over.
    pub open spec fn wait_after_round(self) -> u64 {
        if self.trusted == self.id {
            HEARTBEAT_WAIT
        } else if self.trusted < self.id {
            self.durations[self.after_round().trusted as int]
        } else {
            INITIAL_WAIT
        }
    }

    /// What one round sends: where the broker trusts itself, `IamAlive` with its id
    /// to every broker with a higher id, lowest first.
    pub open spec fn heartbeats(self) -> Seq<OutboundView> {
        if self.trusted == self.id {
            Seq::new(
                (self.brokers.len() - self.id - 1) as nat,
                |i: int| one_shot(self.brokers[self.id + 1 + i], ActionView::IamAlive(self.id)),
            )
        } else {
            Seq::empty()
        }
    }

    /// The state after `IamAlive` from `sender`. From the trusted broker it counts as
    /// heard of. From a lower id the trust moves to that id, which counts as heard of
    /// and gets a second more of waiting time, up to the most that fits. From a
    /// higher id it changes nothing.
    pub open spec fn after_signal(self, sender: u32) -> DetectorState {
        if sender == self.trusted {
            DetectorState { received: true, ..self }
        } else if sender < self.trusted {
            DetectorState {
                trusted: sender,
                received: true,
                durations: self.durations.update(
                    sender as int,
                    one_more(self.durations[sender as int]),
                ),
                ..self
            }
        } else {
            self
        }
    }
}

/// The state after `rounds` rounds in which no `IamAlive` comes in.
pub open spec fn after_rounds(state: DetectorState, rounds: nat) -> DetectorState
    decreases rounds,
{
    if rounds == 0 {
        state
    } else {
        after_rounds(state, (rounds - 1) as nat).after_round()
    }
}

/// A round keeps a valid state valid, and it leaves the trusted id as it is or moves
/// it up by one. Nothing else changes but the note that the trusted broker was heard
/// of.
pub proof fn lemma_round_step(state: DetectorState)
    requires
        state.valid(),
    ensures
        state.after_round().valid(),
        state.after_round().trusted == state.trusted || state.after_round().trusted
            == state.trusted + 1,
        state.after_round().trusted > state.trusted ==> !state.received,
        state.after_round().id == state.id,
        state.after_round().brokers == state.brokers,
        state.after_round().durations == state.durations,
{
}

/// Without `IamAlive` the trusted id never goes down: after any number of rounds it
/// is at least what it was, at most one higher for each round, and never above the
/// broker's own id.
pub proof fn lemma_trust_only_rises(state: DetectorState, rounds: nat)
    requires
        state.valid(),
    ensures
        after_rounds(state, rounds).valid(),
        state.trusted <= after_rounds(state, rounds).trusted <= state.trusted + rounds,
        after_rounds(state, rounds).id == state.id,
        after_rounds(state, rounds).trusted <= state.id,
        after_rounds(state, rounds).durations == state.durations,
    decreases rounds,
{
    if rounds > 0 {
        lemma_trust_only_rises(state, (rounds - 1) as nat);
        lemma_round_step(after_rounds(state, (rounds - 1) as nat));
    }
}

/// A broker that trusts a lower id and hears nothing of it trusts the next id after
/// two rounds at the latest: the first may still find the note of an earlier
/// `IamAlive`, the second finds none.
pub proof fn lemma_silence_is_noticed(state: DetectorState)
    requires
        state.valid(),
        state.trusted < state.id,
    ensures
        !state.received ==> state.after_round().trusted == state.trusted + 1,
        state.received ==> state.after_round().trusted == state.trusted
            && state.after_round().after_round().trusted == state.trusted + 1,
{
}

/// `IamAlive` from a broker below the trusted one moves the trust to that broker,
/// counts it as heard of, and makes its waiting time one second longer; the waiting
/// times of the others stay. `IamAlive` never moves the trust up.
pub proof fn lemma_signal_from_below(state: DetectorState, sender: u32)
    requires
        state.valid(),
    ensures
        state.after_signal(sender).valid(),
        state.after_signal(sender).trusted <= state.trusted,
        sender < state.trusted ==> {
            &&& state.after_signal(sender).trusted == sender
            &&& state.after_signal(sender).received
            &&& state.after_signal(sender).durations[sender as int] == one_more(
                state.durations[sender as int],
            )
            &&& forall|peer: int|
                0 <= peer < state.durations.len() && peer != sender ==> state.after_signal(
                    sender,
                ).durations[peer] == state.durations[peer]
        },
        sender == state.trusted ==> state.after_signal(sender) == (DetectorState {
            received: true,
            ..state
        }),
        sender > state.trusted ==> state.after_signal(sender) == state,
{
}

/// One second more than `seconds`, or `seconds` where that is the most there is.
pub open spec fn one_more(seconds: u64) -> u64 {
    if seconds < u64::MAX {
        (seconds + 1) as u64
    } else {
        seconds
    }
}

/// What a round of the detector asks of its caller.
#[derive(Debug, PartialEq, Eq)]
pub struct Round {
    /// Seconds to wait before the next round.
    pub wait: u64,
    /// What to send before waiting.
    pub outbound: Vec<Outbound>,
}

/// The failure detector of one broker.
pub struct FailureDetector {
    id: u32,
    trusted: u32,
    received: bool,
    brokers: Vec<String>,
    durations: Vec<u64>,
}

impl View for FailureDetector {
    type V = DetectorState;

    closed spec fn view(&self) -> DetectorState {
        DetectorState {
            id: self.id,
            trusted: self.trusted,
            received: self.received,
            brokers: texts(self.brokers@),
            durations: self.durations@,
        }
    }
}

impl FailureDetector {
    #[verifier::type_invariant]
    spec fn well_formed(&self) -> bool {
        self@.valid()
    }

    /// The detector of broker `id` among `brokers`.
    pub fn new(id: u32, brokers: Vec<String>) -> (detector: FailureDetector)
        requires
            id < brokers@.len(),
        ensures
            detector@ == DetectorState::initial(id, texts(brokers@)),
            detector@.valid(),
    {
        let mut durations: Vec<u64> = Vec::new();
        let mut i: usize = 0;
        while i < brokers.len()
            invariant
                i <= brokers.len(),
                durations@ == Seq::new(i as nat, |k: int| INITIAL_WAIT),
            decreases brokers.len() - i,
        {
            durations.push(INITIAL_WAIT);
            i += 1;
        }
        FailureDetector { id, trusted: 0, received: true, brokers, durations }
    }

    /// Recalls what holds of every detector. There is nothing to run.
    pub(crate) fn validity(&self)
        ensures
            self@.valid(),
    {
        proof {
            use_type_invariant(self);
        }
    }

    /// The id of the broker that runs the detector.
    pub fn id(&self) -> (id: u32)
        ensures
            id == self@.id,
    {
        self.id
    }

    /// The id of the broker that the detector trusts.
    pub fn trusted(&self) -> (trusted: u32)
        ensures
            trusted == self@.trusted,
    {
        self.trusted
    }

    /// Whether the trusted broker has been heard of since the last round.
    pub fn received(&self) -> (received: bool)
        ensures
            received == self@.received,
    {
        self.received
    }

    /// The seconds that the detector waits for broker `peer`, where there is such a
    /// broker.
    pub fn duration(&self, peer: u32) -> (seconds: Option<u64>)
        ensures
            seconds == (if peer < self@.durations.len() {
                Some(self@.durations[peer as int])
            } else {
                None
            }),
    {
        if (peer as usize) < self.durations.len() {
            Some(self.durations[peer as usize])
        } else {
            None
        }
    }

    /// One round of the detector: what to send, how long to wait, and the state after
    /// it.
    pub fn run_loop(&mut self) -> (round: Round)
        ensures
            final(self)@ == old(self)@.after_round(),
            final(self)@.valid(),
            round.wait == old(self)@.wait_after_round(),
            deliveries(round.outbound@) == old(self)@.heartbeats(),
    {
        proof {
            use_type_invariant(&*self);
        }
        if self.trusted == self.id {
            let outbound = self.send_messages();
            return Round { wait: HEARTBEAT_WAIT, outbound };
        } else if self.trusted < self.id {
            self.check_received_message();
            let outbound: Vec<Outbound> = Vec::new();
            return Round { wait: self.durations[self.trusted as usize], outbound };
        }
        let outbound: Vec<Outbound> = Vec::new();
        Round { wait: INITIAL_WAIT, outbound }
    }

    /// The heartbeats of one round: `IamAlive`, then `Quit`, for every broker with a
    /// higher id.
    fn send_messages(&self) -> (outbound: Vec<Outbound>)
        requires
            self@.trusted == self@.id,
        ensures
            deliveries(outbound@) == self@.heartbeats(),
    {
        proof {
            use_type_invariant(self);
        }
        let mut outbound: Vec<Outbound> = Vec::new();
        let count: usize = self.brokers.len();
        let first: usize = self.id as usize + 1;
        let mut i: usize = first;
        while i < count
            invariant
                first == self.id + 1,
                count == self.brokers.len(),
                first <= i <= count,
                outbound.len() == i - first,
                forall|k: int|
                    0 <= k < outbound.len() ==> (#[trigger] outbound[k])@ == one_shot(
                        self.brokers[first + k]@,
                        ActionView::IamAlive(self.id),
                    ),
            decreases count - i,
        {
            let mut messages: Vec<ActionMessage> = Vec::new();
            messages.push(ActionMessage::new(Action::IamAlive(self.id), String::new()));
            messages.push(ActionMessage::new(Action::Quit, String::new()));
            let delivery = Outbound { address: self.brokers[i].clone(), messages };
            assert(delivery@.messages =~= one_shot(
                self.brokers[i as int]@,
                ActionView::IamAlive(self.id),
            ).messages);
            outbound.push(delivery);
            i += 1;
        }
        outbound
    }

    /// Forgets that the trusted broker was heard of, or trusts the next broker where
    /// it was not.
    fn check_received_message(&mut self)
        requires
            old(self)@.trusted < old(self)@.id,
        ensures
            final(self)@ == old(self)@.after_round(),
    {
        proof {
            use_type_invariant(&*self);
        }
        if self.received {
            self.received = false;
        } else {
            self.trusted += 1;
        }
    }

    /// Takes note of `IamAlive` from broker `id`.
    pub fn receive_signal(&mut self, id: u32)
        ensures
            final(self)@ == old(self)@.after_signal(id),
            final(self)@.valid(),
    {
        proof {
            use_type_invariant(&*self);
        }
        if id == self.trusted {
            self.received = true;
        } else if id < self.trusted {
            let duration: u64 = self.durations[id as usize];
            if duration < u64::MAX {
                self.durations[id as usize] = duration + 1;
            }
            self.trusted = id;
            self.received = true;
            assert(self@.durations =~= old(self)@.after_signal(id).durations);
        }
    }
}

} // verus!

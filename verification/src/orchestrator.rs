//! The publish/discovery orchestrator: the decisions the node takes on each
//! event the overlay surfaces, as a verified state machine. The surrounding
//! runtime performs the returned actions and hands the next event back.

use vstd::prelude::*;
use crate::record::{DHTKey, DHTValue};

verus! {

/// A discovered peer: its identifier and its network address, as raw bytes.
#[derive(Clone, PartialEq, Eq, Debug)]
pub struct PeerContact {
    pub peer: Vec<u8>,
    pub address: Vec<u8>,
}

/// A key/value record as the overlay hands it back.
#[derive(Clone, PartialEq, Eq, Debug)]
pub struct RecordPair {
    pub key: Vec<u8>,
    pub value: Vec<u8>,
}

/// The outcome of a completed overlay query.
#[derive(PartialEq, Eq, Debug)]
pub enum QueryOutcome {
    /// Providers were found for a key.
    ProvidersFound { key: Vec<u8>, providers: Vec<Vec<u8>> },
    /// Records were found.
    RecordsFound { records: Vec<RecordPair> },
    /// A record was stored under the key.
    PutConfirmed { key: Vec<u8> },
    /// The key is now advertised as locally provided.
    ProvideConfirmed { key: Vec<u8> },
    /// Any other outcome, error variants included: diagnostic only.
    Other,
}

/// An event of the overlay protocol itself.
#[derive(PartialEq, Eq, Debug)]
pub enum OverlayEvent {
    /// An outbound query completed with the given outcome.
    QueryCompleted { outcome: QueryOutcome },
    /// Any other overlay event: ignored.
    Other,
}

/// What the node reports about a query outcome.
#[derive(PartialEq, Eq, Debug)]
pub enum Report {
    /// The peers that provide a key.
    Providers { key: Vec<u8>, peers: Vec<Vec<u8>> },
    /// The records a lookup returned, as raw key and value bytes.
    Records { records: Vec<RecordPair> },
    /// A record was stored under the key.
    PutOk { key: Vec<u8> },
    /// The key is now advertised as locally provided.
    ProvideOk { key: Vec<u8> },
    /// A diagnostic note about any other outcome.
    Other,
}

/// An input the runtime hands to the orchestrator.
#[derive(PartialEq, Eq, Debug)]
pub enum SwarmInput {
    /// The node was bound to a listen address.
    ListenAddressBound { address: Vec<u8> },
    /// Local-network discovery surfaced a set of peers.
    PeersDiscovered { peers: Vec<PeerContact> },
    /// The overlay reported an event; the runtime also hands over a snapshot
    /// of the local record cache for the diagnostic report that follows.
    Overlay { event: OverlayEvent, local_records: Vec<RecordPair> },
}

/// An action the runtime must perform on the orchestrator's behalf.
#[derive(PartialEq, Eq, Debug)]
pub enum Action {
    /// Report the bound listen address.
    ReportListenAddress { address: Vec<u8> },
    /// Register a discovered peer's address with the overlay routing table.
    RegisterPeerAddress { peer: Vec<u8>, address: Vec<u8> },
    /// Publish the node's record to the overlay; one acknowledgement suffices.
    PublishRecord { key: Vec<u8>, value: Vec<u8> },
    /// Emit a report about a query outcome.
    Emit { report: Report },
    /// Report the local record cache: its size and its contents.
    ReportCache { records: Vec<RecordPair> },
}

/// The phases of a running node.
#[derive(Clone, Copy, PartialEq, Eq, Structural, Debug)]
pub enum Phase {
    Starting,
    Listening,
    Active,
}

/// The report a query outcome gives rise to.
pub open spec fn query_report(result: QueryOutcome) -> Report {
    match result {
        QueryOutcome::ProvidersFound { key, providers } => Report::Providers {
            key,
            peers: providers,
        },
        QueryOutcome::RecordsFound { records } => Report::Records { records },
        QueryOutcome::PutConfirmed { key } => Report::PutOk { key },
        QueryOutcome::ProvideConfirmed { key } => Report::ProvideOk { key },
        QueryOutcome::Other => Report::Other,
    }
}

/// The report an overlay event gives rise to, if any: only a completed query
/// is reported, every other overlay event is ignored.
pub open spec fn overlay_report(event: OverlayEvent) -> Option<Report> {
    match event {
        OverlayEvent::QueryCompleted { outcome } => Some(query_report(outcome)),
        OverlayEvent::Other => None,
    }
}

/// The phase an input moves the node to: discovering peers makes it active,
/// nothing else changes the phase.
pub open spec fn step_phase(phase: Phase, input: SwarmInput) -> Phase {
    match input {
        SwarmInput::PeersDiscovered { .. } => Phase::Active,
        _ => phase,
    }
}

/// Dispatches a completed query's outcome to the report it calls for.
pub fn handle_query_result(result: QueryOutcome) -> (r: Report)
    ensures
        r == query_report(result),
{
    match result {
        QueryOutcome::ProvidersFound { key, providers } => Report::Providers {
            key,
            peers: providers,
        },
        QueryOutcome::RecordsFound { records } => Report::Records { records },
        QueryOutcome::PutConfirmed { key } => Report::PutOk { key },
        QueryOutcome::ProvideConfirmed { key } => Report::ProvideOk { key },
        QueryOutcome::Other => Report::Other,
    }
}

/// Dispatches an overlay event: a completed query is reported, any other
/// event is passed over in silence.
pub fn handle_kademlia_events(event: OverlayEvent) -> (r: Option<Report>)
    ensures
        r == overlay_report(event),
{
    match event {
        OverlayEvent::QueryCompleted { outcome } => Some(handle_query_result(outcome)),
        OverlayEvent::Other => None,
    }
}

/// A byte-for-byte copy.
fn copy_bytes(v: &Vec<u8>) -> (r: Vec<u8>)
    ensures
        r@ == v@,
{
    let mut r: Vec<u8> = Vec::new();
    let n = v.len();
    let mut i: usize = 0;
    while i < n
        invariant
            i <= n,
            n == v@.len(),
            r@ =~= v@.subrange(0, i as int),
        decreases n - i,
    {
        r.push(v[i]);
        i = i + 1;
    }
    proof {
        assert(r@ =~= v@);
    }
    r
}

/// The orchestrator: the node's phase and its current record, held as the
/// encoded key and value bytes it publishes.
pub struct Orchestrator {
    pub phase: Phase,
    pub record_key: Vec<u8>,
    pub record_value: Vec<u8>,
}

impl Orchestrator {
    /// A node in its starting phase, holding the record it will publish.
    pub fn new(key: &DHTKey, value: &DHTValue) -> (s: Orchestrator)
        ensures
            s.phase == Phase::Starting,
            s.record_key@ == key.enc(),
            s.record_value@ == value.enc(),
    {
        Orchestrator { phase: Phase::Starting, record_key: key.to_bytes(), record_value: value.to_bytes() }
    }

    /// Marks the node listening, once the transport accepted its address.
    pub fn listening_started(&mut self)
        requires
            old(self).phase == Phase::Starting,
        ensures
            final(self).phase == Phase::Listening,
            final(self).record_key == old(self).record_key,
            final(self).record_value == old(self).record_value,
    {
        self.phase = Phase::Listening;
    }

    /// Whether a rejected publish must stop the node: only during setup; once
    /// the event loop runs, a failed publish is reported and the loop goes on.
    pub fn publish_failure_fatal(&self) -> (fatal: bool)
        ensures
            fatal <==> self.phase == Phase::Starting,
    {
        match self.phase {
            Phase::Starting => true,
            _ => false,
        }
    }

    /// Reacts to one input: registers each discovered peer and publishes the
    /// node's record exactly once, reports a completed query and the local
    /// cache, and reports a bound listen address.
    pub fn step(&mut self, input: SwarmInput) -> (actions: Vec<Action>)
        ensures
            final(self).phase == step_phase(old(self).phase, input),
            final(self).record_key == old(self).record_key,
            final(self).record_value == old(self).record_value,
            (input matches SwarmInput::ListenAddressBound { address } ==> actions@ =~= seq![
                (Action::ReportListenAddress { address }),
            ]),
            (input matches SwarmInput::PeersDiscovered { peers } ==> actions@.len() == peers@.len()
                + 1 && (forall|j: int|
                0 <= j < peers@.len() ==> actions@[j] == (Action::RegisterPeerAddress {
                    peer: peers@[j].peer,
                    address: peers@[j].address,
                })) && (actions@[peers@.len() as int] matches Action::PublishRecord { key, value }
                && key@ == old(self).record_key@ && value@ == old(self).record_value@)),
            (input matches SwarmInput::Overlay { event, local_records } ==> ({
                let rep = overlay_report(event);
                match rep {
                    Some(report) => actions@ =~= seq![
                        (Action::Emit { report }),
                        (Action::ReportCache { records: local_records }),
                    ],
                    None => actions@ =~= seq![(Action::ReportCache { records: local_records })],
                }
            })),
    {
        match input {
            SwarmInput::ListenAddressBound { address } => {
                let mut actions: Vec<Action> = Vec::new();
                actions.push(Action::ReportListenAddress { address });
                actions
            },
            SwarmInput::PeersDiscovered { mut peers } => {
                self.phase = Phase::Active;
                let ghost orig = peers@;
                let mut actions: Vec<Action> = Vec::new();
                while peers.len() > 0
                    invariant
                        peers@ =~= orig.subrange(actions@.len() as int, orig.len() as int),
                        actions@.len() <= orig.len(),
                        forall|j: int|
                            0 <= j < actions@.len() ==> actions@[j]
                                == (Action::RegisterPeerAddress {
                                peer: orig[j].peer,
                                address: orig[j].address,
                            }),
                    decreases peers@.len(),
                {
                    let ghost k = actions@.len();
                    let p = peers.remove(0);
                    proof {
                        assert(p == orig[k as int]);
                        assert(peers@ =~= orig.subrange(k as int + 1, orig.len() as int));
                    }
                    actions.push(Action::RegisterPeerAddress { peer: p.peer, address: p.address });
                }
                let key = copy_bytes(&self.record_key);
                let value = copy_bytes(&self.record_value);
                actions.push(Action::PublishRecord { key, value });
                actions
            },
            SwarmInput::Overlay { event, local_records } => {
                let mut actions: Vec<Action> = Vec::new();
                match handle_kademlia_events(event) {
                    Some(report) => actions.push(Action::Emit { report }),
                    None => (),
                }
                actions.push(Action::ReportCache { records: local_records });
                actions
            },
        }
    }
}

/// How many publish actions a plan holds.
pub open spec fn publish_count(actions: Seq<Action>) -> int
    decreases actions.len(),
{
    if actions.len() == 0 {
        0
    } else {
        publish_count(actions.drop_last()) + if actions.last() is PublishRecord {
            1int
        } else {
            0int
        }
    }
}

proof fn lemma_no_publish(s: Seq<Action>)
    requires
        forall|i: int| 0 <= i < s.len() ==> !(s[i] is PublishRecord),
    ensures
        publish_count(s) == 0,
    decreases s.len(),
{
    if s.len() > 0 {
        lemma_no_publish(s.drop_last());
    }
}

/// On a peers-discovered input the record is published exactly once, however
/// many peers were discovered: one registration per peer, then one publish.
pub proof fn lemma_publishes_once(actions: Seq<Action>, peers: Seq<PeerContact>)
    requires
        actions.len() == peers.len() + 1,
        forall|j: int|
            0 <= j < peers.len() ==> actions[j] == (Action::RegisterPeerAddress {
                peer: peers[j].peer,
                address: peers[j].address,
            }),
        actions[peers.len() as int] is PublishRecord,
    ensures
        publish_count(actions) == 1,
{
    lemma_no_publish(actions.drop_last());
}

/// An overlay event, the diagnostic outcome included, never moves the node's
/// phase: the event loop goes on with the next input unchanged.
pub proof fn lemma_overlay_keeps_phase(phase: Phase, event: OverlayEvent, local_records: Vec<
    RecordPair,
>)
    ensures
        step_phase(phase, SwarmInput::Overlay { event, local_records }) == phase,
{
}

} // verus!

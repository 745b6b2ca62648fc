//! The sentinel takes in the copies of messages one by one and says after each what is to be
//! done next. It does no work of its surroundings itself: where a key is to be fetched, the
//! payloads of key responses are to be decoded or account records are to be merged, it hands
//! out a step that asks for it, and goes on when the outcome is handed back.
//!
//! `add` takes a message in. After `Step::DecodeKeys`, `keys_decoded` goes on with what the key
//! responses announce; after `Step::MergeRecords`, `records_merged` goes on with the merged
//! record. `Step::Resolved` holds a message that enough senders stand behind.

use vstd::prelude::*;
use crate::accumulator::{law_quorum_gating, recorded, Accumulator, AccumulatorView};
use crate::message_header::{MessageHeader, MessageHeaderView};
use crate::messages::get_client_key_response::GetClientKeyResponse;
use crate::resolver::{conclude_merge, merged_message, resolved, Resolution, ResolutionView};
use crate::response::{
    lemma_bytes_view, Name, NameView, Response, ResponseView, ResultType, ResultView,
};
use crate::types::{
    GroupAddress, MessageTypeTag, NodeAddress, SerialisedMessage, ACCUMULATOR_CAPACITY, QUORUM_SIZE,
};
use crate::validator::{validated_group, validated_node, Claims};

verus! {

/// Copies a byte slice into a vector.
pub fn array_as_vector(arr: &[u8]) -> (vector: Vec<u8>)
    ensures
        vector@ == arr@,
{
    let mut vector: Vec<u8> = Vec::new();
    let mut i: usize = 0;
    while i < arr.len()
        invariant
            i <= arr.len(),
            vector@ == arr@.take(i as int),
        decreases arr.len() - i,
    {
        vector.push(arr[i]);
        assert(arr@.take(i as int + 1) =~= arr@.take(i as int).push(arr@[i as int]));
        i += 1;
    }
    assert(arr@.take(arr.len() as int) =~= arr@);
    vector
}

/// The messages that are held under one name, together with the key responses by which they
/// are to be judged.
#[derive(Debug)]
pub struct Ballot {
    pub from_group: bool,
    pub name: Name,
    pub messages: Vec<Response>,
    pub keys: Vec<Response>,
}

/// A ballot as mathematical values.
pub struct BallotView {
    pub from_group: bool,
    pub name: NameView,
    pub messages: Seq<ResponseView>,
    pub keys: Seq<ResponseView>,
}

impl View for Ballot {
    type V = BallotView;

    open spec fn view(&self) -> BallotView {
        BallotView {
            from_group: self.from_group,
            name: self.name.deep_view(),
            messages: self.messages.deep_view(),
            keys: self.keys.deep_view(),
        }
    }
}

/// The verified account transfers of one name, whose records are to be merged.
#[derive(Debug)]
pub struct MergeTask {
    pub from_group: bool,
    pub name: Name,
    pub verified: Vec<ResultType>,
}

/// A merge task as mathematical values.
pub struct MergeTaskView {
    pub from_group: bool,
    pub name: NameView,
    pub verified: Seq<ResultView>,
}

impl View for MergeTask {
    type V = MergeTaskView;

    open spec fn view(&self) -> MergeTaskView {
        MergeTaskView {
            from_group: self.from_group,
            name: self.name.deep_view(),
            verified: self.verified.deep_view(),
        }
    }
}

/// What the sentinel asks of its surroundings after it has taken something in.
#[derive(Debug)]
pub enum Step {
    /// Nothing: more has to arrive.
    Idle,
    /// Ask for the public key of this node. The answer comes in as key responses.
    RequestClientKey(NodeAddress),
    /// Ask for the public key of this group. The answer comes in as key responses.
    RequestGroupKey(GroupAddress),
    /// Decode the payloads of the key responses of this ballot, and hand them back with it.
    DecodeKeys(Ballot),
    /// Merge the records in the payloads of these messages, and hand the merged record back.
    MergeRecords(MergeTask),
    /// This message is resolved: pass it on.
    Resolved(ResultType),
}

/// A step as mathematical values.
pub enum StepView {
    Idle,
    RequestClientKey(Seq<u8>),
    RequestGroupKey(Seq<u8>),
    DecodeKeys(BallotView),
    MergeRecords(MergeTaskView),
    Resolved(ResultView),
}

impl View for Step {
    type V = StepView;

    open spec fn view(&self) -> StepView {
        match self {
            Step::Idle => StepView::Idle,
            Step::RequestClientKey(address) => StepView::RequestClientKey(address@),
            Step::RequestGroupKey(address) => StepView::RequestGroupKey(address@),
            Step::DecodeKeys(ballot) => StepView::DecodeKeys(ballot@),
            Step::MergeRecords(task) => StepView::MergeRecords(task@),
            Step::Resolved(message) => StepView::Resolved(message.deep_view()),
        }
    }
}

/// The address that a message claims to come from: that of its group where it names one, else
/// that of its node.
pub open spec fn claimed_origin(header: MessageHeaderView) -> Seq<u8> {
    match header.from_group {
        Some(group) => group,
        None => header.from_node,
    }
}

/// The name under which the copies of a message are collected: the address that it claims to
/// come from, and its identifier.
pub open spec fn message_name(header: MessageHeaderView) -> NameView {
    (claimed_origin(header), Some(header.message_id))
}

/// A sentinel as mathematical values: its quorum and its four accumulators.
pub struct SentinelView {
    pub quorum: nat,
    pub node: AccumulatorView,
    pub group: AccumulatorView,
    pub group_key: AccumulatorView,
    pub node_key: AccumulatorView,
}

/// Decides, for messages that arrive in many copies from many senders, when enough senders
/// stand behind a message to pass it on. It collects the messages of nodes and of groups, and
/// the responses that announce their public keys, each in an accumulator of its own.
pub struct Sentinel {
    quorum: usize,
    node_accumulator: Accumulator,
    group_accumulator: Accumulator,
    group_key_accumulator: Accumulator,
    node_key_accumulator: Accumulator,
}

impl View for Sentinel {
    type V = SentinelView;

    closed spec fn view(&self) -> SentinelView {
        SentinelView {
            quorum: self.quorum as nat,
            node: self.node_accumulator@,
            group: self.group_accumulator@,
            group_key: self.group_key_accumulator@,
            node_key: self.node_key_accumulator@,
        }
    }
}

impl SentinelView {
    /// What holds of every sentinel: its accumulators are well formed and report at its quorum.
    pub open spec fn well_formed(self) -> bool {
        &&& self.node.well_formed()
        &&& self.group.well_formed()
        &&& self.group_key.well_formed()
        &&& self.node_key.well_formed()
        &&& self.node.quorum == self.quorum
        &&& self.group.quorum == self.quorum
        &&& self.group_key.quorum == self.quorum
        &&& self.node_key.quorum == self.quorum
    }

    /// A sentinel that has seen nothing yet.
    pub open spec fn empty(quorum: nat, capacity: nat) -> SentinelView {
        let accumulator = AccumulatorView { quorum, capacity, entries: Seq::empty() };
        SentinelView {
            quorum,
            node: accumulator,
            group: accumulator,
            group_key: accumulator,
            node_key: accumulator,
        }
    }

    /// The accumulator of the messages of groups, or of those of nodes.
    pub open spec fn messages(self, from_group: bool) -> AccumulatorView {
        if from_group {
            self.group
        } else {
            self.node
        }
    }

    /// The accumulator of the key responses for groups, or of those for nodes.
    pub open spec fn keys(self, from_group: bool) -> AccumulatorView {
        if from_group {
            self.group_key
        } else {
            self.node_key
        }
    }

    /// The sentinel with another accumulator of messages.
    pub open spec fn with_messages(self, from_group: bool, accumulator: AccumulatorView)
        -> SentinelView {
        if from_group {
            SentinelView { group: accumulator, ..self }
        } else {
            SentinelView { node: accumulator, ..self }
        }
    }

    /// The sentinel with another accumulator of key responses.
    pub open spec fn with_keys(self, from_group: bool, accumulator: AccumulatorView)
        -> SentinelView {
        if from_group {
            SentinelView { group_key: accumulator, ..self }
        } else {
            SentinelView { node_key: accumulator, ..self }
        }
    }

    /// The sentinel after the messages under `name` have been resolved: they are forgotten.
    pub open spec fn after_resolution(self, from_group: bool, name: NameView) -> SentinelView {
        self.with_messages(from_group, self.messages(from_group).after_delete(name))
    }

    /// What becomes of the verified messages of `name`: where they resolve to one message, it
    /// is passed on and the name is forgotten; where they are account transfers, their merge
    /// is asked for; else nothing happens.
    pub open spec fn concluded(self, from_group: bool, name: NameView, verified: Seq<ResultView>)
        -> (SentinelView, StepView) {
        match resolved(verified, self.quorum) {
            ResolutionView::Unresolved => (self, StepView::Idle),
            ResolutionView::Exact(message) => (
                self.after_resolution(from_group, name),
                StepView::Resolved(message),
            ),
            ResolutionView::Merge(all) => (
                self,
                StepView::MergeRecords(MergeTaskView { from_group, name, verified: all }),
            ),
        }
    }

    /// The sentinel after a key response, and what it asks for. A response that names no group
    /// is dropped. Else it is collected under the group's address; when the responses reach
    /// the quorum, and the name made of the group's address and the identifier of the response
    /// is held, with whatever messages, the two make a ballot, of which the key responses are
    /// to be decoded.
    pub open spec fn after_key_response(self, for_group: bool, envelope: ResultView) -> (
        SentinelView,
        StepView,
    ) {
        let header = envelope.0;
        match header.from_group {
            None => (self, StepView::Idle),
            Some(group) => {
                let key_name = (group, None::<u32>);
                let name = (group, Some(header.message_id));
                let report = self.keys(for_group).add_report(key_name, envelope, header.from_node);
                let collected = self.with_keys(
                    for_group,
                    self.keys(for_group).after_add(key_name, envelope, header.from_node),
                );
                match report {
                    None => (collected, StepView::Idle),
                    Some(keys) => {
                        let looked = collected.with_messages(
                            for_group,
                            collected.messages(for_group).after_lookup(name),
                        );
                        match collected.messages(for_group).found(name) {
                            None => (looked, StepView::Idle),
                            Some(messages) => (
                                looked,
                                StepView::DecodeKeys(
                                    BallotView {
                                        from_group: for_group,
                                        name,
                                        messages: messages.1,
                                        keys: keys.1,
                                    },
                                ),
                            ),
                        }
                    },
                }
            },
        }
    }

    /// The sentinel after a message that is no key response, and what it asks for. The first
    /// message under a name is not kept: the name is noted, and the key of its sender is
    /// asked for. Every later one is collected; when the messages reach the quorum, and key
    /// responses are held for the sender's address, however many, the two make a ballot, of
    /// which the key responses are to be decoded.
    pub open spec fn after_message(self, envelope: ResultView) -> (SentinelView, StepView) {
        let header = envelope.0;
        let from_group = header.from_group.is_some();
        let address = claimed_origin(header);
        let name = message_name(header);
        let held = self.messages(from_group);
        if !held.has_name(name) {
            (
                self.with_messages(from_group, held.after_expect(name)),
                if from_group {
                    StepView::RequestGroupKey(address)
                } else {
                    StepView::RequestClientKey(address)
                },
            )
        } else {
            let looked = held.after_lookup(name);
            let report = looked.add_report(name, envelope, header.from_node);
            let collected = self.with_messages(
                from_group,
                looked.after_add(name, envelope, header.from_node),
            );
            match report {
                None => (collected, StepView::Idle),
                Some(messages) => {
                    let key_name = (address, None::<u32>);
                    let known = collected.with_keys(
                        from_group,
                        collected.keys(from_group).after_lookup(key_name),
                    );
                    match collected.keys(from_group).found(key_name) {
                        None => (known, StepView::Idle),
                        Some(keys) => (
                            known,
                            StepView::DecodeKeys(
                                BallotView { from_group, name, messages: messages.1, keys: keys.1 },
                            ),
                        ),
                    }
                },
            }
        }
    }

    /// The sentinel after it has taken in a message, and what it asks for.
    pub open spec fn after_envelope(self, envelope: ResultView) -> (SentinelView, StepView) {
        if envelope.1 == MessageTypeTag::GetClientKeyResponse {
            self.after_key_response(false, envelope)
        } else if envelope.1 == MessageTypeTag::GetGroupKeyResponse {
            self.after_key_response(true, envelope)
        } else {
            self.after_message(envelope)
        }
    }

    /// The sentinel after the key responses of a ballot have been decoded, and what it asks
    /// for: the messages of the ballot are validated against the claims, and what is verified
    /// is resolved.
    pub open spec fn after_keys_decoded(self, ballot: BallotView, claims: Claims) -> (
        SentinelView,
        StepView,
    ) {
        self.concluded(
            ballot.from_group,
            ballot.name,
            if ballot.from_group {
                validated_group(ballot.messages, claims, self.quorum)
            } else {
                validated_node(ballot.messages, claims, self.quorum)
            },
        )
    }

    /// The sentinel after the records of a merge task have been merged, and what it asks for:
    /// where there is a merged record, the first message is passed on with it and the name is
    /// forgotten; where there is none, nothing happens.
    pub open spec fn after_records_merged(self, task: MergeTaskView, merged: Option<Seq<u8>>) -> (
        SentinelView,
        StepView,
    ) {
        match merged_message(task.verified, merged) {
            Some(message) => (
                self.after_resolution(task.from_group, task.name),
                StepView::Resolved(message),
            ),
            None => (self, StepView::Idle),
        }
    }
}

impl Sentinel {
    /// A sentinel that has seen nothing yet, with the quorum and the capacity that the network
    /// is run with.
    pub fn new() -> (sentinel: Sentinel)
        ensures
            sentinel@.well_formed(),
            sentinel@ == SentinelView::empty(QUORUM_SIZE as nat, ACCUMULATOR_CAPACITY as nat),
    {
        Sentinel::with_limits(QUORUM_SIZE, ACCUMULATOR_CAPACITY)
    }

    /// A sentinel that has seen nothing yet, which trusts what `quorum` distinct senders stand
    /// behind, and whose accumulators hold `capacity` names each.
    pub fn with_limits(quorum: usize, capacity: usize) -> (sentinel: Sentinel)
        ensures
            sentinel@.well_formed(),
            sentinel@ == SentinelView::empty(quorum as nat, capacity as nat),
    {
        Sentinel {
            quorum,
            node_accumulator: Accumulator::new(quorum, capacity),
            group_accumulator: Accumulator::new(quorum, capacity),
            group_key_accumulator: Accumulator::new(quorum, capacity),
            node_key_accumulator: Accumulator::new(quorum, capacity),
        }
    }

    /// The number of distinct senders that this sentinel asks for.
    pub fn quorum(&self) -> (quorum: usize)
        ensures
            quorum == self@.quorum,
    {
        self.quorum
    }
}

impl Sentinel {
    /// Forgets the messages under `name`, once they are resolved.
    fn forget(&mut self, from_group: bool, name: Name)
        requires
            old(self)@.well_formed(),
        ensures
            final(self)@.well_formed(),
            final(self)@ == old(self)@.after_resolution(from_group, name.deep_view()),
    {
        if from_group {
            self.group_accumulator.delete(name);
        } else {
            self.node_accumulator.delete(name);
        }
    }

    /// Resolves the verified messages of `name` and acts on the outcome.
    fn conclude(&mut self, from_group: bool, name: Name, verified: Vec<ResultType>) -> (step: Step)
        requires
            old(self)@.well_formed(),
        ensures
            final(self)@.well_formed(),
            (final(self)@, step@) == old(self)@.concluded(
                from_group,
                name.deep_view(),
                verified.deep_view(),
            ),
    {
        match self.resolve(verified, from_group) {
            Resolution::Unresolved => Step::Idle,
            Resolution::Exact(message) => {
                self.forget(from_group, name);
                Step::Resolved(message)
            },
            Resolution::Merge(all) => Step::MergeRecords(
                MergeTask { from_group, name, verified: all },
            ),
        }
    }

    /// Takes in a key response.
    fn add_key_response(&mut self, for_group: bool, envelope: ResultType) -> (step: Step)
        requires
            old(self)@.well_formed(),
        ensures
            final(self)@.well_formed(),
            (final(self)@, step@) == old(self)@.after_key_response(for_group, envelope.deep_view()),
    {
        let group = match envelope.0.from_group() {
            None => {
                return Step::Idle;
            },
            Some(group) => group,
        };
        let sender = envelope.0.from_node();
        let name: Name = (group.clone(), Some(envelope.0.message_id()));
        let key_name: Name = (group, None);
        proof {
            lemma_bytes_view(name.0);
            lemma_bytes_view(key_name.0);
        }
        let report = if for_group {
            self.group_key_accumulator.add(key_name, envelope, sender)
        } else {
            self.node_key_accumulator.add(key_name, envelope, sender)
        };
        let keys = match report {
            None => {
                return Step::Idle;
            },
            Some(reported) => reported.1,
        };
        let found = if for_group {
            self.group_accumulator.get(&name)
        } else {
            self.node_accumulator.get(&name)
        };
        match found {
            None => Step::Idle,
            Some(held) => Step::DecodeKeys(
                Ballot { from_group: for_group, name, messages: held.1, keys },
            ),
        }
    }

    /// Takes in a message that is no key response.
    fn add_message(&mut self, envelope: ResultType) -> (step: Step)
        requires
            old(self)@.well_formed(),
        ensures
            final(self)@.well_formed(),
            (final(self)@, step@) == old(self)@.after_message(envelope.deep_view()),
    {
        let sender = envelope.0.from_node();
        let (from_group, address) = match envelope.0.from_group() {
            Some(group) => (true, group),
            None => (false, envelope.0.from_node()),
        };
        let name: Name = (address.clone(), Some(envelope.0.message_id()));
        let key_name: Name = (address.clone(), None);
        proof {
            lemma_bytes_view(name.0);
            lemma_bytes_view(key_name.0);
        }
        let seen = if from_group {
            self.group_accumulator.have_name(&name)
        } else {
            self.node_accumulator.have_name(&name)
        };
        if !seen {
            if from_group {
                self.group_accumulator.expect(name);
                return Step::RequestGroupKey(address);
            } else {
                self.node_accumulator.expect(name);
                return Step::RequestClientKey(address);
            }
        }
        let name_again = crate::response::clone_name(&name);
        let report = if from_group {
            self.group_accumulator.add(name, envelope, sender)
        } else {
            self.node_accumulator.add(name, envelope, sender)
        };
        let messages = match report {
            None => {
                return Step::Idle;
            },
            Some(reported) => reported.1,
        };
        let found = if from_group {
            self.group_key_accumulator.get(&key_name)
        } else {
            self.node_key_accumulator.get(&key_name)
        };
        match found {
            None => Step::Idle,
            Some(held) => Step::DecodeKeys(
                Ballot { from_group, name: name_again, messages, keys: held.1 },
            ),
        }
    }

    /// Takes in one copy of a message, and says what is to be done next.
    ///
    /// A key response is collected under the address of the group that it comes from. A message
    /// of any other kind is collected under its sender's address and its identifier, but not the
    /// first under a name: that one only makes the sentinel ask for the sender's public key.
    /// When the messages under a name reach the quorum and key responses for its address are
    /// held, or the key responses for an address reach the quorum and messages of that address
    /// are held, the two are handed out as a ballot, of which the key responses are to be
    /// decoded.
    pub fn add(&mut self, header: MessageHeader, type_tag: MessageTypeTag, message: SerialisedMessage)
        -> (step: Step)
        requires
            old(self)@.well_formed(),
        ensures
            final(self)@.well_formed(),
            (final(self)@, step@) == old(self)@.after_envelope((header@, type_tag, message@)),
    {
        proof {
            lemma_bytes_view(message);
        }
        match type_tag {
            MessageTypeTag::GetClientKeyResponse => self.add_key_response(
                false,
                (header, type_tag, message),
            ),
            MessageTypeTag::GetGroupKeyResponse => self.add_key_response(
                true,
                (header, type_tag, message),
            ),
            _ => self.add_message((header, type_tag, message)),
        }
    }

    /// Goes on with a ballot once the payloads of its key responses have been decoded: `claims`
    /// holds, for each key response of the ballot in turn, the announcement in its payload, or
    /// nothing where the payload holds none. The messages of the ballot are validated against
    /// the claims, and what is verified is resolved.
    pub fn keys_decoded(&mut self, ballot: Ballot, claims: Vec<Option<GetClientKeyResponse>>) -> (step:
        Step)
        requires
            old(self)@.well_formed(),
        ensures
            final(self)@.well_formed(),
            (final(self)@, step@) == old(self)@.after_keys_decoded(ballot@, claims.deep_view()),
    {
        let verified = if ballot.from_group {
            self.validate_group(ballot.messages, claims)
        } else {
            self.validate_node(ballot.messages, claims)
        };
        self.conclude(ballot.from_group, ballot.name, verified)
    }

    /// Goes on with a merge task once its records have been merged: `merged` holds the merged
    /// record, or nothing where the records could not be merged.
    pub fn records_merged(&mut self, task: MergeTask, merged: Option<SerialisedMessage>) -> (step:
        Step)
        requires
            old(self)@.well_formed(),
        ensures
            final(self)@.well_formed(),
            (final(self)@, step@) == old(self)@.after_records_merged(task@, merged.deep_view()),
    {
        match conclude_merge(&task.verified, merged) {
            Some(message) => {
                self.forget(task.from_group, task.name);
                Step::Resolved(message)
            },
            None => Step::Idle,
        }
    }
}

/// Whatever a sentinel takes in, it stays well formed: each accumulator holds no more names
/// than its capacity, and under no name more responses than distinct senders have submitted.
pub proof fn law_sentinel_stays_well_formed(
    sentinel: SentinelView,
    envelope: ResultView,
    ballot: BallotView,
    claims: Claims,
    task: MergeTaskView,
    merged: Option<Seq<u8>>,
)
    requires
        sentinel.well_formed(),
    ensures
        sentinel.after_envelope(envelope).0.well_formed(),
        sentinel.after_keys_decoded(ballot, claims).0.well_formed(),
        sentinel.after_records_merged(task, merged).0.well_formed(),
{
    let header = envelope.0;
    let sender = header.from_node;
    sentinel.messages(ballot.from_group).lemma_delete_keeps_form(ballot.name);
    sentinel.messages(task.from_group).lemma_delete_keeps_form(task.name);
    if envelope.1.spec_is_key_response() {
        let for_group = envelope.1 == MessageTypeTag::GetGroupKeyResponse;
        if let Some(group) = header.from_group {
            let name = (group, Some(header.message_id));
            sentinel.keys(for_group).lemma_add_keeps_form((group, None::<u32>), envelope, sender);
            sentinel.messages(for_group).lemma_lookup_keeps_form(name);
        }
    } else {
        let from_group = header.from_group.is_some();
        let name = message_name(header);
        let held = sentinel.messages(from_group);
        held.lemma_expect_keeps_form(name);
        held.lemma_lookup_keeps_form(name);
        held.after_lookup(name).lemma_add_keeps_form(name, envelope, sender);
        sentinel.keys(from_group).lemma_lookup_keeps_form((claimed_origin(header), None::<u32>));
    }
}

/// The first message under a new name is not collected: the sentinel notes the name, asks for
/// the public key of the claimed origin once, and changes nothing else. The next message under
/// that name is collected, as the first response under it, and no key is asked for again.
pub proof fn law_first_sighting(sentinel: SentinelView, first: ResultView, second: ResultView)
    requires
        sentinel.well_formed(),
        sentinel.messages(first.0.from_group.is_some()).capacity > 0,
        !first.1.spec_is_key_response(),
        !second.1.spec_is_key_response(),
        !sentinel.messages(first.0.from_group.is_some()).has_name(message_name(first.0)),
        second.0.from_group == first.0.from_group,
        message_name(second.0) == message_name(first.0),
    ensures
        ({
            let from_group = first.0.from_group.is_some();
            let name = message_name(first.0);
            let (noted, request) = sentinel.after_envelope(first);
            let (collecting, step) = noted.after_envelope(second);
            &&& request == if from_group {
                StepView::RequestGroupKey(claimed_origin(first.0))
            } else {
                StepView::RequestClientKey(claimed_origin(first.0))
            }
            &&& noted.well_formed()
            &&& noted.messages(from_group).has_name(name)
            &&& noted.messages(from_group).sender_count(name) == 0
            &&& noted.messages(!from_group) == sentinel.messages(!from_group)
            &&& noted.keys(true) == sentinel.keys(true)
            &&& noted.keys(false) == sentinel.keys(false)
            &&& !(step is RequestGroupKey)
            &&& !(step is RequestClientKey)
            &&& collecting.messages(from_group).responses(name) == seq![
                ResponseView { address: second.0.from_node, value: second },
            ]
        }),
{
    let from_group = first.0.from_group.is_some();
    let name = message_name(first.0);
    let held = sentinel.messages(from_group);
    held.lemma_expect_keeps_form(name);
    let expecting = held.after_expect(name);
    expecting.lemma_lookup_keeps_form(name);
    let looked = expecting.after_lookup(name);
    assert(looked.found(name) == Some((name, Seq::<ResponseView>::empty())));
    law_quorum_gating(looked, name, second, second.0.from_node);
    assert(recorded(looked.responses(name), second.0.from_node, second) =~= seq![
        ResponseView { address: second.0.from_node, value: second },
    ]);
    looked.lemma_store_keeps_form(
        name,
        seq![ResponseView { address: second.0.from_node, value: second }],
    );
}

} // verus!

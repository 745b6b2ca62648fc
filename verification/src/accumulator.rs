//! The accumulator: a bounded collection of names, under each of which the responses of
//! distinct senders gather until they are as many as the quorum.

use vstd::prelude::*;
use crate::entries::{
    distinct_names, lemma_position, lemma_refreshed, lemma_stored, lemma_without,
};
use crate::lru::{
    cache_contains, cache_entries, cache_insert, cache_limit, cache_new, cache_remove, holds,
    position, refreshed, responses_of, stored, without, Held, Storage,
};
use crate::response::{
    clone_name, clone_responses, same_bytes, Name, NameView, Response, ResponseView, ResultType,
    ResultView,
};
use crate::types::Address;

verus! {

/// Whether `sender` has a response among `responses`.
pub open spec fn has_sender(responses: Seq<ResponseView>, sender: Seq<u8>) -> bool {
    exists|i: int| 0 <= i < responses.len() && (#[trigger] responses[i]).address == sender
}

/// A place at which the response of `sender` stands, where there is one.
pub open spec fn sender_index(responses: Seq<ResponseView>, sender: Seq<u8>) -> int {
    choose|i: int| 0 <= i < responses.len() && (#[trigger] responses[i]).address == sender
}

/// No sender has two responses among `responses`.
pub open spec fn distinct_senders(responses: Seq<ResponseView>) -> bool {
    forall|i: int, j: int|
        0 <= i < responses.len() && 0 <= j < responses.len() && i != j ==> (
        #[trigger] responses[i]).address != (#[trigger] responses[j]).address
}

/// The responses after `sender` has submitted `value`: a sender's earlier response gives way to
/// the new one and keeps its place, a new sender's response goes to the end.
pub open spec fn recorded(responses: Seq<ResponseView>, sender: Seq<u8>, value: ResultView) -> Seq<
    ResponseView,
> {
    let response = ResponseView { address: sender, value };
    if has_sender(responses, sender) {
        responses.update(sender_index(responses, sender), response)
    } else {
        responses.push(response)
    }
}

/// An accumulator as mathematical values: its two limits, and the names it holds with their
/// responses, the least recently used name first.
pub struct AccumulatorView {
    pub quorum: nat,
    pub capacity: nat,
    pub entries: Seq<Held>,
}

impl AccumulatorView {
    /// What holds of every accumulator: it holds no more names than its capacity, no name
    /// twice, and under no name two responses of one sender.
    pub open spec fn well_formed(self) -> bool {
        &&& self.entries.len() <= self.capacity
        &&& distinct_names(self.entries)
        &&& forall|i: int|
            0 <= i < self.entries.len() ==> distinct_senders((#[trigger] self.entries[i]).1)
    }

    /// Whether `name` is held.
    pub open spec fn has_name(self, name: NameView) -> bool {
        holds(self.entries, name)
    }

    /// The responses held for `name`; none where the name is not held.
    pub open spec fn responses(self, name: NameView) -> Seq<ResponseView> {
        responses_of(self.entries, name)
    }

    /// The number of distinct senders that have a response under `name`.
    pub open spec fn sender_count(self, name: NameView) -> nat {
        self.responses(name).len()
    }

    /// The accumulator with other names and responses, and the same limits.
    pub open spec fn with_entries(self, entries: Seq<Held>) -> AccumulatorView {
        AccumulatorView { quorum: self.quorum, capacity: self.capacity, entries }
    }

    /// The accumulator after `sender` has submitted `value` under `name`.
    pub open spec fn after_add(self, name: NameView, value: ResultView, sender: Seq<u8>)
        -> AccumulatorView {
        self.with_entries(
            stored(self.entries, self.capacity, name, recorded(self.responses(name), sender, value)),
        )
    }

    /// Whether the submission of `sender` under `name` is the one that completes the quorum:
    /// the sender is new to the name, and with it the senders are exactly as many as the quorum.
    pub open spec fn completes_quorum(self, name: NameView, sender: Seq<u8>) -> bool {
        &&& !has_sender(self.responses(name), sender)
        &&& self.sender_count(name) + 1 == self.quorum
    }

    /// What `add` reports for the submission of `value` by `sender` under `name`.
    pub open spec fn add_report(self, name: NameView, value: ResultView, sender: Seq<u8>) -> Option<
        Held,
    > {
        if self.completes_quorum(name, sender) {
            Some((name, recorded(self.responses(name), sender, value)))
        } else {
            None
        }
    }

    /// The accumulator after `name` was looked up.
    pub open spec fn after_lookup(self, name: NameView) -> AccumulatorView {
        self.with_entries(refreshed(self.entries, name))
    }

    /// What a look-up of `name` finds.
    pub open spec fn found(self, name: NameView) -> Option<Held> {
        if self.has_name(name) {
            Some((name, self.responses(name)))
        } else {
            None
        }
    }

    /// The accumulator after `name` was deleted.
    pub open spec fn after_delete(self, name: NameView) -> AccumulatorView {
        self.with_entries(without(self.entries, name))
    }

    /// The accumulator after it was told to expect responses under `name`.
    pub open spec fn after_expect(self, name: NameView) -> AccumulatorView {
        if self.has_name(name) {
            self.after_lookup(name)
        } else {
            self.with_entries(stored(self.entries, self.capacity, name, Seq::empty()))
        }
    }
}

/// Where no sender has two responses, a sender's response stands at one place only.
pub proof fn lemma_sender_index(responses: Seq<ResponseView>, sender: Seq<u8>, i: int)
    requires
        distinct_senders(responses),
        0 <= i < responses.len(),
        responses[i].address == sender,
    ensures
        has_sender(responses, sender),
        sender_index(responses, sender) == i,
{
    let p = sender_index(responses, sender);
    assert(0 <= p < responses.len() && responses[p].address == sender);
    if p != i {
        assert(responses[p].address != responses[i].address);
    }
}

/// Recording a submission keeps the senders distinct, and adds a response exactly where the
/// sender is new.
pub proof fn lemma_recorded(responses: Seq<ResponseView>, sender: Seq<u8>, value: ResultView)
    requires
        distinct_senders(responses),
    ensures
        distinct_senders(recorded(responses, sender, value)),
        has_sender(recorded(responses, sender, value), sender),
        recorded(responses, sender, value).len() == if has_sender(responses, sender) {
            responses.len()
        } else {
            responses.len() + 1
        },
{
    let after = recorded(responses, sender, value);
    if has_sender(responses, sender) {
        let p = sender_index(responses, sender);
        assert(0 <= p < responses.len() && responses[p].address == sender);
        assert(after[p].address == sender);
        assert forall|i: int, j: int|
            0 <= i < after.len() && 0 <= j < after.len() && i != j implies (#[trigger] after[i]).address
            != (#[trigger] after[j]).address by {
            assert(after[i].address == responses[i].address);
            assert(after[j].address == responses[j].address);
        }
    } else {
        let last = responses.len() as int;
        assert(after[last].address == sender);
        assert forall|i: int, j: int|
            0 <= i < after.len() && 0 <= j < after.len() && i != j implies (#[trigger] after[i]).address
            != (#[trigger] after[j]).address by {
            if i < last && j < last {
                assert(after[i] == responses[i]);
                assert(after[j] == responses[j]);
            } else if i < last {
                assert(after[i] == responses[i]);
            } else {
                assert(after[j] == responses[j]);
            }
        }
    }
}

/// Where every response list of `entries` has distinct senders, and `kept` holds nothing but
/// what `entries` holds and `added`, whose senders are distinct too, every response list of
/// `kept` has distinct senders.
proof fn lemma_senders_stay_distinct(entries: Seq<Held>, kept: Seq<Held>, added: Held)
    requires
        forall|i: int| 0 <= i < entries.len() ==> distinct_senders((#[trigger] entries[i]).1),
        distinct_senders(added.1),
        forall|i: int|
            0 <= i < kept.len() ==> entries.contains(#[trigger] kept[i]) || kept[i] == added,
    ensures
        forall|i: int| 0 <= i < kept.len() ==> distinct_senders((#[trigger] kept[i]).1),
{
    assert forall|i: int| 0 <= i < kept.len() implies distinct_senders((#[trigger] kept[i]).1) by {
        if kept[i] != added {
            assert(entries.contains(kept[i]));
            let j = choose|j: int| 0 <= j < entries.len() && entries[j] == kept[i];
            assert(distinct_senders(entries[j].1));
        }
    }
}

impl AccumulatorView {
    /// The responses under a name have distinct senders.
    pub proof fn lemma_responses_distinct(self, name: NameView)
        requires
            self.well_formed(),
        ensures
            distinct_senders(self.responses(name)),
    {
        if self.has_name(name) {
            let p = position(self.entries, name);
            assert(0 <= p < self.entries.len() && self.entries[p].0 == name);
            assert(distinct_senders(self.entries[p].1));
        }
    }

    /// Storing responses with distinct senders under a name leaves the accumulator well formed.
    pub proof fn lemma_store_keeps_form(self, name: NameView, responses: Seq<ResponseView>)
        requires
            self.well_formed(),
            distinct_senders(responses),
        ensures
            self.with_entries(stored(self.entries, self.capacity, name, responses)).well_formed(),
            stored(self.entries, self.capacity, name, responses) == stored(
                without(self.entries, name),
                self.capacity,
                name,
                responses,
            ),
            self.capacity > 0 ==> self.with_entries(
                stored(self.entries, self.capacity, name, responses),
            ).found(name) == Some((name, responses)),
    {
        let rest = without(self.entries, name);
        lemma_without(self.entries, name);
        assert(without(rest, name) == rest);
        lemma_stored(rest, self.capacity, name, responses);
        let kept = stored(self.entries, self.capacity, name, responses);
        assert forall|i: int| 0 <= i < kept.len() implies self.entries.contains(
            #[trigger] kept[i],
        ) || kept[i] == (name, responses) by {
            if kept[i] != (name, responses) {
                assert(rest.contains(kept[i]));
                let j = choose|j: int| 0 <= j < rest.len() && rest[j] == kept[i];
                assert(self.entries.contains(rest[j]));
            }
        }
        lemma_senders_stay_distinct(self.entries, kept, (name, responses));
    }

    /// A submission leaves the accumulator well formed.
    pub proof fn lemma_add_keeps_form(self, name: NameView, value: ResultView, sender: Seq<u8>)
        requires
            self.well_formed(),
        ensures
            self.after_add(name, value, sender).well_formed(),
    {
        self.lemma_responses_distinct(name);
        lemma_recorded(self.responses(name), sender, value);
        self.lemma_store_keeps_form(name, recorded(self.responses(name), sender, value));
    }

    /// A look-up leaves the accumulator well formed, and every name with what it holds.
    pub proof fn lemma_lookup_keeps_form(self, name: NameView)
        requires
            self.well_formed(),
        ensures
            self.after_lookup(name).well_formed(),
            forall|other: NameView| self.after_lookup(name).found(other) == self.found(other),
    {
        lemma_refreshed(self.entries, name);
        lemma_senders_stay_distinct(
            self.entries,
            refreshed(self.entries, name),
            (name, Seq::empty()),
        );
    }

    /// A deletion leaves the accumulator well formed.
    pub proof fn lemma_delete_keeps_form(self, name: NameView)
        requires
            self.well_formed(),
        ensures
            self.after_delete(name).well_formed(),
    {
        lemma_without(self.entries, name);
        lemma_senders_stay_distinct(self.entries, without(self.entries, name), (name, Seq::empty()));
    }

    /// To expect a name leaves the accumulator well formed, and the name held: with what it
    /// held before, or with nothing where it was not held.
    pub proof fn lemma_expect_keeps_form(self, name: NameView)
        requires
            self.well_formed(),
        ensures
            self.after_expect(name).well_formed(),
            self.capacity > 0 ==> self.after_expect(name).found(name) == Some(
                (name, self.responses(name)),
            ),
    {
        if self.has_name(name) {
            self.lemma_lookup_keeps_form(name);
            assert(self.after_lookup(name).found(name) == self.found(name));
        } else {
            self.lemma_store_keeps_form(name, Seq::empty());
            assert(self.responses(name) == Seq::<ResponseView>::empty());
        }
    }
}

/// Collects, name by name, the responses that different senders submit, and says when the
/// senders under a name have become as many as the quorum. It holds a bounded number of names:
/// when one more arrives, the name that was used least recently leaves with all its responses.
pub struct Accumulator {
    quorum: usize,
    storage: Storage,
}

impl View for Accumulator {
    type V = AccumulatorView;

    closed spec fn view(&self) -> AccumulatorView {
        AccumulatorView {
            quorum: self.quorum as nat,
            capacity: cache_limit(self.storage),
            entries: cache_entries(self.storage),
        }
    }
}

/// Looks for the response of `sender` among `responses`.
fn find_sender(responses: &Vec<Response>, sender: &Address) -> (place: Option<usize>)
    ensures
        place.is_some() == has_sender(responses.deep_view(), sender@),
        place.is_some() ==> place.unwrap() < responses.len() && responses[place.unwrap() as int]@.address
            == sender@,
{
    let mut i: usize = 0;
    while i < responses.len()
        invariant
            i <= responses.len(),
            forall|j: int| 0 <= j < i ==> responses[j]@.address != sender@,
        decreases responses.len() - i,
    {
        if same_bytes(&responses[i].address, sender) {
            assert(responses.deep_view()[i as int].address == sender@);
            return Some(i);
        }
        i += 1;
    }
    assert forall|j: int| 0 <= j < responses.deep_view().len() implies (
    #[trigger] responses.deep_view()[j]).address != sender@ by {
        assert(responses.deep_view()[j] == responses[j]@);
    }
    None
}

impl Accumulator {
    /// An empty accumulator that reports a name once `quorum` distinct senders have submitted
    /// under it, and that holds at most `capacity` names.
    pub fn new(quorum: usize, capacity: usize) -> (accumulator: Accumulator)
        ensures
            accumulator@.well_formed(),
            accumulator@.quorum == quorum,
            accumulator@.capacity == capacity,
            accumulator@.entries == Seq::<Held>::empty(),
    {
        Accumulator { quorum, storage: cache_new(capacity) }
    }

    /// Records `value` under `name` as the submission of `sender`, in place of an earlier
    /// submission of that sender if there is one, and makes `name` the most recently used.
    /// Hands back the name with all its responses on the one call with which the distinct
    /// senders under the name become as many as the quorum, and nothing on every other call.
    pub fn add(&mut self, name: Name, value: ResultType, sender: Address) -> (report: Option<
        (Name, Vec<Response>),
    >)
        requires
            old(self)@.well_formed(),
        ensures
            final(self)@.well_formed(),
            final(self)@ == old(self)@.after_add(name.deep_view(), value.deep_view(), sender@),
            report.deep_view() == old(self)@.add_report(
                name.deep_view(),
                value.deep_view(),
                sender@,
            ),
    {
        let ghost before = self@;
        let ghost key = name.deep_view();
        let existing = cache_remove(&mut self.storage, &name);
        let mut responses: Vec<Response> = match existing {
            Some(found) => found,
            None => Vec::new(),
        };
        let ghost prior = responses.deep_view();
        proof {
            assert(prior =~= before.responses(key));
            before.lemma_responses_distinct(key);
            before.lemma_add_keeps_form(key, value.deep_view(), sender@);
            before.lemma_store_keeps_form(key, recorded(prior, sender@, value.deep_view()));
        }
        let mut report: Option<(Name, Vec<Response>)> = None;
        match find_sender(&responses, &sender) {
            Some(i) => {
                proof {
                    lemma_sender_index(prior, sender@, i as int);
                }
                responses.set(i, Response { address: sender, value });
                assert(responses.deep_view() =~= recorded(prior, sender@, value.deep_view()));
            },
            None => {
                responses.push(Response { address: sender, value });
                assert(responses.deep_view() =~= recorded(prior, sender@, value.deep_view()));
                if responses.len() == self.quorum {
                    report = Some((clone_name(&name), clone_responses(&responses)));
                }
            },
        }
        cache_insert(&mut self.storage, name, responses);
        report
    }

    /// Whether responses are being collected under `name`. A name that is found becomes the most
    /// recently used.
    pub fn have_name(&mut self, name: &Name) -> (found: bool)
        requires
            old(self)@.well_formed(),
        ensures
            final(self)@.well_formed(),
            final(self)@ == old(self)@.after_lookup(name.deep_view()),
            found == old(self)@.has_name(name.deep_view()),
    {
        proof {
            self@.lemma_lookup_keeps_form(name.deep_view());
        }
        cache_contains(&mut self.storage, name)
    }

    /// The name with the responses collected under it so far, if the name is held. A name that
    /// is found becomes the most recently used; what was collected stays as it is.
    pub fn get(&mut self, name: &Name) -> (found: Option<(Name, Vec<Response>)>)
        requires
            old(self)@.well_formed(),
        ensures
            final(self)@.well_formed(),
            final(self)@ == old(self)@.after_lookup(name.deep_view()),
            found.deep_view() == old(self)@.found(name.deep_view()),
    {
        let ghost before = self@;
        let ghost key = name.deep_view();
        proof {
            before.lemma_lookup_keeps_form(key);
            before.lemma_responses_distinct(key);
            before.lemma_store_keeps_form(key, before.responses(key));
        }
        match cache_remove(&mut self.storage, name) {
            Some(responses) => {
                let copy = clone_responses(&responses);
                proof {
                    let p = position(before.entries, key);
                    assert(0 <= p < before.entries.len() && before.entries[p].0 == key);
                    assert(before.entries[p] == (key, responses.deep_view()));
                    assert(stored(before.entries, before.capacity, key, responses.deep_view())
                        == refreshed(before.entries, key));
                }
                cache_insert(&mut self.storage, clone_name(name), responses);
                Some((clone_name(name), copy))
            },
            None => None,
        }
    }

    /// Forgets `name` and all that was collected under it.
    pub fn delete(&mut self, name: Name)
        requires
            old(self)@.well_formed(),
        ensures
            final(self)@.well_formed(),
            final(self)@ == old(self)@.after_delete(name.deep_view()),
    {
        proof {
            self@.lemma_delete_keeps_form(name.deep_view());
        }
        let _ = cache_remove(&mut self.storage, &name);
    }

    /// Starts to hold `name`, with no response under it yet, so that a later look-up finds it.
    /// A name that is held already keeps its responses. Either way the name becomes the most
    /// recently used.
    pub fn expect(&mut self, name: Name)
        requires
            old(self)@.well_formed(),
        ensures
            final(self)@.well_formed(),
            final(self)@ == old(self)@.after_expect(name.deep_view()),
    {
        let ghost before = self@;
        proof {
            before.lemma_lookup_keeps_form(name.deep_view());
            before.lemma_expect_keeps_form(name.deep_view());
        }
        if !cache_contains(&mut self.storage, &name) {
            assert(refreshed(before.entries, name.deep_view()) == before.entries);
            let fresh: Vec<Response> = Vec::new();
            assert(fresh.deep_view() =~= Seq::<ResponseView>::empty());
            cache_insert(&mut self.storage, name, fresh);
        }
    }
}

/// A submission raises the number of distinct senders under its name by one where the sender
/// is new to the name, and leaves it where the sender has submitted before. `add` reports
/// exactly on the submission with which that number first reaches the quorum, and reports
/// what is then held under the name.
pub proof fn law_quorum_gating(
    accumulator: AccumulatorView,
    name: NameView,
    value: ResultView,
    sender: Seq<u8>,
)
    requires
        accumulator.well_formed(),
        accumulator.capacity > 0,
    ensures
        accumulator.after_add(name, value, sender).well_formed(),
        accumulator.after_add(name, value, sender).sender_count(name) == accumulator.sender_count(
            name,
        ) + if has_sender(accumulator.responses(name), sender) {
            0nat
        } else {
            1nat
        },
        accumulator.add_report(name, value, sender).is_some() <==> accumulator.sender_count(name)
            < accumulator.quorum <= accumulator.after_add(name, value, sender).sender_count(name),
        accumulator.add_report(name, value, sender).is_some() ==> accumulator.add_report(
            name,
            value,
            sender,
        ) == accumulator.after_add(name, value, sender).found(name),
{
    accumulator.lemma_responses_distinct(name);
    lemma_recorded(accumulator.responses(name), sender, value);
    accumulator.lemma_store_keeps_form(name, recorded(accumulator.responses(name), sender, value));
}

/// Once `add` has reported a name, the next submission under that name is not reported,
/// whoever sends it.
pub proof fn law_quorum_reported_once(
    accumulator: AccumulatorView,
    name: NameView,
    value: ResultView,
    sender: Seq<u8>,
    next_value: ResultView,
    next_sender: Seq<u8>,
)
    requires
        accumulator.well_formed(),
        accumulator.capacity > 0,
        accumulator.add_report(name, value, sender).is_some(),
    ensures
        accumulator.after_add(name, value, sender).add_report(name, next_value, next_sender)
            == None::<Held>,
{
    law_quorum_gating(accumulator, name, value, sender);
    law_quorum_gating(accumulator.after_add(name, value, sender), name, next_value, next_sender);
}

/// A sender that submits again under the same name, with whatever value, is not counted a
/// second time, and its second submission is never the one that is reported.
pub proof fn law_sender_counted_once(
    accumulator: AccumulatorView,
    name: NameView,
    value: ResultView,
    sender: Seq<u8>,
    next_value: ResultView,
)
    requires
        accumulator.well_formed(),
        accumulator.capacity > 0,
    ensures
        accumulator.after_add(name, value, sender).after_add(
            name,
            next_value,
            sender,
        ).sender_count(name) == accumulator.after_add(name, value, sender).sender_count(name),
        accumulator.after_add(name, value, sender).add_report(name, next_value, sender)
            == None::<Held>,
{
    accumulator.lemma_responses_distinct(name);
    lemma_recorded(accumulator.responses(name), sender, value);
    accumulator.lemma_store_keeps_form(name, recorded(accumulator.responses(name), sender, value));
    law_quorum_gating(accumulator.after_add(name, value, sender), name, next_value, sender);
}

/// A submission under a new name to an accumulator that is full drives out the name that was
/// used least recently, with all its responses; every other name stays, with its responses and
/// in its order, and the new name becomes the most recently used.
pub proof fn law_least_recent_evicted(
    accumulator: AccumulatorView,
    name: NameView,
    value: ResultView,
    sender: Seq<u8>,
)
    requires
        accumulator.well_formed(),
        accumulator.capacity > 0,
        accumulator.entries.len() == accumulator.capacity,
        !accumulator.has_name(name),
    ensures
        accumulator.after_add(name, value, sender).entries == accumulator.entries.drop_first().push(
            (name, seq![ResponseView { address: sender, value }]),
        ),
        !accumulator.after_add(name, value, sender).has_name(accumulator.entries[0].0),
        accumulator.after_add(name, value, sender).found(accumulator.entries[0].0) == None::<Held>,
        forall|other: NameView|
            other != accumulator.entries[0].0 && accumulator.has_name(other)
                ==> accumulator.after_add(name, value, sender).found(other) == accumulator.found(
                other,
            ),
{
    let evicted = accumulator.entries[0].0;
    let next = recorded(accumulator.responses(name), sender, value);
    assert(next =~= seq![ResponseView { address: sender, value }]);
    lemma_stored(accumulator.entries, accumulator.capacity, name, next);
    let kept = stored(accumulator.entries, accumulator.capacity, name, next);
    assert(kept =~= accumulator.entries.drop_first().push((name, next)));
    lemma_position(accumulator.entries, evicted, 0);
    if holds(kept, evicted) {
        let q = position(kept, evicted);
        assert(0 <= q < kept.len() && kept[q].0 == evicted);
        assert(kept[q] == accumulator.entries[q + 1]);
        assert(accumulator.entries[q + 1].0 != accumulator.entries[0].0);
    }
}

/// A name leaves an accumulator by deletion or by eviction only: a look-up leaves every name
/// with what it holds, and a deletion every name but the one that is deleted.
pub proof fn law_names_stay(accumulator: AccumulatorView, name: NameView, other: NameView)
    requires
        accumulator.well_formed(),
        other != name,
    ensures
        accumulator.after_lookup(name).found(other) == accumulator.found(other),
        accumulator.after_lookup(name).found(name) == accumulator.found(name),
        accumulator.after_delete(name).found(other) == accumulator.found(other),
        accumulator.after_delete(name).found(name) == None::<Held>,
{
    lemma_refreshed(accumulator.entries, name);
    lemma_without(accumulator.entries, name);
}

} // verus!

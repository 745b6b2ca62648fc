//! The resolution of the verified messages of one name to the one message that is passed on.

use vstd::prelude::*;
use crate::response::{clone_result, lemma_bytes_view, same_bytes, ResultType, ResultView};
use crate::sentinel::Sentinel;
use crate::types::{MessageTypeTag, SerialisedMessage};

verus! {

/// The number of messages among `verified` whose payload is `payload`, byte for byte.
pub open spec fn payload_count(verified: Seq<ResultView>, payload: Seq<u8>) -> nat
    decreases verified.len(),
{
    if verified.len() == 0 {
        0
    } else {
        payload_count(verified.drop_last(), payload) + if verified.last().2 == payload {
            1nat
        } else {
            0nat
        }
    }
}

/// Whether the payload of the message at `i` is shared by more messages than the quorum.
pub open spec fn has_majority(verified: Seq<ResultView>, quorum: nat, i: int) -> bool {
    payload_count(verified, verified[i].2) > quorum
}

/// Whether the message at `i` is the first whose payload is shared by more messages than the
/// quorum.
pub open spec fn is_first_majority(verified: Seq<ResultView>, quorum: nat, i: int) -> bool {
    &&& 0 <= i < verified.len()
    &&& has_majority(verified, quorum, i)
    &&& forall|j: int| 0 <= j < i ==> !has_majority(verified, quorum, j)
}

/// The first message whose payload is shared by more messages than the quorum, if there is one.
pub open spec fn majority(verified: Seq<ResultView>, quorum: nat) -> Option<ResultView> {
    if exists|i: int| is_first_majority(verified, quorum, i) {
        Some(verified[choose|i: int| is_first_majority(verified, quorum, i)])
    } else {
        None
    }
}

/// What the resolver makes of the verified messages of one quorum, as mathematical values.
pub enum ResolutionView {
    Unresolved,
    Exact(ResultView),
    Merge(Seq<ResultView>),
}

/// What the resolver makes of the verified messages of one quorum.
#[derive(Debug)]
pub enum Resolution {
    /// The messages warrant no result.
    Unresolved,
    /// This message stands for what the senders agree on.
    Exact(ResultType),
    /// The messages are account transfers: their records are to be merged, and the merged
    /// record takes the place of the payload of the first of them.
    Merge(Vec<ResultType>),
}

impl View for Resolution {
    type V = ResolutionView;

    open spec fn view(&self) -> ResolutionView {
        match self {
            Resolution::Unresolved => ResolutionView::Unresolved,
            Resolution::Exact(message) => ResolutionView::Exact(message.deep_view()),
            Resolution::Merge(messages) => ResolutionView::Merge(messages.deep_view()),
        }
    }
}

/// What the verified messages resolve to: nothing where there is none or they are fewer than
/// the quorum; for account transfers, a merge of all of them; for every other kind, the first
/// message whose payload more messages than the quorum share, and nothing where no payload is
/// shared so widely.
pub open spec fn resolved(verified: Seq<ResultView>, quorum: nat) -> ResolutionView {
    if verified.len() == 0 || verified.len() < quorum {
        ResolutionView::Unresolved
    } else if verified[0].1 == MessageTypeTag::AccountTransfer {
        ResolutionView::Merge(verified)
    } else {
        match majority(verified, quorum) {
            Some(message) => ResolutionView::Exact(message),
            None => ResolutionView::Unresolved,
        }
    }
}

/// The message that a merge of account transfers yields: where the records could be merged, the
/// first of the messages with the merged record for its payload; nothing where they could not.
pub open spec fn merged_message(verified: Seq<ResultView>, merged: Option<Seq<u8>>) -> Option<
    ResultView,
> {
    match merged {
        Some(payload) => if verified.len() > 0 {
            Some((verified[0].0, verified[0].1, payload))
        } else {
            None
        },
        None => None,
    }
}

/// There is at most one first message with a majority.
pub proof fn lemma_first_majority_unique(verified: Seq<ResultView>, quorum: nat, i: int)
    requires
        is_first_majority(verified, quorum, i),
    ensures
        majority(verified, quorum) == Some(verified[i]),
{
    let c = choose|k: int| is_first_majority(verified, quorum, k);
    assert(is_first_majority(verified, quorum, c));
    if c < i {
        assert(!has_majority(verified, quorum, c));
    }
    if i < c {
        assert(!has_majority(verified, quorum, i));
    }
}

/// Messages that are at least as many as the quorum and are no account transfers resolve to
/// one of them exactly where the payload of some message is shared by more messages than the
/// quorum, and then to the first such message; they never ask for a merge.
pub proof fn law_majority_resolution(verified: Seq<ResultView>, quorum: nat)
    requires
        verified.len() > 0,
        verified.len() >= quorum,
        verified[0].1 != MessageTypeTag::AccountTransfer,
    ensures
        match resolved(verified, quorum) {
            ResolutionView::Exact(message) => exists|i: int|
                is_first_majority(verified, quorum, i) && verified[i] == message,
            ResolutionView::Unresolved => forall|i: int|
                0 <= i < verified.len() ==> !has_majority(verified, quorum, i),
            ResolutionView::Merge(_) => false,
        },
{
    if exists|i: int| is_first_majority(verified, quorum, i) {
        let i = choose|i: int| is_first_majority(verified, quorum, i);
        assert(is_first_majority(verified, quorum, i));
    } else {
        assert forall|i: int| 0 <= i < verified.len() implies !has_majority(verified, quorum, i) by {
            if has_majority(verified, quorum, i) {
                lemma_some_first_majority(verified, quorum, i);
            }
        }
    }
}

/// Where some message has a majority, some message is the first that has one.
proof fn lemma_some_first_majority(verified: Seq<ResultView>, quorum: nat, i: int)
    requires
        0 <= i < verified.len(),
        has_majority(verified, quorum, i),
    ensures
        exists|k: int| is_first_majority(verified, quorum, k),
    decreases i,
{
    if forall|j: int| 0 <= j < i ==> !has_majority(verified, quorum, j) {
        assert(is_first_majority(verified, quorum, i));
    } else {
        let j = choose|j: int| 0 <= j < i && has_majority(verified, quorum, j);
        lemma_some_first_majority(verified, quorum, j);
    }
}

/// Counts the messages among `verified` that have the payload `payload`.
fn count_payload(verified: &Vec<ResultType>, payload: &SerialisedMessage) -> (count: usize)
    ensures
        count == payload_count(verified.deep_view(), payload@),
{
    let mut count: usize = 0;
    let mut i: usize = 0;
    assert(verified.deep_view().take(0) =~= Seq::<ResultView>::empty());
    while i < verified.len()
        invariant
            i <= verified.len(),
            count <= i,
            count == payload_count(verified.deep_view().take(i as int), payload@),
        decreases verified.len() - i,
    {
        proof {
            let next = verified.deep_view().take(i as int + 1);
            assert(next.drop_last() =~= verified.deep_view().take(i as int));
            assert(next.last() == verified[i as int].deep_view());
            lemma_bytes_view(verified[i as int].2);
        }
        if same_bytes(&verified[i].2, payload) {
            count += 1;
        }
        i += 1;
    }
    assert(verified.deep_view().take(i as int) =~= verified.deep_view());
    count
}

/// Looks for the first message whose payload more messages than `quorum` share.
pub fn find_majority(verified: &Vec<ResultType>, quorum: usize) -> (found: Option<ResultType>)
    ensures
        found.deep_view() == majority(verified.deep_view(), quorum as nat),
{
    let ghost all = verified.deep_view();
    let mut index: usize = 0;
    while index < verified.len()
        invariant
            index <= verified.len(),
            all == verified.deep_view(),
            forall|j: int| 0 <= j < index ==> !has_majority(all, quorum as nat, j),
        decreases verified.len() - index,
    {
        proof {
            lemma_bytes_view(verified[index as int].2);
            assert(all[index as int] == verified[index as int].deep_view());
        }
        if count_payload(verified, &verified[index].2) > quorum {
            proof {
                assert(is_first_majority(all, quorum as nat, index as int));
                lemma_first_majority_unique(all, quorum as nat, index as int);
            }
            return Some(clone_result(&verified[index]));
        }
        index += 1;
    }
    proof {
        if exists|i: int| is_first_majority(all, quorum as nat, i) {
            let i = choose|i: int| is_first_majority(all, quorum as nat, i);
            assert(!has_majority(all, quorum as nat, i));
        }
    }
    None
}

/// Concludes a merge of account transfers. Where the records could be merged, `merged` holds
/// the merged record, and the first of the messages is handed back with it for its payload;
/// where they could not, nothing is.
pub fn conclude_merge(verified: &Vec<ResultType>, merged: Option<SerialisedMessage>) -> (message:
    Option<ResultType>)
    ensures
        message.deep_view() == merged_message(verified.deep_view(), merged.deep_view()),
{
    match merged {
        Some(payload) => {
            if verified.len() > 0 {
                proof {
                    assert(verified.deep_view()[0] == verified[0].deep_view());
                }
                Some((verified[0].0.clone(), verified[0].1, payload))
            } else {
                None
            }
        },
        None => None,
    }
}

impl Sentinel {
    /// Decides what the verified messages of one quorum amount to. Fewer messages than the
    /// quorum amount to nothing. Account transfers are to be merged. Of any other kind, the
    /// first message whose payload is shared, byte for byte, by more messages than the quorum
    /// is the result; where there is none, there is no result.
    pub fn resolve(&self, verified_messages: Vec<ResultType>, is_group: bool) -> (resolution:
        Resolution)
        ensures
            resolution@ == resolved(verified_messages.deep_view(), self@.quorum),
    {
        if verified_messages.len() == 0 || verified_messages.len() < self.quorum() {
            return Resolution::Unresolved;
        }
        proof {
            assert(verified_messages.deep_view()[0] == verified_messages[0].deep_view());
        }
        if verified_messages[0].1 == MessageTypeTag::AccountTransfer {
            Resolution::Merge(verified_messages)
        } else {
            match find_majority(&verified_messages, self.quorum()) {
                Some(message) => Resolution::Exact(message),
                None => Resolution::Unresolved,
            }
        }
    }
}

} // verus!

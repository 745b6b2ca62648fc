//! The validation of the messages of one name against the key responses of a quorum.

use vstd::prelude::*;
use crate::messages::get_client_key_response::{GetClientKeyResponse, GetClientKeyResponseView};
use crate::response::{
    clone_result, lemma_bytes_view, same_bytes, Response, ResponseView, ResultType, ResultView,
};
use crate::sentinel::Sentinel;
use crate::signature::{check_signature, signature_verifies};

verus! {

/// What the key responses of one quorum claim, one entry for each response: the announcement
/// that its payload holds, or nothing where the payload holds none.
pub type Claims = Seq<Option<GetClientKeyResponseView>>;

/// The claims name one address with one public key: there is a claim, every response holds
/// one, and all of them are the same.
pub open spec fn claims_agree(claims: Claims) -> bool {
    &&& claims.len() > 0
    &&& forall|i: int| 0 <= i < claims.len() ==> (#[trigger] claims[i]).is_some() && claims[i] == claims[0]
}

/// The one public key that the claims name, where they agree.
pub open spec fn agreed_public_key(claims: Claims) -> Option<Seq<u8>> {
    if claims_agree(claims) {
        Some(claims[0].unwrap().public_key)
    } else {
        None
    }
}

/// Whether the signature in the header of `message` is valid for its payload under `public_key`.
pub open spec fn message_verifies(message: ResponseView, public_key: Seq<u8>) -> bool {
    signature_verifies(message.value.0.signature, message.value.2, public_key)
}

/// The verdict on each of `messages` under `public_key`.
pub open spec fn verdicts_under(messages: Seq<ResponseView>, public_key: Seq<u8>) -> Seq<bool> {
    Seq::new(messages.len(), |i: int| message_verifies(messages[i], public_key))
}

/// The messages of the responses, in their order.
pub open spec fn values_of(messages: Seq<ResponseView>) -> Seq<ResultView> {
    messages.map_values(|m: ResponseView| m.value)
}

/// The messages of those responses whose verdict is favourable, in the order of the responses;
/// none where the verdicts are not as many as the responses.
pub open spec fn retained(messages: Seq<ResponseView>, verdicts: Seq<bool>) -> Seq<ResultView>
    decreases messages.len(),
{
    if messages.len() == 0 || verdicts.len() != messages.len() {
        Seq::empty()
    } else if verdicts.last() {
        retained(messages.drop_last(), verdicts.drop_last()).push(messages.last().value)
    } else {
        retained(messages.drop_last(), verdicts.drop_last())
    }
}

/// What the validation of node messages yields: nothing where there is no message, where the
/// key responses are fewer than the quorum, or where their claims do not agree; else the
/// messages whose signature is valid under the one key that is claimed.
pub open spec fn validated_node(messages: Seq<ResponseView>, claims: Claims, quorum: nat) -> Seq<
    ResultView,
> {
    if messages.len() == 0 || claims.len() < quorum {
        Seq::empty()
    } else {
        match agreed_public_key(claims) {
            Some(public_key) => retained(messages, verdicts_under(messages, public_key)),
            None => Seq::empty(),
        }
    }
}

/// What the validation of group messages yields. A group signs with one key of its own, which
/// its key responses announce as those of a node announce the node's key, so the messages of a
/// group are validated as those of a node are.
pub open spec fn validated_group(messages: Seq<ResponseView>, claims: Claims, quorum: nat) -> Seq<
    ResultView,
> {
    validated_node(messages, claims, quorum)
}

/// Every message that is retained belongs to a response with a favourable verdict, and the
/// message of every such response is retained.
pub proof fn lemma_retained(messages: Seq<ResponseView>, verdicts: Seq<bool>)
    requires
        messages.len() == verdicts.len(),
    ensures
        retained(messages, verdicts).len() <= messages.len(),
        forall|k: int|
            0 <= k < retained(messages, verdicts).len() ==> exists|i: int|
                0 <= i < messages.len() && verdicts[i] && (#[trigger] messages[i]).value
                    == #[trigger] retained(messages, verdicts)[k],
        forall|i: int|
            0 <= i < messages.len() && verdicts[i] ==> retained(messages, verdicts).contains(
                (#[trigger] messages[i]).value,
            ),
        (forall|i: int| 0 <= i < verdicts.len() ==> !verdicts[i]) ==> retained(messages, verdicts)
            == Seq::<ResultView>::empty(),
        (forall|i: int| 0 <= i < verdicts.len() ==> verdicts[i]) ==> retained(messages, verdicts)
            == values_of(messages),
    decreases messages.len(),
{
    let kept = retained(messages, verdicts);
    if messages.len() > 0 {
        let front = messages.drop_last();
        let front_verdicts = verdicts.drop_last();
        let before = retained(front, front_verdicts);
        lemma_retained(front, front_verdicts);
        assert forall|k: int| 0 <= k < kept.len() implies exists|i: int|
            0 <= i < messages.len() && verdicts[i] && (#[trigger] messages[i]).value
                == #[trigger] kept[k] by {
            if k < before.len() {
                assert(kept[k] == before[k]);
                let i = choose|i: int|
                    0 <= i < front.len() && front_verdicts[i] && (#[trigger] front[i]).value
                        == before[k];
                assert(messages[i] == front[i]);
                assert(verdicts[i] == front_verdicts[i]);
            } else {
                let last = messages.len() - 1;
                assert(messages[last].value == kept[k]);
            }
        }
        assert forall|i: int| 0 <= i < messages.len() && verdicts[i] implies kept.contains(
            (#[trigger] messages[i]).value,
        ) by {
            if i < front.len() {
                assert(front[i] == messages[i]);
                assert(front_verdicts[i] == verdicts[i]);
                assert(before.contains(front[i].value));
                let k = choose|k: int| 0 <= k < before.len() && before[k] == front[i].value;
                assert(kept[k] == before[k]);
            } else {
                assert(kept[kept.len() - 1] == messages[i].value);
            }
        }
        if forall|i: int| 0 <= i < verdicts.len() ==> !verdicts[i] {
            assert forall|i: int| 0 <= i < front_verdicts.len() implies !front_verdicts[i] by {
                assert(front_verdicts[i] == verdicts[i]);
            }
        }
        if forall|i: int| 0 <= i < verdicts.len() ==> verdicts[i] {
            assert forall|i: int| 0 <= i < front_verdicts.len() implies front_verdicts[i] by {
                assert(front_verdicts[i] == verdicts[i]);
            }
            assert(kept =~= values_of(messages));
        }
    } else {
        assert(kept =~= values_of(messages));
    }
}

/// Where all verdicts but the one at `rejected` are favourable, all messages but that one are
/// retained.
pub proof fn lemma_retained_all_but_one(
    messages: Seq<ResponseView>,
    verdicts: Seq<bool>,
    rejected: int,
)
    requires
        messages.len() == verdicts.len(),
        0 <= rejected < messages.len(),
        forall|i: int| 0 <= i < verdicts.len() ==> verdicts[i] == (i != rejected),
    ensures
        retained(messages, verdicts) == values_of(messages.remove(rejected)),
    decreases messages.len(),
{
    let front = messages.drop_last();
    let front_verdicts = verdicts.drop_last();
    let last = messages.len() - 1;
    if rejected == last {
        assert forall|i: int| 0 <= i < front_verdicts.len() implies front_verdicts[i] by {
            assert(front_verdicts[i] == verdicts[i]);
        }
        lemma_retained(front, front_verdicts);
        assert(messages.remove(rejected) =~= front);
    } else {
        assert forall|i: int| 0 <= i < front_verdicts.len() implies front_verdicts[i] == (i
            != rejected) by {
            assert(front_verdicts[i] == verdicts[i]);
        }
        lemma_retained_all_but_one(front, front_verdicts, rejected);
        assert(verdicts.last());
        assert(values_of(messages.remove(rejected))
            =~= values_of(front.remove(rejected)).push(
            messages.last().value,
        ));
    }
}

/// Key responses that do not all announce the same address with the same public key void the
/// quorum: whatever the messages and however many the responses, nothing is validated.
pub proof fn law_disagreement_rejected(
    messages: Seq<ResponseView>,
    claims: Claims,
    quorum: nat,
    i: int,
    j: int,
)
    requires
        0 <= i < claims.len(),
        0 <= j < claims.len(),
        claims[i] != claims[j] || claims[i].is_none(),
    ensures
        validated_node(messages, claims, quorum) == Seq::<ResultView>::empty(),
{
    if claims_agree(claims) {
        assert(claims[i] == claims[0]);
        assert(claims[j] == claims[0]);
    }
}

/// Where the key responses of a quorum agree on a public key, the messages that are validated
/// are exactly those whose signature is valid under that key, in the order in which they were
/// collected: every validated message has a valid signature, and every message with a valid
/// signature is validated. Where the signature of just one message is not valid, the
/// others are validated, all of them.
pub proof fn law_signature_filtering(messages: Seq<ResponseView>, claims: Claims, quorum: nat)
    requires
        messages.len() > 0,
        claims.len() >= quorum,
        claims_agree(claims),
    ensures
        ({
            let public_key = claims[0].unwrap().public_key;
            let verified = validated_node(messages, claims, quorum);
            &&& forall|k: int|
                0 <= k < verified.len() ==> exists|i: int|
                    0 <= i < messages.len() && message_verifies(messages[i], public_key) && (
                    #[trigger] messages[i]).value == #[trigger] verified[k]
            &&& forall|i: int|
                0 <= i < messages.len() && message_verifies(messages[i], public_key)
                    ==> verified.contains((#[trigger] messages[i]).value)
            &&& forall|rejected: int|
                0 <= rejected < messages.len() && (forall|i: int|
                    0 <= i < messages.len() ==> message_verifies(messages[i], public_key) == (i
                        != rejected)) ==> verified == values_of(#[trigger] messages.remove(rejected))
        }),
{
    let public_key = claims[0].unwrap().public_key;
    let verdicts = verdicts_under(messages, public_key);
    let verified = validated_node(messages, claims, quorum);
    lemma_retained(messages, verdicts);
    assert forall|k: int| 0 <= k < verified.len() implies exists|i: int|
        0 <= i < messages.len() && message_verifies(messages[i], public_key) && (
        #[trigger] messages[i]).value == #[trigger] verified[k] by {
        let i = choose|i: int|
            0 <= i < messages.len() && verdicts[i] && (#[trigger] messages[i]).value == verified[k];
        assert(message_verifies(messages[i], public_key));
    }
    assert forall|i: int|
        0 <= i < messages.len() && message_verifies(
            messages[i],
            public_key,
        ) implies verified.contains((#[trigger] messages[i]).value) by {
        assert(verdicts[i]);
    }
    assert forall|rejected: int|
        0 <= rejected < messages.len() && (forall|i: int|
            0 <= i < messages.len() ==> message_verifies(messages[i], public_key) == (i
                != rejected)) implies verified == values_of(#[trigger] messages.remove(rejected)) by {
        lemma_retained_all_but_one(messages, verdicts, rejected);
    }
}

/// Picks the messages of those responses whose verdict is favourable, in their order. Where
/// the verdicts are not as many as the responses, no message is picked.
pub fn select_verified(messages: &Vec<Response>, verdicts: &Vec<bool>) -> (verified: Vec<
    ResultType,
>)
    ensures
        verified.deep_view() == retained(messages.deep_view(), verdicts@),
{
    let mut verified: Vec<ResultType> = Vec::new();
    let mut i: usize = 0;
    assert(messages.deep_view().take(0) =~= Seq::<ResponseView>::empty());
    assert(verified.deep_view() =~= Seq::<ResultView>::empty());
    if messages.len() != verdicts.len() {
        return verified;
    }
    while i < messages.len()
        invariant
            i <= messages.len(),
            messages.len() == verdicts.len(),
            verified.deep_view() == retained(
                messages.deep_view().take(i as int),
                verdicts@.take(i as int),
            ),
        decreases messages.len() - i,
    {
        let ghost before = verified.deep_view();
        proof {
            let next = messages.deep_view().take(i as int + 1);
            let next_verdicts = verdicts@.take(i as int + 1);
            assert(next.drop_last() =~= messages.deep_view().take(i as int));
            assert(next_verdicts.drop_last() =~= verdicts@.take(i as int));
            assert(next.last() == messages[i as int]@);
            assert(next_verdicts.last() == verdicts[i as int]);
        }
        if verdicts[i] {
            verified.push(clone_result(&messages[i].value));
            assert(verified.deep_view() =~= before.push(messages[i as int]@.value));
        }
        i += 1;
    }
    proof {
        assert(messages.deep_view().take(i as int) =~= messages.deep_view());
        assert(verdicts@.take(i as int) =~= verdicts@);
    }
    verified
}

/// Whether two key announcements say the same.
fn same_claim(a: &GetClientKeyResponse, b: &GetClientKeyResponse) -> (same: bool)
    ensures
        same == (a@ == b@),
{
    same_bytes(&a.address, &b.address) && same_bytes(&a.public_key, &b.public_key)
}

/// Looks for the one public key that the claims name: the key of the first claim where the
/// claims agree, and nothing where they do not.
pub fn agreed_key(claims: &Vec<Option<GetClientKeyResponse>>) -> (key: Option<Vec<u8>>)
    ensures
        key.deep_view() == agreed_public_key(claims.deep_view()),
{
    if claims.len() == 0 {
        return None;
    }
    let ghost all = claims.deep_view();
    match &claims[0] {
        None => {
            assert(all[0].is_none());
            None
        },
        Some(first) => {
            assert(all[0] == Some(first@));
            let mut i: usize = 1;
            while i < claims.len()
                invariant
                    1 <= i <= claims.len(),
                    all == claims.deep_view(),
                    all[0] == Some(first@),
                    forall|j: int| 0 <= j < i ==> (#[trigger] all[j]).is_some() && all[j] == all[0],
                decreases claims.len() - i,
            {
                match &claims[i] {
                    None => {
                        assert(all[i as int].is_none());
                        return None;
                    },
                    Some(claim) => {
                        assert(all[i as int] == Some(claim@));
                        if !same_claim(claim, first) {
                            return None;
                        }
                    },
                }
                i += 1;
            }
            let key = first.public_key.clone();
            proof {
                lemma_bytes_view(key);
            }
            Some(key)
        },
    }
}

impl Sentinel {
    /// Validates the messages of one node against the key responses of a quorum, of which
    /// `claims` holds what each announces. Where the responses are at least as many as the
    /// quorum and agree on one address and one public key, the messages whose signature is
    /// valid under that key are handed back in their order; in every other case nothing is.
    pub fn validate_node(
        &self,
        messages: Vec<Response>,
        claims: Vec<Option<GetClientKeyResponse>>,
    ) -> (verified: Vec<ResultType>)
        ensures
            verified.deep_view() == validated_node(
                messages.deep_view(),
                claims.deep_view(),
                self@.quorum,
            ),
    {
        let nothing: Vec<ResultType> = Vec::new();
        assert(nothing.deep_view() =~= Seq::<ResultView>::empty());
        if messages.len() == 0 || claims.len() < self.quorum() {
            return nothing;
        }
        match agreed_key(&claims) {
            None => nothing,
            Some(public_key) => {
                proof {
                    lemma_bytes_view(public_key);
                }
                let mut verdicts: Vec<bool> = Vec::new();
                let mut i: usize = 0;
                while i < messages.len()
                    invariant
                        i <= messages.len(),
                        verdicts.len() == i,
                        forall|j: int|
                            0 <= j < i ==> verdicts[j] == message_verifies(
                                messages.deep_view()[j],
                                public_key@,
                            ),
                    decreases messages.len() - i,
                {
                    let message = &messages[i];
                    proof {
                        assert(messages.deep_view()[i as int] == message@);
                        lemma_bytes_view(message.value.2);
                    }
                    verdicts.push(
                        check_signature(&message.value.0.signature, &message.value.2, &public_key),
                    );
                    i += 1;
                }
                assert(verdicts@ =~= verdicts_under(messages.deep_view(), public_key@));
                select_verified(&messages, &verdicts)
            },
        }
    }

    /// Validates the messages of one group against the key responses of a quorum, of which
    /// `claims` holds what each announces. A group signs with one key of its own: where the
    /// responses are at least as many as the quorum and agree on one address and one public
    /// key, the messages whose signature is valid under that key are handed back in their
    /// order; in every other case nothing is.
    pub fn validate_group(
        &self,
        messages: Vec<Response>,
        claims: Vec<Option<GetClientKeyResponse>>,
    ) -> (verified: Vec<ResultType>)
        ensures
            verified.deep_view() == validated_group(
                messages.deep_view(),
                claims.deep_view(),
                self@.quorum,
            ),
    {
        self.validate_node(messages, claims)
    }
}

} // verus!

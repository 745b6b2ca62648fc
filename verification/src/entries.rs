//! Facts about the sequence of names that a cache holds, from the least to the most recently
//! used.

use vstd::prelude::*;
use crate::lru::{holds, position, refreshed, responses_of, stored, without, Held};
use crate::response::{NameView, ResponseView};

verus! {

/// No name is held twice.
pub open spec fn distinct_names(entries: Seq<Held>) -> bool {
    forall|i: int, j: int|
        0 <= i < entries.len() && 0 <= j < entries.len() && i != j ==> (#[trigger] entries[i]).0
            != (#[trigger] entries[j]).0
}

/// Where no name is held twice, a name stands at one place only.
pub proof fn lemma_position(entries: Seq<Held>, name: NameView, i: int)
    requires
        distinct_names(entries),
        0 <= i < entries.len(),
        entries[i].0 == name,
    ensures
        holds(entries, name),
        position(entries, name) == i,
        responses_of(entries, name) == entries[i].1,
{
    let p = position(entries, name);
    assert(0 <= p < entries.len() && entries[p].0 == name);
    if p != i {
        assert(entries[p].0 != entries[i].0);
    }
}

/// Taking a name out leaves the other names as they were.
pub proof fn lemma_without(entries: Seq<Held>, name: NameView)
    requires
        distinct_names(entries),
    ensures
        distinct_names(without(entries, name)),
        !holds(without(entries, name), name),
        without(entries, name).len() == if holds(entries, name) {
            entries.len() - 1
        } else {
            entries.len() as int
        },
        forall|other: NameView|
            other != name ==> holds(without(entries, name), other) == holds(entries, other)
                && responses_of(without(entries, name), other) == responses_of(entries, other),
        forall|i: int|
            0 <= i < without(entries, name).len() ==> entries.contains(
                #[trigger] without(entries, name)[i],
            ),
{
    let after = without(entries, name);
    if holds(entries, name) {
        let p = position(entries, name);
        assert(0 <= p < entries.len() && entries[p].0 == name);
        assert forall|i: int| 0 <= i < after.len() implies after[i] == entries[if i < p {
            i
        } else {
            i + 1
        }] by {}
        assert forall|i: int, j: int|
            0 <= i < after.len() && 0 <= j < after.len() && i != j implies (#[trigger] after[i]).0
            != (#[trigger] after[j]).0 by {
            let a = if i < p { i } else { i + 1 };
            let b = if j < p { j } else { j + 1 };
            assert(after[i] == entries[a]);
            assert(after[j] == entries[b]);
        }
        if holds(after, name) {
            let q = position(after, name);
            assert(0 <= q < after.len() && after[q].0 == name);
            let a = if q < p { q } else { q + 1 };
            assert(after[q] == entries[a]);
            assert(entries[a].0 != entries[p].0);
        }
        assert forall|other: NameView| other != name implies holds(after, other) == holds(
            entries,
            other,
        ) && responses_of(after, other) == responses_of(entries, other) by {
            if holds(entries, other) {
                let q = position(entries, other);
                assert(0 <= q < entries.len() && entries[q].0 == other);
                let a = if q < p { q } else { q - 1 };
                assert(after[a] == entries[q]);
                lemma_position(after, other, a);
                lemma_position(entries, other, q);
            }
            if holds(after, other) {
                let q = position(after, other);
                assert(0 <= q < after.len() && after[q].0 == other);
                let a = if q < p { q } else { q + 1 };
                assert(after[q] == entries[a]);
                lemma_position(entries, other, a);
                lemma_position(after, other, q);
            }
        }
        assert forall|i: int| 0 <= i < after.len() implies entries.contains(
            #[trigger] after[i],
        ) by {
            let a = if i < p { i } else { i + 1 };
            assert(after[i] == entries[a]);
        }
    } else {
        assert forall|i: int| 0 <= i < after.len() implies entries.contains(
            #[trigger] after[i],
        ) by {
            assert(after[i] == entries[i]);
        }
    }
}

/// Looking a name up changes the order of the names and nothing else.
pub proof fn lemma_refreshed(entries: Seq<Held>, name: NameView)
    requires
        distinct_names(entries),
    ensures
        distinct_names(refreshed(entries, name)),
        refreshed(entries, name).len() == entries.len(),
        forall|other: NameView|
            holds(refreshed(entries, name), other) == holds(entries, other) && responses_of(
                refreshed(entries, name),
                other,
            ) == responses_of(entries, other),
        forall|i: int|
            0 <= i < refreshed(entries, name).len() ==> entries.contains(
                #[trigger] refreshed(entries, name)[i],
            ),
{
    let after = refreshed(entries, name);
    if holds(entries, name) {
        let p = position(entries, name);
        assert(0 <= p < entries.len() && entries[p].0 == name);
        let rest = without(entries, name);
        let last = rest.len() as int;
        lemma_without(entries, name);
        lemma_position(entries, name, p);
        assert(after[last] == entries[p]);
        assert forall|i: int, j: int|
            0 <= i < after.len() && 0 <= j < after.len() && i != j implies (#[trigger] after[i]).0
            != (#[trigger] after[j]).0 by {
            if i < last && j < last {
                assert(after[i] == rest[i]);
                assert(after[j] == rest[j]);
            } else if i < last {
                assert(after[i] == rest[i]);
                if rest[i].0 == name {
                    assert(holds(rest, name));
                }
            } else {
                assert(after[j] == rest[j]);
                if rest[j].0 == name {
                    assert(holds(rest, name));
                }
            }
        }
        lemma_position(after, name, last);
        assert forall|other: NameView|
            holds(after, other) == holds(entries, other) && responses_of(after, other)
                == responses_of(entries, other) by {
            if other != name {
                if holds(rest, other) {
                    let q = position(rest, other);
                    assert(0 <= q < rest.len() && rest[q].0 == other);
                    assert(after[q] == rest[q]);
                    lemma_position(after, other, q);
                    lemma_position(rest, other, q);
                }
                if holds(after, other) {
                    let q = position(after, other);
                    assert(0 <= q < after.len() && after[q].0 == other);
                    assert(q < last);
                    assert(after[q] == rest[q]);
                    lemma_position(rest, other, q);
                    lemma_position(after, other, q);
                }
            }
        }
        assert forall|i: int| 0 <= i < after.len() implies entries.contains(
            #[trigger] after[i],
        ) by {
            if i < last {
                assert(after[i] == rest[i]);
                assert(entries.contains(rest[i]));
            }
        }
    } else {
        assert forall|i: int| 0 <= i < after.len() implies entries.contains(
            #[trigger] after[i],
        ) by {
            assert(after[i] == entries[i]);
        }
    }
}

/// Storing responses under a name puts them there, keeps what the other names hold, and makes
/// room by dropping at most the least recently used name.
pub proof fn lemma_stored(
    entries: Seq<Held>,
    limit: nat,
    name: NameView,
    responses: Seq<ResponseView>,
)
    requires
        distinct_names(entries),
        entries.len() <= limit,
    ensures
        distinct_names(stored(entries, limit, name, responses)),
        stored(entries, limit, name, responses).len() <= limit,
        limit > 0 ==> holds(stored(entries, limit, name, responses), name) && responses_of(
            stored(entries, limit, name, responses),
            name,
        ) == responses,
        limit == 0 ==> stored(entries, limit, name, responses) == Seq::<Held>::empty(),
        forall|other: NameView|
            other != name && holds(stored(entries, limit, name, responses), other) ==> holds(
                entries,
                other,
            ) && responses_of(stored(entries, limit, name, responses), other) == responses_of(
                entries,
                other,
            ),
        forall|other: NameView|
            other != name && holds(entries, other) && !(!holds(entries, name) && entries.len()
                == limit && other == entries[0].0) ==> holds(
                stored(entries, limit, name, responses),
                other,
            ),
        forall|i: int|
            0 <= i < stored(entries, limit, name, responses).len() ==> entries.contains(
                #[trigger] stored(entries, limit, name, responses)[i],
            ) || stored(entries, limit, name, responses)[i] == (name, responses),
{
    let rest = without(entries, name);
    let grown = rest.push((name, responses));
    let after = stored(entries, limit, name, responses);
    let last = rest.len() as int;
    lemma_without(entries, name);
    assert(grown[last] == (name, responses));
    assert forall|i: int, j: int|
        0 <= i < grown.len() && 0 <= j < grown.len() && i != j implies (#[trigger] grown[i]).0 != (
    #[trigger] grown[j]).0 by {
        if i < last && j < last {
            assert(grown[i] == rest[i]);
            assert(grown[j] == rest[j]);
        } else if i < last {
            assert(grown[i] == rest[i]);
            if rest[i].0 == name {
                assert(holds(rest, name));
            }
        } else {
            assert(grown[j] == rest[j]);
            if rest[j].0 == name {
                assert(holds(rest, name));
            }
        }
    }
    let shift: int = if grown.len() > limit { 1 } else { 0 };
    assert forall|i: int| 0 <= i < after.len() implies #[trigger] after[i] == grown[i + shift] by {}
    assert forall|i: int, j: int|
        0 <= i < after.len() && 0 <= j < after.len() && i != j implies (#[trigger] after[i]).0 != (
    #[trigger] after[j]).0 by {
        assert(after[i] == grown[i + shift]);
        assert(after[j] == grown[j + shift]);
    }
    if limit > 0 {
        assert(after[last - shift] == grown[last]);
        lemma_position(after, name, last - shift);
    } else {
        assert(after =~= Seq::<Held>::empty());
    }
    assert forall|other: NameView| other != name && holds(after, other) implies holds(
        entries,
        other,
    ) && responses_of(after, other) == responses_of(entries, other) by {
        let q = position(after, other);
        assert(0 <= q < after.len() && after[q].0 == other);
        assert(after[q] == grown[q + shift]);
        assert(q + shift < last);
        assert(grown[q + shift] == rest[q + shift]);
        lemma_position(rest, other, q + shift);
        lemma_position(after, other, q);
    }
    assert forall|other: NameView|
        other != name && holds(entries, other) && !(!holds(entries, name) && entries.len() == limit
            && other == entries[0].0) implies holds(after, other) by {
        assert(holds(rest, other));
        let q = position(rest, other);
        assert(0 <= q < rest.len() && rest[q].0 == other);
        assert(grown[q] == rest[q]);
        if shift == 1 {
            assert(!holds(entries, name));
            assert(rest == entries);
            assert(q != 0);
        }
        assert(after[q - shift] == grown[q]);
    }
    assert forall|i: int| 0 <= i < after.len() implies entries.contains(#[trigger] after[i])
        || after[i] == (name, responses) by {
        assert(after[i] == grown[i + shift]);
        if i + shift < last {
            assert(grown[i + shift] == rest[i + shift]);
            assert(entries.contains(rest[i + shift]));
        }
    }
}

} // verus!

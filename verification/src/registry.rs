//! The registry of monitored networks: who is in it, and how an event for
//! one of them is merged.

use crate::network::{Data, NetworkView};
use crate::order::{lemma_ordered_contains, lemma_ordered_len, ordered};
use crate::tui::SortingStrategy;
use vstd::prelude::*;

verus! {

/// Whether some network of `s` is named `id`.
pub open spec fn knows(s: Seq<NetworkView>, id: Seq<char>) -> bool {
    exists|i: int| 0 <= i < s.len() && (#[trigger] s[i]).name == id
}

/// The identifiers of the networks in `s`.
pub open spec fn identifiers(s: Seq<NetworkView>) -> Set<Seq<char>> {
    Set::new(|id: Seq<char>| knows(s, id))
}

/// Whether `at` is the position of the first network named `id`.
pub open spec fn is_first_named(s: Seq<NetworkView>, id: Seq<char>, at: int) -> bool {
    &&& 0 <= at < s.len()
    &&& s[at].name == id
    &&& forall|j: int| 0 <= j < at ==> (#[trigger] s[j]).name != id
}

/// Position of the first network named `id`; the length of `s` when no
/// network has that name.
pub open spec fn first_named(s: Seq<NetworkView>, id: Seq<char>) -> int
    decreases s.len(),
{
    if s.len() == 0 {
        0
    } else if first_named(s.drop_last(), id) < s.len() - 1 {
        first_named(s.drop_last(), id)
    } else if s.last().name == id {
        s.len() - 1
    } else {
        s.len() as int
    }
}

/// The registry after an event for `id` that carries `data`: the first
/// network named `id` has its measurements replaced as a whole, and an event
/// for an unknown identifier changes nothing.
pub open spec fn merged(s: Seq<NetworkView>, id: Seq<char>, data: Option<Data>) -> Seq<
    NetworkView,
> {
    let at = first_named(s, id);
    if at < s.len() {
        s.update(at, s[at].with_data(data))
    } else {
        s
    }
}

/// `first_named` is the first position with the name, and past the end
/// exactly if the name is unknown.
pub proof fn lemma_first_named(s: Seq<NetworkView>, id: Seq<char>)
    ensures
        0 <= first_named(s, id) <= s.len(),
        first_named(s, id) < s.len() <==> knows(s, id),
        first_named(s, id) < s.len() ==> is_first_named(s, id, first_named(s, id)),
    decreases s.len(),
{
    if s.len() > 0 {
        let rest = s.drop_last();
        lemma_first_named(rest, id);
        let at = first_named(rest, id);
        if at < rest.len() {
            assert(s[at] == rest[at]);
            assert forall|j: int| 0 <= j < at implies (#[trigger] s[j]).name != id by {
                assert(rest[j] == s[j]);
            }
        } else if s.last().name == id {
            assert forall|j: int| 0 <= j < s.len() - 1 implies (#[trigger] s[j]).name != id by {
                assert(rest[j] == s[j]);
            }
        } else {
            if knows(s, id) {
                let i = choose|i: int| 0 <= i < s.len() && (#[trigger] s[i]).name == id;
                assert(rest[i] == s[i]);
            }
        }
    }
}

/// A position that holds the name, with no earlier one that does, is what
/// `first_named` gives.
pub proof fn lemma_first_named_found(s: Seq<NetworkView>, id: Seq<char>, at: int)
    requires
        is_first_named(s, id, at),
    ensures
        first_named(s, id) == at,
{
    lemma_first_named(s, id);
    assert(knows(s, id));
}

/// Merging keeps every network where it is, with all of its description;
/// only the measurements of the first network named `id` change.
pub proof fn lemma_merged_touches_one(s: Seq<NetworkView>, id: Seq<char>, data: Option<Data>)
    ensures
        merged(s, id, data).len() == s.len(),
        forall|i: int|
            0 <= i < s.len() ==> (#[trigger] merged(s, id, data)[i]) == (if i == first_named(
                s,
                id,
            ) {
                s[i].with_data(data)
            } else {
                s[i]
            }),
        forall|i: int| 0 <= i < s.len() ==> (#[trigger] merged(s, id, data)[i]).name == s[i].name,
{
    lemma_first_named(s, id);
}

/// Unknown-identifier no-op: an event whose identifier no network has
/// leaves the registry as it is, and with it the measurements of every
/// network.
pub proof fn lemma_unknown_is_dropped(s: Seq<NetworkView>, id: Seq<char>, data: Option<Data>)
    requires
        !knows(s, id),
    ensures
        merged(s, id, data) == s,
{
    lemma_first_named(s, id);
}

/// Merging an event keeps the set of identifiers.
pub proof fn lemma_merged_identifiers(s: Seq<NetworkView>, id: Seq<char>, data: Option<Data>)
    ensures
        identifiers(merged(s, id, data)) == identifiers(s),
{
    let m = merged(s, id, data);
    lemma_merged_touches_one(s, id, data);
    assert forall|name: Seq<char>| knows(m, name) <==> knows(s, name) by {
        if knows(m, name) {
            let i = choose|i: int| 0 <= i < m.len() && (#[trigger] m[i]).name == name;
            assert(s[i].name == name);
        }
        if knows(s, name) {
            let i = choose|i: int| 0 <= i < s.len() && (#[trigger] s[i]).name == name;
            assert(m[i].name == name);
        }
    }
    assert(identifiers(m) =~= identifiers(s));
}

/// Ordering keeps the set of identifiers.
pub proof fn lemma_ordered_identifiers(s: Seq<NetworkView>, by: SortingStrategy)
    ensures
        identifiers(ordered(s, by)) == identifiers(s),
{
    let o = ordered(s, by);
    lemma_ordered_len(s, by);
    assert forall|name: Seq<char>| knows(o, name) <==> knows(s, name) by {
        if knows(o, name) {
            let i = choose|i: int| 0 <= i < o.len() && (#[trigger] o[i]).name == name;
            lemma_ordered_contains(s, by, o[i]);
            assert(o.contains(o[i]));
            let j = choose|j: int| 0 <= j < s.len() && s[j] == o[i];
            assert(s[j].name == name);
        }
        if knows(s, name) {
            let i = choose|i: int| 0 <= i < s.len() && (#[trigger] s[i]).name == name;
            lemma_ordered_contains(s, by, s[i]);
            assert(s.contains(s[i]));
            let j = choose|j: int| 0 <= j < o.len() && o[j] == s[i];
            assert(o[j].name == name);
        }
    }
    assert(identifiers(o) =~= identifiers(s));
}

} // verus!

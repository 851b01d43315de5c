//! Which batches of vectors are accepted, what they give, and how the others are refused, said of
//! the items' indexes, lengths and components.
use vstd::prelude::*;

#[allow(unused_imports)]
use crate::response::{
    assembled, first_fault, is_finite, is_indexed, is_taken, is_usable, item_fault, item_views,
    outcome_view, slot_of, vector_view, vector_views, EmbeddingItem, IndexField, ItemView,
    ResponseError,
};
#[allow(unused_imports)]
use crate::response_laws::{is_sound, law_all_or_nothing, law_vectors_follow_slots};

verus! {

/// A batch is accepted exactly if there is one item per text, no item has an index or all have a
/// different one in range, every item has a vector with components, none of which has all
/// exponent bits set, and all vectors have one length.
pub proof fn law_which_batches_are_accepted(items: Seq<ItemView>, expected: usize)
    ensures
        assembled(items, expected) is Ok <==> {
            &&& items.len() == expected
            &&& {
                ||| forall|i: int|
                    0 <= i < items.len() ==> (#[trigger] items[i]).index == IndexField::Absent
                ||| {
                    &&& forall|i: int|
                        0 <= i < items.len() ==> match (#[trigger] items[i]).index {
                            IndexField::Number(index) => index < expected,
                            _ => false,
                        }
                    &&& forall|i: int, j: int|
                        0 <= i < j < items.len() ==> (#[trigger] items[i]).index != (
                        #[trigger] items[j]).index
                }
            }
            &&& forall|i: int|
                0 <= i < items.len() ==> match (#[trigger] items[i]).vector {
                    Some(vector) => {
                        &&& vector.len() > 0
                        &&& forall|c: int|
                            0 <= c < vector.len() ==> (#[trigger] vector[c] / 0x80_0000) % 256
                                != 255
                    },
                    None => false,
                }
            &&& forall|i: int, j: int|
                0 <= i < items.len() && 0 <= j < items.len() ==> (
                #[trigger] items[i]).vector->Some_0.len() == (
                #[trigger] items[j]).vector->Some_0.len()
        },
{
    law_all_or_nothing(items, expected);
    let unindexed = forall|i: int|
        0 <= i < items.len() ==> (#[trigger] items[i]).index == IndexField::Absent;
    assert(unindexed <==> !is_indexed(items));
    let complete = forall|i: int|
        0 <= i < items.len() ==> match (#[trigger] items[i]).index {
            IndexField::Number(index) => index < expected,
            _ => false,
        };
    let unique = forall|i: int, j: int|
        0 <= i < j < items.len() ==> (#[trigger] items[i]).index != (#[trigger] items[j]).index;
    let vectors = forall|i: int|
        0 <= i < items.len() ==> match (#[trigger] items[i]).vector {
            Some(vector) => {
                &&& vector.len() > 0
                &&& forall|c: int|
                    0 <= c < vector.len() ==> (#[trigger] vector[c] / 0x80_0000) % 256 != 255
            },
            None => false,
        };
    if is_sound(items, expected) {
        assert forall|i: int| 0 <= i < items.len() implies match (#[trigger] items[i]).vector {
            Some(vector) => {
                &&& vector.len() > 0
                &&& forall|c: int|
                    0 <= c < vector.len() ==> (#[trigger] vector[c] / 0x80_0000) % 256 != 255
            },
            None => false,
        } by {
            assert(slot_of(items, expected, i) is Some);
            let vector = items[i].vector->Some_0;
            assert forall|c: int| 0 <= c < vector.len() implies (#[trigger] vector[c] / 0x80_0000)
                % 256 != 255 by {
                assert(is_finite(vector[c]));
            }
        }
        if is_indexed(items) {
            assert forall|i: int| 0 <= i < items.len() implies match (#[trigger] items[i]).index {
                IndexField::Number(index) => index < expected,
                _ => false,
            } by {
                assert(slot_of(items, expected, i) is Some);
            }
            assert forall|i: int, j: int| 0 <= i < j < items.len() implies (
            #[trigger] items[i]).index != (#[trigger] items[j]).index by {
                assert(slot_of(items, expected, i) != slot_of(items, expected, j));
            }
        }
    }
    if items.len() == expected && (unindexed || (complete && unique)) && vectors && (forall|
        i: int,
        j: int,
    |
        0 <= i < items.len() && 0 <= j < items.len() ==> (#[trigger] items[i]).vector->Some_0.len()
            == (#[trigger] items[j]).vector->Some_0.len()) {
        assert forall|i: int| 0 <= i < items.len() implies {
            &&& #[trigger] slot_of(items, expected, i) is Some
            &&& items[i].vector is Some
            &&& is_usable(items[i].vector->Some_0)
        } by {
            assert(items[i].vector is Some);
            if is_indexed(items) {
                assert(!unindexed);
                assert(items[i].index is Number);
            }
        }
        assert forall|i: int, j: int| 0 <= i < j < items.len() implies #[trigger] slot_of(
            items,
            expected,
            i,
        ) != #[trigger] slot_of(items, expected, j) by {
            if is_indexed(items) {
                assert(items[i].index != items[j].index);
                assert(items[i].index is Number && items[j].index is Number);
            }
        }
        assert(is_sound(items, expected));
    }
}

/// One vector per text, all of the same length, whatever that length is, with components whose
/// exponent bits are not all set, and with no index or complete ones: such a batch is accepted.
pub proof fn law_uniform_batches_are_accepted(items: Seq<ItemView>, expected: usize, dimension: nat)
    requires
        items.len() == expected,
        dimension >= 1,
        forall|i: int|
            0 <= i < items.len() ==> match (#[trigger] items[i]).vector {
                Some(vector) => {
                    &&& vector.len() == dimension
                    &&& forall|c: int|
                        0 <= c < dimension ==> (#[trigger] vector[c] / 0x80_0000) % 256 != 255
                },
                None => false,
            },
        (forall|i: int|
            0 <= i < items.len() ==> (#[trigger] items[i]).index == IndexField::Absent) || ((
        forall|i: int|
            0 <= i < items.len() ==> match (#[trigger] items[i]).index {
                IndexField::Number(index) => index < expected,
                _ => false,
            }) && (forall|i: int, j: int|
            0 <= i < j < items.len() ==> (#[trigger] items[i]).index != (
            #[trigger] items[j]).index)),
    ensures
        assembled(items, expected) is Ok,
{
    law_which_batches_are_accepted(items, expected);
    assert forall|i: int| 0 <= i < items.len() implies match (#[trigger] items[i]).vector {
        Some(vector) => {
            &&& vector.len() > 0
            &&& vector.len() == dimension
            &&& forall|c: int|
                0 <= c < vector.len() ==> (#[trigger] vector[c] / 0x80_0000) % 256 != 255
        },
        None => false,
    } by {}
    assert forall|i: int, j: int| 0 <= i < items.len() && 0 <= j < items.len() implies (
    #[trigger] items[i]).vector->Some_0.len() == (#[trigger] items[j]).vector->Some_0.len() by {
        assert(items[i].vector->Some_0.len() == dimension);
        assert(items[j].vector->Some_0.len() == dimension);
    }
}

/// An accepted batch gives as many vectors as there are texts. The item with the index `k` has the
/// vector of the text `k`; without indexes, the item at `k` has it.
pub proof fn law_what_accepted_batches_give(items: Seq<ItemView>, expected: usize)
    requires
        assembled(items, expected) is Ok,
    ensures
        assembled(items, expected)->Ok_0.len() == expected,
        forall|i: int|
            0 <= i < items.len() ==> match (#[trigger] items[i]).index {
                IndexField::Number(k) => {
                    &&& k < expected
                    &&& items[i].vector == Some(assembled(items, expected)->Ok_0[k as int])
                },
                IndexField::Absent => items[i].vector == Some(assembled(items, expected)->Ok_0[i]),
                IndexField::Unusable => false,
            },
{
    law_which_batches_are_accepted(items, expected);
    law_vectors_follow_slots(items, expected);
    assert forall|i: int| 0 <= i < items.len() implies match (#[trigger] items[i]).index {
        IndexField::Number(k) => {
            &&& k < expected
            &&& items[i].vector == Some(assembled(items, expected)->Ok_0[k as int])
        },
        IndexField::Absent => items[i].vector == Some(assembled(items, expected)->Ok_0[i]),
        IndexField::Unusable => false,
    } by {
        assert(slot_of(items, expected, i) is Some);
    }
}

/// A batch with another number of items is refused for its count, and no other batch is.
pub proof fn law_counts_are_compared_first(items: Seq<ItemView>, expected: usize)
    ensures
        items.len() != expected ==> assembled(items, expected) == Err::<
            Seq<Seq<u32>>,
            ResponseError,
        >(ResponseError::CountMismatch { expected, got: items.len() as usize }),
        items.len() == expected ==> match assembled(items, expected) {
            Err(ResponseError::CountMismatch { .. }) => false,
            Err(ResponseError::MissingData) => false,
            _ => true,
        },
{
    if items.len() == expected {
        lemma_faults_are_of_items(items, expected, 0);
    }
}

proof fn lemma_faults_are_of_items(items: Seq<ItemView>, expected: usize, i: int)
    requires
        0 <= i,
    ensures
        match first_fault(items, expected, i) {
            Some(ResponseError::CountMismatch { .. }) => false,
            Some(ResponseError::MissingData) => false,
            _ => true,
        },
    decreases items.len() - i,
{
    if i < items.len() {
        lemma_faults_are_of_items(items, expected, i + 1);
    }
}

/// Nothing is wrong with the items before `p`, taken by themselves.
pub open spec fn clean_before(items: Seq<ItemView>, expected: usize, p: int) -> bool {
    &&& {
        ||| forall|i: int|
            0 <= i < items.len() ==> (#[trigger] items[i]).index == IndexField::Absent
        ||| {
            &&& forall|i: int|
                0 <= i < p ==> match (#[trigger] items[i]).index {
                    IndexField::Number(index) => index < expected,
                    _ => false,
                }
            &&& forall|i: int, j: int|
                0 <= i < j < p ==> (#[trigger] items[i]).index != (#[trigger] items[j]).index
        }
    }
    &&& forall|i: int|
        0 <= i < p ==> match (#[trigger] items[i]).vector {
            Some(vector) => {
                &&& vector.len() > 0
                &&& vector.len() == items[0].vector->Some_0.len()
                &&& forall|c: int|
                    0 <= c < vector.len() ==> (#[trigger] vector[c] / 0x80_0000) % 256 != 255
            },
            None => false,
        }
}

/// No item has an index, or the item at `p` has one in range that no item before it has.
pub open spec fn fresh_index_at(items: Seq<ItemView>, expected: usize, p: int) -> bool {
    ||| forall|i: int| 0 <= i < items.len() ==> (#[trigger] items[i]).index == IndexField::Absent
    ||| match items[p].index {
        IndexField::Number(index) => index < expected && forall|i: int|
            0 <= i < p ==> (#[trigger] items[i]).index != items[p].index,
        _ => false,
    }
}

proof fn lemma_first_fault_at(items: Seq<ItemView>, expected: usize, from: int, p: int)
    requires
        0 <= from <= p < items.len(),
        items.len() == expected,
        clean_before(items, expected, p),
    ensures
        first_fault(items, expected, from) == first_fault(items, expected, p),
    decreases p - from,
{
    if from < p {
        lemma_first_fault_at(items, expected, from + 1, p);
        assert(items[from].vector is Some);
        let vector = items[from].vector->Some_0;
        assert forall|c: int| 0 <= c < vector.len() implies is_finite(#[trigger] vector[c]) by {
            assert((vector[c] / 0x80_0000) % 256 != 255);
        }
        lemma_slots(items, expected);
        assert(items[0].vector is Some);
        if is_indexed(items) {
            let k = choose|k: int|
                0 <= k < items.len() && (#[trigger] items[k]).index != IndexField::Absent;
            assert(items[k].index != IndexField::Absent);
            assert(items[from].index is Number);
        }
        let slot = slot_of(items, expected, from)->Some_0;
        if is_taken(items, expected, from, slot) {
            let j = choose|j: int|
                0 <= j < from && #[trigger] slot_of(items, expected, j) == Some(slot);
            if is_indexed(items) {
                assert(items[j].index != items[from].index);
                assert(items[j].index is Number);
            }
        }
        assert(item_fault(items, expected, from) is None);
    }
}

proof fn lemma_slots(items: Seq<ItemView>, expected: usize)
    ensures
        is_indexed(items) <==> !(forall|i: int|
            0 <= i < items.len() ==> (#[trigger] items[i]).index == IndexField::Absent),
{
}

/// Where the first fault of a batch is that an item has no index in range though some item has one,
/// the batch is refused for that item's index.
pub proof fn law_missing_indexes_are_refused(items: Seq<ItemView>, expected: usize, p: int)
    requires
        items.len() == expected,
        0 <= p < items.len(),
        clean_before(items, expected, p),
        exists|i: int| 0 <= i < items.len() && (#[trigger] items[i]).index != IndexField::Absent,
        match items[p].index {
            IndexField::Number(index) => index >= expected,
            _ => true,
        },
    ensures
        assembled(items, expected) == Err::<Seq<Seq<u32>>, ResponseError>(
            ResponseError::InvalidIndex { position: p as usize },
        ),
{
    lemma_first_fault_at(items, expected, 0, p);
    lemma_slots(items, expected);
}

/// Where the first fault of a batch is that an item has the index of an item before it, the batch is
/// refused for that index.
pub proof fn law_repeated_indexes_are_refused(
    items: Seq<ItemView>,
    expected: usize,
    p: int,
    earlier: int,
    index: u64,
)
    requires
        items.len() == expected,
        0 <= earlier < p < items.len(),
        clean_before(items, expected, p),
        items[p].index == IndexField::Number(index),
        items[earlier].index == IndexField::Number(index),
    ensures
        assembled(items, expected) == Err::<Seq<Seq<u32>>, ResponseError>(
            ResponseError::DuplicateIndex { index: index as usize },
        ),
{
    lemma_first_fault_at(items, expected, 0, p);
    lemma_slots(items, expected);
    assert(is_indexed(items)) by {
        assert(items[p].index != IndexField::Absent);
    }
    assert(index < expected) by {
        assert(items[earlier].index is Number);
    }
    assert(slot_of(items, expected, earlier) == Some(index as int));
    assert(is_taken(items, expected, p, index as int));
}

/// Where the first fault of a batch is an item's vector, the batch is refused for it: for having
/// none, for being empty or having a component that is not finite, or for its length, in this
/// order.
pub proof fn law_faulty_vectors_are_refused(items: Seq<ItemView>, expected: usize, p: int)
    requires
        items.len() == expected,
        0 <= p < items.len(),
        clean_before(items, expected, p),
        fresh_index_at(items, expected, p),
    ensures
        match items[p].vector {
            None => assembled(items, expected) == Err::<Seq<Seq<u32>>, ResponseError>(
                ResponseError::NotAVector { position: p as usize },
            ),
            Some(vector) => {
                &&& vector.len() == 0 || (exists|c: int|
                    0 <= c < vector.len() && (#[trigger] vector[c] / 0x80_0000) % 256 == 255)
                    ==> assembled(items, expected) == Err::<Seq<Seq<u32>>, ResponseError>(
                    ResponseError::InvalidVector { position: p as usize },
                )
                &&& p > 0 && vector.len() > 0 && vector.len() != items[0].vector->Some_0.len() && (
                forall|c: int|
                    0 <= c < vector.len() ==> (#[trigger] vector[c] / 0x80_0000) % 256 != 255)
                    ==> assembled(items, expected) == Err::<Seq<Seq<u32>>, ResponseError>(
                    ResponseError::InconsistentDimensions { position: p as usize },
                )
            },
        },
{
    lemma_first_fault_at(items, expected, 0, p);
    lemma_slots(items, expected);
    assert(slot_of(items, expected, p) is Some);
    let slot = slot_of(items, expected, p)->Some_0;
    if is_taken(items, expected, p, slot) {
        let j = choose|j: int| 0 <= j < p && #[trigger] slot_of(items, expected, j) == Some(slot);
        if is_indexed(items) {
            assert(items[j].index != items[p].index);
            assert(items[j].index is Number);
        }
    }
    if let Some(vector) = items[p].vector {
        if exists|c: int| 0 <= c < vector.len() && (#[trigger] vector[c] / 0x80_0000) % 256 == 255 {
            let c = choose|c: int|
                0 <= c < vector.len() && (#[trigger] vector[c] / 0x80_0000) % 256 == 255;
            assert(!is_finite(vector[c]));
        }
        if p > 0 {
            assert(items[0].vector is Some);
        }
        if forall|c: int|
            0 <= c < vector.len() ==> (#[trigger] vector[c] / 0x80_0000) % 256 != 255 {
            assert forall|c: int| 0 <= c < vector.len() implies is_finite(#[trigger] vector[c]) by {
                assert((vector[c] / 0x80_0000) % 256 != 255);
            }
        }
    }
}

/// The view of an optional vector has its components, or is nothing where there is none.
pub proof fn law_vector_views_keep_the_components(vector: Option<Vec<u32>>)
    ensures
        match vector {
            Some(components) => vector_view(vector) == Some(components@),
            None => vector_view(vector) is None,
        },
{
}

/// The view of items has every item, in order, with its index and its components.
pub proof fn law_item_views_keep_every_item(items: Seq<EmbeddingItem>)
    ensures
        item_views(items).len() == items.len(),
        forall|i: int|
            0 <= i < items.len() ==> {
                &&& (#[trigger] item_views(items)[i]).index == items[i].index
                &&& match items[i].vector {
                    Some(vector) => item_views(items)[i].vector == Some(vector@),
                    None => item_views(items)[i].vector is None,
                }
            },
{
}

/// The view of vectors has every vector, in order, with its components.
pub proof fn law_vector_views_keep_every_vector(vectors: Seq<Vec<u32>>)
    ensures
        vector_views(vectors).len() == vectors.len(),
        forall|i: int| 0 <= i < vectors.len() ==> #[trigger] vector_views(vectors)[i]
            == vectors[i]@,
{
}

/// The view of an outcome keeps the vectors of a success and the error of a failure.
pub proof fn law_outcome_views_keep_the_outcome(outcome: Result<Vec<Vec<u32>>, ResponseError>)
    ensures
        match outcome {
            Ok(vectors) => {
                &&& outcome_view(outcome) is Ok
                &&& outcome_view(outcome)->Ok_0.len() == vectors@.len()
                &&& forall|i: int|
                    0 <= i < vectors@.len() ==> #[trigger] outcome_view(outcome)->Ok_0[i]
                        == vectors@[i]@
            },
            Err(error) => outcome_view(outcome) == Err::<Seq<Seq<u32>>, ResponseError>(error),
        },
{
}

} // verus!

//! What holds of every response that is read.
use vstd::prelude::*;

#[allow(unused_imports)]
use crate::response::{
    assembled, first_fault, is_indexed, is_taken, is_usable, item_fault, item_for, slot_of,
    IndexField, ItemView, ResponseError,
};
#[allow(unused_imports)]
use crate::json::{json_member, Json};
#[allow(unused_imports)]
use crate::response::{
    decodes_by, embedding_member, index_member, items_by, may_decode, may_parse, may_read,
    parsed_by, response_data,
};
#[allow(unused_imports)]
use crate::response::{lemma_no_fault, lemma_parse_is_determined, lemma_slots_covered};

verus! {

/// Every item answers a text of its own, with a usable vector, and all vectors have one length.
pub open spec fn is_sound(items: Seq<ItemView>, expected: usize) -> bool {
    &&& items.len() == expected
    &&& forall|i: int|
        0 <= i < items.len() ==> {
            &&& #[trigger] slot_of(items, expected, i) is Some
            &&& items[i].vector is Some
            &&& is_usable(items[i].vector->Some_0)
        }
    &&& forall|i: int, j: int|
        0 <= i < j < items.len() ==> #[trigger] slot_of(items, expected, i) != #[trigger] slot_of(
            items,
            expected,
            j,
        )
    &&& forall|i: int, j: int|
        0 <= i < items.len() && 0 <= j < items.len() ==> (#[trigger] items[i]).vector->Some_0.len()
            == (#[trigger] items[j]).vector->Some_0.len()
}

/// A response is taken as a whole or refused as a whole: it is accepted exactly if nothing is
/// wrong with any of its items.
pub proof fn law_all_or_nothing(items: Seq<ItemView>, expected: usize)
    ensures
        assembled(items, expected) is Ok <==> is_sound(items, expected),
{
    if items.len() == expected {
        lemma_no_fault(items, expected, 0);
        if first_fault(items, expected, 0) is None {
            assert forall|i: int| 0 <= i < items.len() implies {
                &&& #[trigger] slot_of(items, expected, i) is Some
                &&& items[i].vector is Some
                &&& is_usable(items[i].vector->Some_0)
                &&& items[i].vector->Some_0.len() == items[0].vector->Some_0.len()
            } by {
                assert(item_fault(items, expected, i) is None);
                assert(item_fault(items, expected, 0) is None);
            }
            assert forall|i: int, j: int| 0 <= i < j < items.len() implies #[trigger] slot_of(
                items,
                expected,
                i,
            ) != #[trigger] slot_of(items, expected, j) by {
                assert(item_fault(items, expected, j) is None);
                assert(!is_taken(items, expected, j, slot_of(items, expected, j)->Some_0));
            }
            assert forall|i: int, j: int|
                0 <= i < items.len() && 0 <= j < items.len() implies (
            #[trigger] items[i]).vector->Some_0.len() == (
            #[trigger] items[j]).vector->Some_0.len() by {
                assert(slot_of(items, expected, i) is Some);
                assert(slot_of(items, expected, j) is Some);
            }
        }
        if is_sound(items, expected) {
            assert forall|i: int| 0 <= i < items.len() implies #[trigger] item_fault(
                items,
                expected,
                i,
            ) is None by {
                let slot = slot_of(items, expected, i)->Some_0;
                assert(slot_of(items, expected, i) is Some);
                if is_taken(items, expected, i, slot) {
                    let j = choose|j: int|
                        0 <= j < i && #[trigger] slot_of(items, expected, j) == Some(slot);
                    assert(slot_of(items, expected, j) != slot_of(items, expected, i));
                }
                assert(items[0].vector->Some_0.len() == items[i].vector->Some_0.len());
            }
        }
    }
}

/// An accepted response gives one vector per text; each has components, all of them finite, and
/// all vectors have one length.
pub proof fn law_vectors_are_uniform(items: Seq<ItemView>, expected: usize)
    requires
        assembled(items, expected) is Ok,
    ensures
        assembled(items, expected)->Ok_0.len() == expected,
        forall|slot: int|
            0 <= slot < expected ==> is_usable(#[trigger] assembled(items, expected)->Ok_0[slot]),
        forall|s: int, t: int|
            0 <= s < expected && 0 <= t < expected ==> (
            #[trigger] assembled(items, expected)->Ok_0[s]).len() == (
            #[trigger] assembled(items, expected)->Ok_0[t]).len(),
{
    law_all_or_nothing(items, expected);
    lemma_slots_covered(items, expected);
    let vectors = assembled(items, expected)->Ok_0;
    assert forall|slot: int| 0 <= slot < expected implies {
        &&& is_usable(#[trigger] vectors[slot])
        &&& vectors[slot].len() == items[0].vector->Some_0.len()
    } by {
        let i = item_for(items, expected, slot);
        assert(slot_of(items, expected, i) == Some(slot));
        assert(items[i].vector->Some_0.len() == items[0].vector->Some_0.len());
    }
}

/// Each vector of an accepted response goes to the text that its item answers.
pub proof fn law_vectors_follow_slots(items: Seq<ItemView>, expected: usize)
    requires
        assembled(items, expected) is Ok,
    ensures
        forall|i: int| #![trigger items[i]]
            0 <= i < items.len() ==> {
                &&& slot_of(items, expected, i) is Some
                &&& 0 <= slot_of(items, expected, i)->Some_0 < expected
                &&& Some(
                    assembled(items, expected)->Ok_0[slot_of(items, expected, i)->Some_0],
                ) == items[i].vector
            },
{
    law_all_or_nothing(items, expected);
    lemma_slots_covered(items, expected);
    assert forall|i: int| #![trigger items[i]] 0 <= i < items.len() implies {
        &&& slot_of(items, expected, i) is Some
        &&& 0 <= slot_of(items, expected, i)->Some_0 < expected
        &&& Some(assembled(items, expected)->Ok_0[slot_of(items, expected, i)->Some_0])
            == items[i].vector
    } by {
        let slot = slot_of(items, expected, i)->Some_0;
        assert(slot_of(items, expected, i) is Some);
        assert(item_for(items, expected, slot) == i);
    }
}

/// Some item has this index.
pub open spec fn is_named(items: Seq<ItemView>, index: u64) -> bool {
    exists|i: int|
        0 <= i < items.len() && (#[trigger] items[i]).index == IndexField::Number(index)
}

/// As soon as one item has an index, the indexes decide: in an accepted response every item has
/// one, every text is named by exactly one item, and gets the vector of that item.
pub proof fn law_indexes_are_complete_and_unique(items: Seq<ItemView>, expected: usize)
    requires
        is_indexed(items),
        assembled(items, expected) is Ok,
    ensures
        forall|i: int| #![trigger items[i]]
            0 <= i < items.len() ==> {
                &&& items[i].index matches IndexField::Number(index)
                &&& index < expected
                &&& items[i].vector == Some(assembled(items, expected)->Ok_0[index as int])
            },
        forall|index: u64| index < expected ==> #[trigger] is_named(items, index),
        forall|i: int, j: int|
            0 <= i < j < items.len() ==> (#[trigger] items[i]).index != (
            #[trigger] items[j]).index,
{
    law_all_or_nothing(items, expected);
    law_vectors_follow_slots(items, expected);
    lemma_slots_covered(items, expected);
    assert forall|index: u64| index < expected implies #[trigger] is_named(items, index) by {
        let i = item_for(items, expected, index as int);
        assert(slot_of(items, expected, i) == Some(index as int));
        assert(items[i].index == IndexField::Number(index));
    }
    assert forall|i: int, j: int| 0 <= i < j < items.len() implies (#[trigger] items[i]).index != (
    #[trigger] items[j]).index by {
        assert(slot_of(items, expected, i) != slot_of(items, expected, j));
    }
}

/// Where no item has an index, the vectors keep the order of the items.
pub proof fn law_order_is_kept_without_indexes(items: Seq<ItemView>, expected: usize)
    requires
        !is_indexed(items),
        assembled(items, expected) is Ok,
    ensures
        forall|i: int| #![trigger items[i]]
            0 <= i < expected ==> items[i].vector == Some(assembled(items, expected)->Ok_0[i]),
{
    law_all_or_nothing(items, expected);
    law_vectors_follow_slots(items, expected);
}

/// `order` lists every position below `len` once.
pub open spec fn is_order(order: Seq<int>, len: nat) -> bool {
    &&& order.len() == len
    &&& forall|i: int| 0 <= i < len ==> 0 <= #[trigger] order[i] < len
    &&& forall|i: int, j: int| 0 <= i < j < len ==> #[trigger] order[i] != #[trigger] order[j]
}

/// The items in the order given.
pub open spec fn reordered(items: Seq<ItemView>, order: Seq<int>) -> Seq<ItemView> {
    Seq::new(order.len(), |i: int| items[order[i]])
}

/// Where `order` lists the position `k`.
spec fn place_of(order: Seq<int>, k: int) -> int {
    choose|i: int| 0 <= i < order.len() && #[trigger] order[i] == k
}

proof fn lemma_order_covers(order: Seq<int>, len: nat)
    requires
        is_order(order, len),
    ensures
        forall|k: int|
            0 <= k < len ==> {
                &&& 0 <= #[trigger] place_of(order, k) < len
                &&& order[place_of(order, k)] == k
            },
{
    let range = vstd::set_lib::set_int_range(0, len as int);
    assert(order.no_duplicates());
    order.unique_seq_to_set();
    vstd::set_lib::lemma_int_range(0, len as int);
    vstd::seq_lib::seq_to_set_is_finite(order);
    assert forall|k: int| order.to_set().contains(k) implies range.contains(k) by {
        let i = choose|i: int| 0 <= i < order.len() && order[i] == k;
        assert(0 <= order[i] < len);
    }
    vstd::set_lib::lemma_subset_equality(order.to_set(), range);
    assert forall|k: int| 0 <= k < len implies {
        &&& 0 <= #[trigger] place_of(order, k) < len
        &&& order[place_of(order, k)] == k
    } by {
        assert(range.contains(k));
        assert(order.to_set().contains(k));
    }
}

proof fn lemma_reordered_slots(items: Seq<ItemView>, order: Seq<int>, expected: usize)
    requires
        is_indexed(items),
        is_order(order, items.len()),
    ensures
        is_indexed(reordered(items, order)),
        forall|i: int|
            0 <= i < items.len() ==> #[trigger] slot_of(reordered(items, order), expected, i)
                == slot_of(items, expected, order[i]),
{
    lemma_order_covers(order, items.len());
    let k = choose|k: int|
        0 <= k < items.len() && (#[trigger] items[k]).index != IndexField::Absent;
    assert(order[place_of(order, k)] == k);
    assert(reordered(items, order)[place_of(order, k)].index != IndexField::Absent);
}

proof fn lemma_reordered_soundness(items: Seq<ItemView>, order: Seq<int>, expected: usize)
    requires
        is_indexed(items),
        is_order(order, items.len()),
    ensures
        is_sound(items, expected) <==> is_sound(reordered(items, order), expected),
{
    let other = reordered(items, order);
    lemma_reordered_slots(items, order, expected);
    lemma_order_covers(order, items.len());
    if is_sound(items, expected) {
        assert forall|i: int| 0 <= i < other.len() implies {
            &&& #[trigger] slot_of(other, expected, i) is Some
            &&& other[i].vector is Some
            &&& is_usable(other[i].vector->Some_0)
        } by {
            assert(slot_of(items, expected, order[i]) is Some);
        }
        assert forall|i: int, j: int| 0 <= i < j < other.len() implies #[trigger] slot_of(
            other,
            expected,
            i,
        ) != #[trigger] slot_of(other, expected, j) by {
            assert(order[i] != order[j]);
            if order[i] < order[j] {
                assert(slot_of(items, expected, order[i]) != slot_of(items, expected, order[j]));
            } else {
                assert(slot_of(items, expected, order[j]) != slot_of(items, expected, order[i]));
            }
        }
        assert(is_sound(other, expected));
    }
    if is_sound(other, expected) {
        assert forall|k: int| 0 <= k < items.len() implies other[#[trigger] place_of(order, k)]
            == items[k] by {
            assert(order[place_of(order, k)] == k);
        }
        assert forall|k: int| 0 <= k < items.len() implies {
            &&& #[trigger] slot_of(items, expected, k) is Some
            &&& items[k].vector is Some
            &&& is_usable(items[k].vector->Some_0)
        } by {
            assert(other[place_of(order, k)] == items[k]);
            assert(slot_of(other, expected, place_of(order, k)) is Some);
        }
        assert forall|k: int, l: int| 0 <= k < l < items.len() implies #[trigger] slot_of(
            items,
            expected,
            k,
        ) != #[trigger] slot_of(items, expected, l) by {
            let (i, j) = (place_of(order, k), place_of(order, l));
            assert(order[i] == k && order[j] == l);
            if i < j {
                assert(slot_of(other, expected, i) != slot_of(other, expected, j));
            } else {
                assert(slot_of(other, expected, j) != slot_of(other, expected, i));
            }
        }
        assert forall|k: int, l: int| 0 <= k < items.len() && 0 <= l < items.len() implies (
        #[trigger] items[k]).vector->Some_0.len() == (#[trigger] items[l]).vector->Some_0.len() by {
            assert(other[place_of(order, k)] == items[k]);
            assert(other[place_of(order, l)] == items[l]);
        }
        assert(is_sound(items, expected));
    }
}

/// Where items have indexes, the order in which a response lists them does not matter: in any
/// other order the response is accepted too, and gives every text the same vector.
pub proof fn law_item_order_is_immaterial(items: Seq<ItemView>, order: Seq<int>, expected: usize)
    requires
        is_indexed(items),
        is_order(order, items.len()),
    ensures
        assembled(items, expected) is Ok <==> assembled(reordered(items, order), expected) is Ok,
        assembled(items, expected) is Ok ==> assembled(items, expected) == assembled(
            reordered(items, order),
            expected,
        ),
{
    let other = reordered(items, order);
    law_all_or_nothing(items, expected);
    law_all_or_nothing(other, expected);
    lemma_reordered_soundness(items, order, expected);
    if assembled(items, expected) is Ok {
        lemma_reordered_slots(items, order, expected);
        law_vectors_follow_slots(items, expected);
        law_vectors_follow_slots(other, expected);
        lemma_slots_covered(other, expected);
        let these = assembled(items, expected)->Ok_0;
        let those = assembled(other, expected)->Ok_0;
        assert forall|slot: int| 0 <= slot < expected implies these[slot] == those[slot] by {
            let i = item_for(other, expected, slot);
            assert(slot_of(other, expected, i) == Some(slot));
            assert(other[i].vector == Some(those[slot]));
            assert(other[i] == items[order[i]]);
            assert(slot_of(items, expected, order[i]) == Some(slot));
            assert(items[order[i]].vector == Some(these[slot]));
        }
        assert(these =~= those);
    }
}

/// Some item of a response has an `index` member.
pub open spec fn has_index_member(data: Seq<Json>) -> bool {
    exists|i: int| 0 <= i < data.len() && #[trigger] index_member(data[i]) != IndexField::Absent
}

/// The values in the order given.
pub open spec fn reordered_data(data: Seq<Json>, order: Seq<int>) -> Seq<Json> {
    Seq::new(order.len(), |i: int| data[order[i]])
}

proof fn lemma_index_members<D: Fn(&serde_json::Value) -> Option<Vec<u32>>>(
    decode: D,
    data: Seq<Json>,
    items: Seq<ItemView>,
)
    requires
        may_read(decode, data, items),
    ensures
        has_index_member(data) <==> is_indexed(items),
{
    if has_index_member(data) {
        let i = choose|i: int|
            0 <= i < data.len() && #[trigger] index_member(data[i]) != IndexField::Absent;
        assert(items[i].index != IndexField::Absent);
    }
    if is_indexed(items) {
        let i = choose|i: int|
            0 <= i < items.len() && (#[trigger] items[i]).index != IndexField::Absent;
        assert(index_member(data[i]) != IndexField::Absent);
    }
}

/// However embeddings are decoded, a response that is accepted has a `data` list with one item per
/// text, and gives one vector per text; each has components, all of them finite, and all vectors
/// have one length.
pub proof fn law_accepted_responses_are_uniform<
    D: Fn(&serde_json::Value) -> Option<Vec<u32>>,
>(decode: D, response: Json, expected: usize, vectors: Seq<Seq<u32>>)
    requires
        may_parse(decode, response, expected, Ok(vectors)),
    ensures
        response_data(response) is Some,
        response_data(response)->Some_0.len() == expected,
        vectors.len() == expected,
        forall|slot: int| 0 <= slot < expected ==> is_usable(#[trigger] vectors[slot]),
        forall|s: int, t: int|
            0 <= s < expected && 0 <= t < expected ==> (#[trigger] vectors[s]).len() == (
            #[trigger] vectors[t]).len(),
{
    let data = response_data(response)->Some_0;
    let items = choose|items: Seq<ItemView>| #[trigger]
        may_read(decode, data, items) && Ok::<Seq<Seq<u32>>, ResponseError>(vectors) == assembled(
            items,
            expected,
        );
    law_vectors_are_uniform(items, expected);
}

/// Each vector of an accepted response is what its item's embedding decodes to, and goes to the
/// text that the item's index names, or, where no item has an index, to the text at the item's
/// place.
pub proof fn law_vectors_reach_their_texts<D: Fn(&serde_json::Value) -> Option<Vec<u32>>>(
    decode: D,
    response: Json,
    expected: usize,
    vectors: Seq<Seq<u32>>,
)
    requires
        may_parse(decode, response, expected, Ok(vectors)),
    ensures
        has_index_member(response_data(response)->Some_0) ==> forall|i: int|
            #![trigger response_data(response)->Some_0[i]]
            0 <= i < expected ==> {
                let item = response_data(response)->Some_0[i];
                &&& index_member(item) matches IndexField::Number(index)
                &&& index < expected
                &&& may_decode(decode, embedding_member(item), Some(vectors[index as int]))
            },
        !has_index_member(response_data(response)->Some_0) ==> forall|i: int|
            #![trigger response_data(response)->Some_0[i]]
            0 <= i < expected ==> may_decode(
                decode,
                embedding_member(response_data(response)->Some_0[i]),
                Some(vectors[i]),
            ),
{
    let data = response_data(response)->Some_0;
    let items = choose|items: Seq<ItemView>| #[trigger]
        may_read(decode, data, items) && Ok::<Seq<Seq<u32>>, ResponseError>(vectors) == assembled(
            items,
            expected,
        );
    lemma_index_members(decode, data, items);
    law_all_or_nothing(items, expected);
    if is_indexed(items) {
        law_indexes_are_complete_and_unique(items, expected);
        assert forall|i: int| #![trigger data[i]] 0 <= i < expected implies {
            &&& index_member(data[i]) matches IndexField::Number(index)
            &&& index < expected
            &&& may_decode(decode, embedding_member(data[i]), Some(vectors[index as int]))
        } by {
            assert(items[i].index == index_member(data[i]));
        }
    } else {
        law_order_is_kept_without_indexes(items, expected);
        assert forall|i: int| #![trigger data[i]] 0 <= i < expected implies may_decode(
            decode,
            embedding_member(data[i]),
            Some(vectors[i]),
        ) by {
            assert(items[i].vector == Some(vectors[i]));
        }
    }
}

/// Where items have an `index`, listing them in another order changes nothing: what the response
/// gave the texts, it still gives them.
pub proof fn law_response_order_is_immaterial<D: Fn(&serde_json::Value) -> Option<Vec<u32>>>(
    decode: D,
    response: Json,
    other: Json,
    order: Seq<int>,
    expected: usize,
    vectors: Seq<Seq<u32>>,
)
    requires
        may_parse(decode, response, expected, Ok(vectors)),
        has_index_member(response_data(response)->Some_0),
        is_order(order, response_data(response)->Some_0.len()),
        response_data(other) == Some(reordered_data(response_data(response)->Some_0, order)),
    ensures
        may_parse(decode, other, expected, Ok(vectors)),
{
    let data = response_data(response)->Some_0;
    let items = choose|items: Seq<ItemView>| #[trigger]
        may_read(decode, data, items) && Ok::<Seq<Seq<u32>>, ResponseError>(vectors) == assembled(
            items,
            expected,
        );
    lemma_index_members(decode, data, items);
    law_item_order_is_immaterial(items, order, expected);
    assert forall|i: int| 0 <= i < order.len() implies {
        &&& (#[trigger] reordered(items, order)[i]).index == index_member(
            reordered_data(data, order)[i],
        )
        &&& may_decode(
            decode,
            embedding_member(reordered_data(data, order)[i]),
            reordered(items, order)[i].vector,
        )
    } by {
        assert(items[order[i]].index == index_member(data[order[i]]));
    }
    assert(may_read(decode, reordered_data(data, order), reordered(items, order)));
    assert(response_data(other)->Some_0 == reordered_data(data, order));
    assert(assembled(reordered(items, order), expected)->Ok_0 == vectors);
}

/// Where what an embedding decodes to goes by what it holds, so does what a response comes to.
pub proof fn law_decoding_determines_the_outcome<
    D: Fn(&serde_json::Value) -> Option<Vec<u32>>,
>(
    decode: D,
    meaning: spec_fn(Json) -> Option<Seq<u32>>,
    response: Json,
    expected: usize,
    outcome: Result<Seq<Seq<u32>>, ResponseError>,
)
    requires
        decodes_by(decode, meaning),
        may_parse(decode, response, expected, outcome),
    ensures
        outcome == parsed_by(meaning, response, expected),
{
    lemma_parse_is_determined(decode, meaning, response, expected, outcome);
}

proof fn lemma_indexed_by(meaning: spec_fn(Json) -> Option<Seq<u32>>, data: Seq<Json>)
    ensures
        has_index_member(data) <==> is_indexed(items_by(meaning, data)),
{
    let items = items_by(meaning, data);
    if has_index_member(data) {
        let i = choose|i: int|
            0 <= i < data.len() && #[trigger] index_member(data[i]) != IndexField::Absent;
        assert(items[i].index != IndexField::Absent);
    }
    if is_indexed(items) {
        let i = choose|i: int|
            0 <= i < items.len() && (#[trigger] items[i]).index != IndexField::Absent;
        assert(index_member(data[i]) != IndexField::Absent);
    }
}

/// Two responses that list the same items in different orders, some of them with an `index`, are
/// both accepted or both refused, and where they are accepted every text gets the same vector.
pub proof fn law_reordered_responses_agree(
    meaning: spec_fn(Json) -> Option<Seq<u32>>,
    response: Json,
    other: Json,
    order: Seq<int>,
    expected: usize,
)
    requires
        response_data(response) is Some,
        has_index_member(response_data(response)->Some_0),
        is_order(order, response_data(response)->Some_0.len()),
        response_data(other) == Some(reordered_data(response_data(response)->Some_0, order)),
    ensures
        parsed_by(meaning, response, expected) is Ok <==> parsed_by(meaning, other, expected) is Ok,
        parsed_by(meaning, response, expected) is Ok ==> parsed_by(meaning, response, expected)
            == parsed_by(meaning, other, expected),
{
    let data = response_data(response)->Some_0;
    let items = items_by(meaning, data);
    lemma_indexed_by(meaning, data);
    law_item_order_is_immaterial(items, order, expected);
    assert(response_data(other)->Some_0 == reordered_data(data, order));
    assert(items_by(meaning, reordered_data(data, order)) =~= reordered(items, order));
}

/// The same of what any decoder that goes by what a value holds makes of the two responses.
pub proof fn law_reordered_responses_agree_when_read<
    D: Fn(&serde_json::Value) -> Option<Vec<u32>>,
>(
    decode: D,
    meaning: spec_fn(Json) -> Option<Seq<u32>>,
    response: Json,
    other: Json,
    order: Seq<int>,
    expected: usize,
    outcome: Result<Seq<Seq<u32>>, ResponseError>,
    other_outcome: Result<Seq<Seq<u32>>, ResponseError>,
)
    requires
        decodes_by(decode, meaning),
        response_data(response) is Some,
        has_index_member(response_data(response)->Some_0),
        is_order(order, response_data(response)->Some_0.len()),
        response_data(other) == Some(reordered_data(response_data(response)->Some_0, order)),
        may_parse(decode, response, expected, outcome),
        may_parse(decode, other, expected, other_outcome),
    ensures
        outcome is Ok <==> other_outcome is Ok,
        outcome is Ok ==> outcome == other_outcome,
{
    law_reordered_responses_agree(meaning, response, other, order, expected);
    lemma_parse_is_determined(decode, meaning, response, expected, outcome);
    lemma_parse_is_determined(decode, meaning, other, expected, other_outcome);
}

/// Where `meaning` tells the vector of an embedding, each text of an accepted response gets the
/// vector of the item whose index names the text, or, where no item has an index, of the item at
/// the text's place.
pub proof fn law_texts_get_their_embeddings(
    meaning: spec_fn(Json) -> Option<Seq<u32>>,
    response: Json,
    expected: usize,
)
    requires
        parsed_by(meaning, response, expected) is Ok,
    ensures
        response_data(response) is Some,
        response_data(response)->Some_0.len() == expected,
        has_index_member(response_data(response)->Some_0) ==> forall|i: int|
            #![trigger response_data(response)->Some_0[i]]
            0 <= i < expected ==> {
                let item = response_data(response)->Some_0[i];
                &&& index_member(item) matches IndexField::Number(index)
                &&& index < expected
                &&& meaning(embedding_member(item)) == Some(
                    parsed_by(meaning, response, expected)->Ok_0[index as int],
                )
            },
        !has_index_member(response_data(response)->Some_0) ==> forall|i: int|
            #![trigger response_data(response)->Some_0[i]]
            0 <= i < expected ==> meaning(embedding_member(response_data(response)->Some_0[i]))
                == Some(parsed_by(meaning, response, expected)->Ok_0[i]),
{
    let data = response_data(response)->Some_0;
    let items = items_by(meaning, data);
    let vectors = parsed_by(meaning, response, expected)->Ok_0;
    lemma_indexed_by(meaning, data);
    if is_indexed(items) {
        law_indexes_are_complete_and_unique(items, expected);
        assert forall|i: int| #![trigger data[i]] 0 <= i < expected implies {
            &&& index_member(data[i]) matches IndexField::Number(index)
            &&& index < expected
            &&& meaning(embedding_member(data[i])) == Some(vectors[index as int])
        } by {
            assert(items[i].index == index_member(data[i]));
        }
    } else {
        law_order_is_kept_without_indexes(items, expected);
        assert forall|i: int| #![trigger data[i]] 0 <= i < expected implies meaning(
            embedding_member(data[i]),
        ) == Some(vectors[i]) by {
            assert(items[i].vector == Some(vectors[i]));
        }
    }
}

/// Two items that have the same `index` and the same `embedding`, or lack them both alike.
pub open spec fn items_agree(item: Json, other: Json) -> bool {
    &&& json_member(item, "index"@) == json_member(other, "index"@)
    &&& json_member(item, "embedding"@) == json_member(other, "embedding"@)
}

/// Two responses that lack a `data` list, or have one each with items that agree one by one. All
/// other members, of the responses and of their items, may differ.
pub open spec fn responses_agree(response: Json, other: Json) -> bool {
    match (response_data(response), response_data(other)) {
        (None, None) => true,
        (Some(data), Some(other_data)) => {
            &&& data.len() == other_data.len()
            &&& forall|i: int|
                0 <= i < data.len() ==> items_agree(#[trigger] data[i], #[trigger] other_data[i])
        },
        _ => false,
    }
}

/// Members other than `data`, and other than `index` and `embedding` in an item, make no
/// difference: responses that agree in these come to the same.
pub proof fn law_other_members_are_ignored(
    meaning: spec_fn(Json) -> Option<Seq<u32>>,
    response: Json,
    other: Json,
    expected: usize,
)
    requires
        responses_agree(response, other),
    ensures
        parsed_by(meaning, response, expected) == parsed_by(meaning, other, expected),
{
    if response_data(response) is Some {
        let data = response_data(response)->Some_0;
        let other_data = response_data(other)->Some_0;
        let items = items_by(meaning, data);
        let other_items = items_by(meaning, other_data);
        assert forall|i: int| 0 <= i < items.len() implies items[i] == other_items[i] by {
            assert(items_agree(data[i], other_data[i]));
        }
        assert(items =~= other_items);
    }
}

/// The same of what any decoder that goes by what a value holds makes of the two responses.
pub proof fn law_other_members_are_ignored_when_read<
    D: Fn(&serde_json::Value) -> Option<Vec<u32>>,
>(
    decode: D,
    meaning: spec_fn(Json) -> Option<Seq<u32>>,
    response: Json,
    other: Json,
    expected: usize,
    outcome: Result<Seq<Seq<u32>>, ResponseError>,
    other_outcome: Result<Seq<Seq<u32>>, ResponseError>,
)
    requires
        decodes_by(decode, meaning),
        responses_agree(response, other),
        may_parse(decode, response, expected, outcome),
        may_parse(decode, other, expected, other_outcome),
    ensures
        outcome == other_outcome,
{
    law_other_members_are_ignored(meaning, response, other, expected);
    lemma_parse_is_determined(decode, meaning, response, expected, outcome);
    lemma_parse_is_determined(decode, meaning, other, expected, other_outcome);
}

/// Objects that agree in `data` agree as responses, whatever else they hold.
pub proof fn law_responses_with_the_same_data_agree(response: Json, other: Json)
    requires
        json_member(response, "data"@) == json_member(other, "data"@),
    ensures
        responses_agree(response, other),
{
}

} // verus!

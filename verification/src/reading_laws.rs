//! What a response comes to, said of the members that it holds.
use vstd::prelude::*;

#[allow(unused_imports)]
use crate::batch_laws::{law_uniform_batches_are_accepted, law_what_accepted_batches_give};
#[allow(unused_imports)]
use crate::json::{json_of, Json, JsonNumber};
#[allow(unused_imports)]
use crate::response::{
    assembled, decodes_by, embedding_member, index_member, items_by, may_decode, may_parse,
    may_read, parsed_by, response_data, IndexField, ItemView, ResponseError,
};

verus! {

/// A response is refused for its `data` exactly if it is no object, has no member of that name, or
/// the member is no list.
pub proof fn law_only_a_missing_list_is_missed(
    meaning: spec_fn(Json) -> Option<Seq<u32>>,
    response: Json,
    expected: usize,
)
    ensures
        parsed_by(meaning, response, expected) == Err::<Seq<Seq<u32>>, ResponseError>(
            ResponseError::MissingData,
        ) <==> match response {
            Json::Object(members) => !(members.contains_key("data"@) && members["data"@] is List),
            _ => true,
        },
{
    if let Some(data) = response_data(response) {
        crate::batch_laws::law_counts_are_compared_first(items_by(meaning, data), expected);
    }
}

/// The same of what any decoder may make of a response.
pub proof fn law_only_a_missing_list_may_be_missed<
    D: Fn(&serde_json::Value) -> Option<Vec<u32>>,
>(decode: D, response: Json, expected: usize, outcome: Result<Seq<Seq<u32>>, ResponseError>)
    requires
        may_parse(decode, response, expected, outcome),
    ensures
        outcome == Err::<Seq<Seq<u32>>, ResponseError>(ResponseError::MissingData)
            <==> match response {
            Json::Object(members) => !(members.contains_key("data"@) && members["data"@] is List),
            _ => true,
        },
{
    if let Some(data) = response_data(response) {
        let items = choose|items: Seq<ItemView>| #[trigger]
            may_read(decode, data, items) && outcome == assembled(items, expected);
        crate::batch_laws::law_counts_are_compared_first(items, expected);
    }
}

/// A response comes to what its items come to, and each item is read by two members: an `index`
/// that is an integer and not negative counts as that number, any other `index` as unusable, none
/// as absent; the vector is what the `embedding` means, or null where there is none.
pub proof fn law_items_are_read_by_their_members(
    meaning: spec_fn(Json) -> Option<Seq<u32>>,
    members: Map<Seq<char>, Json>,
    data: Seq<Json>,
    items: Seq<ItemView>,
    expected: usize,
)
    requires
        members.contains_key("data"@),
        members["data"@] == Json::List(data),
        items.len() == data.len(),
        forall|i: int|
            0 <= i < data.len() ==> match data[i] {
                Json::Object(item) => {
                    &&& (#[trigger] items[i]).index == if !item.contains_key("index"@) {
                        IndexField::Absent
                    } else {
                        match item["index"@] {
                            Json::Number(JsonNumber::Unsigned(k)) => IndexField::Number(k),
                            _ => IndexField::Unusable,
                        }
                    }
                    &&& items[i].vector == if item.contains_key("embedding"@) {
                        meaning(item["embedding"@])
                    } else {
                        meaning(Json::Null)
                    }
                },
                _ => items[i].index == IndexField::Absent && items[i].vector == meaning(Json::Null),
            },
    ensures
        parsed_by(meaning, Json::Object(members), expected) == assembled(items, expected),
{
    assert(response_data(Json::Object(members))->Some_0 == data);
    assert forall|i: int| 0 <= i < data.len() implies items[i] == items_by(meaning, data)[i] by {
        assert(items[i].index == index_member(data[i]));
    }
    assert(items =~= items_by(meaning, data));
}

/// In an accepted response, the item whose `index` is the integer `k` has the vector of the text
/// `k`: its embedding means what stands at `k`.
pub proof fn law_the_index_names_the_text(
    meaning: spec_fn(Json) -> Option<Seq<u32>>,
    members: Map<Seq<char>, Json>,
    data: Seq<Json>,
    i: int,
    item: Map<Seq<char>, Json>,
    k: u64,
    expected: usize,
)
    requires
        members.contains_key("data"@),
        members["data"@] == Json::List(data),
        0 <= i < data.len(),
        data[i] == Json::Object(item),
        item.contains_key("index"@),
        item["index"@] == Json::Number(JsonNumber::Unsigned(k)),
        parsed_by(meaning, Json::Object(members), expected) is Ok,
    ensures
        k < expected,
        parsed_by(meaning, Json::Object(members), expected)->Ok_0.len() == expected,
        item.contains_key("embedding"@) ==> meaning(item["embedding"@]) == Some(
            parsed_by(meaning, Json::Object(members), expected)->Ok_0[k as int],
        ),
        !item.contains_key("embedding"@) ==> meaning(Json::Null) == Some(
            parsed_by(meaning, Json::Object(members), expected)->Ok_0[k as int],
        ),
{
    let items = items_by(meaning, data);
    assert(response_data(Json::Object(members))->Some_0 == data);
    law_what_accepted_batches_give(items, expected);
    assert(items[i].index == IndexField::Number(k));
}

/// In an accepted response, an item without an `index` has the vector of the text at its place.
pub proof fn law_the_place_names_the_text_without_index(
    meaning: spec_fn(Json) -> Option<Seq<u32>>,
    members: Map<Seq<char>, Json>,
    data: Seq<Json>,
    i: int,
    item: Map<Seq<char>, Json>,
    expected: usize,
)
    requires
        members.contains_key("data"@),
        members["data"@] == Json::List(data),
        0 <= i < data.len(),
        data[i] == Json::Object(item),
        !item.contains_key("index"@),
        parsed_by(meaning, Json::Object(members), expected) is Ok,
    ensures
        data.len() == expected,
        parsed_by(meaning, Json::Object(members), expected)->Ok_0.len() == expected,
        item.contains_key("embedding"@) ==> meaning(item["embedding"@]) == Some(
            parsed_by(meaning, Json::Object(members), expected)->Ok_0[i],
        ),
        !item.contains_key("embedding"@) ==> meaning(Json::Null) == Some(
            parsed_by(meaning, Json::Object(members), expected)->Ok_0[i],
        ),
{
    let items = items_by(meaning, data);
    assert(response_data(Json::Object(members))->Some_0 == data);
    law_what_accepted_batches_give(items, expected);
    assert(items[i].index == IndexField::Absent);
}

/// A response is accepted if it lists one object per text, each with an embedding that means as many
/// numbers as the others do, at least one and all finite, and either no object has an `index`, or
/// all have a different integer below the number of texts.
pub proof fn law_well_formed_responses_are_accepted(
    meaning: spec_fn(Json) -> Option<Seq<u32>>,
    members: Map<Seq<char>, Json>,
    data: Seq<Json>,
    expected: usize,
    dimension: nat,
    indexed: bool,
)
    requires
        members.contains_key("data"@),
        members["data"@] == Json::List(data),
        data.len() == expected,
        dimension >= 1,
        forall|i: int|
            0 <= i < data.len() ==> match #[trigger] data[i] {
                Json::Object(item) => {
                    &&& item.contains_key("embedding"@)
                    &&& match meaning(item["embedding"@]) {
                        Some(vector) => {
                            &&& vector.len() == dimension
                            &&& forall|c: int|
                                0 <= c < dimension ==> (#[trigger] vector[c] / 0x80_0000) % 256
                                    != 255
                        },
                        None => false,
                    }
                    &&& if indexed {
                        &&& item.contains_key("index"@)
                        &&& match item["index"@] {
                            Json::Number(JsonNumber::Unsigned(k)) => k < expected,
                            _ => false,
                        }
                    } else {
                        !item.contains_key("index"@)
                    }
                },
                _ => false,
            },
        indexed ==> forall|i: int, j: int|
            0 <= i < j < data.len() ==> (#[trigger] data[i])->Object_0["index"@] != (
            #[trigger] data[j])->Object_0["index"@],
    ensures
        parsed_by(meaning, Json::Object(members), expected) is Ok,
{
    let items = items_by(meaning, data);
    assert(response_data(Json::Object(members))->Some_0 == data);
    assert forall|i: int| 0 <= i < items.len() implies match (#[trigger] items[i]).vector {
        Some(vector) => {
            &&& vector.len() == dimension
            &&& forall|c: int|
                0 <= c < dimension ==> (#[trigger] vector[c] / 0x80_0000) % 256 != 255
        },
        None => false,
    } by {
        assert(data[i] is Object);
    }
    if indexed {
        assert forall|i: int| 0 <= i < items.len() implies match (#[trigger] items[i]).index {
            IndexField::Number(index) => index < expected,
            _ => false,
        } by {
            assert(data[i] is Object);
        }
        assert forall|i: int, j: int| 0 <= i < j < items.len() implies (
        #[trigger] items[i]).index != (#[trigger] items[j]).index by {
            assert(data[i]->Object_0["index"@] != data[j]->Object_0["index"@]);
        }
    } else {
        assert forall|i: int| 0 <= i < items.len() implies (#[trigger] items[i]).index
            == IndexField::Absent by {
            assert(data[i] is Object);
        }
    }
    law_uniform_batches_are_accepted(items, expected, dimension);
}

/// `decode` may turn some value that holds `embedding` into `vector`.
pub open spec fn some_call_gives<D: Fn(&serde_json::Value) -> Option<Vec<u32>>>(
    decode: D,
    embedding: Json,
    vector: Option<Seq<u32>>,
) -> bool {
    exists|value: serde_json::Value, decoded: Option<Vec<u32>>|
        {
            &&& json_of(value) == embedding
            &&& #[trigger] call_ensures(decode, (&value,), decoded)
            &&& match decoded {
                Some(components) => vector == Some(components@),
                None => vector is None,
            }
        }
}

/// Whatever a decoder does: in an accepted response, the item whose `index` is the integer `k` has
/// the vector of the text `k`, which is what the decoder made of the item's embedding.
pub proof fn law_the_index_names_the_text_when_read<
    D: Fn(&serde_json::Value) -> Option<Vec<u32>>,
>(
    decode: D,
    members: Map<Seq<char>, Json>,
    data: Seq<Json>,
    i: int,
    item: Map<Seq<char>, Json>,
    k: u64,
    expected: usize,
    vectors: Seq<Seq<u32>>,
)
    requires
        members.contains_key("data"@),
        members["data"@] == Json::List(data),
        0 <= i < data.len(),
        data[i] == Json::Object(item),
        item.contains_key("index"@),
        item["index"@] == Json::Number(JsonNumber::Unsigned(k)),
        may_parse(decode, Json::Object(members), expected, Ok(vectors)),
    ensures
        k < expected,
        vectors.len() == expected,
        item.contains_key("embedding"@) ==> some_call_gives(
            decode,
            item["embedding"@],
            Some(vectors[k as int]),
        ),
        !item.contains_key("embedding"@) ==> some_call_gives(
            decode,
            Json::Null,
            Some(vectors[k as int]),
        ),
{
    assert(response_data(Json::Object(members))->Some_0 == data);
    let items = choose|items: Seq<ItemView>| #[trigger]
        may_read(decode, data, items) && Ok::<Seq<Seq<u32>>, ResponseError>(vectors) == assembled(
            items,
            expected,
        );
    law_what_accepted_batches_give(items, expected);
    assert(items[i].index == IndexField::Number(k));
    lemma_calls(decode, embedding_member(data[i]), items[i].vector);
}

/// Whatever a decoder does: in an accepted response, an item without an `index` has the vector of
/// the text at its place, which is what the decoder made of the item's embedding.
pub proof fn law_the_place_names_the_text_when_read<
    D: Fn(&serde_json::Value) -> Option<Vec<u32>>,
>(
    decode: D,
    members: Map<Seq<char>, Json>,
    data: Seq<Json>,
    i: int,
    item: Map<Seq<char>, Json>,
    expected: usize,
    vectors: Seq<Seq<u32>>,
)
    requires
        members.contains_key("data"@),
        members["data"@] == Json::List(data),
        0 <= i < data.len(),
        data[i] == Json::Object(item),
        !item.contains_key("index"@),
        may_parse(decode, Json::Object(members), expected, Ok(vectors)),
    ensures
        data.len() == expected,
        vectors.len() == expected,
        item.contains_key("embedding"@) ==> some_call_gives(
            decode,
            item["embedding"@],
            Some(vectors[i]),
        ),
        !item.contains_key("embedding"@) ==> some_call_gives(
            decode,
            Json::Null,
            Some(vectors[i]),
        ),
{
    assert(response_data(Json::Object(members))->Some_0 == data);
    let items = choose|items: Seq<ItemView>| #[trigger]
        may_read(decode, data, items) && Ok::<Seq<Seq<u32>>, ResponseError>(vectors) == assembled(
            items,
            expected,
        );
    law_what_accepted_batches_give(items, expected);
    assert(items[i].index == IndexField::Absent);
    lemma_calls(decode, embedding_member(data[i]), items[i].vector);
}

proof fn lemma_calls<D: Fn(&serde_json::Value) -> Option<Vec<u32>>>(
    decode: D,
    embedding: Json,
    vector: Option<Seq<u32>>,
)
    ensures
        may_decode(decode, embedding, vector) <==> some_call_gives(decode, embedding, vector),
{
}

/// The items that a decoder may read, one by one: each has its place, its index by the `index`
/// member and a vector that the decoder made of its embedding.
pub open spec fn read_by_members<D: Fn(&serde_json::Value) -> Option<Vec<u32>>>(
    decode: D,
    data: Seq<Json>,
    items: Seq<ItemView>,
) -> bool {
    &&& items.len() == data.len()
    &&& forall|i: int|
        0 <= i < data.len() ==> match data[i] {
            Json::Object(item) => {
                &&& (#[trigger] items[i]).index == if !item.contains_key("index"@) {
                    IndexField::Absent
                } else {
                    match item["index"@] {
                        Json::Number(JsonNumber::Unsigned(k)) => IndexField::Number(k),
                        _ => IndexField::Unusable,
                    }
                }
                &&& some_call_gives(
                    decode,
                    if item.contains_key("embedding"@) {
                        item["embedding"@]
                    } else {
                        Json::Null
                    },
                    items[i].vector,
                )
            },
            _ => items[i].index == IndexField::Absent && some_call_gives(
                decode,
                Json::Null,
                items[i].vector,
            ),
        }
}

/// Whatever a decoder does, a response comes to what its items come to, read by their members.
pub proof fn law_items_are_read_by_their_members_when_read<
    D: Fn(&serde_json::Value) -> Option<Vec<u32>>,
>(
    decode: D,
    members: Map<Seq<char>, Json>,
    data: Seq<Json>,
    expected: usize,
    outcome: Result<Seq<Seq<u32>>, ResponseError>,
)
    requires
        members.contains_key("data"@),
        members["data"@] == Json::List(data),
        may_parse(decode, Json::Object(members), expected, outcome),
    ensures
        exists|items: Seq<ItemView>| #[trigger]
            read_by_members(decode, data, items) && outcome == assembled(items, expected),
{
    assert(response_data(Json::Object(members))->Some_0 == data);
    let items = choose|items: Seq<ItemView>| #[trigger]
        may_read(decode, data, items) && outcome == assembled(items, expected);
    assert forall|i: int| 0 <= i < data.len() implies {
        &&& (#[trigger] items[i]).index == index_member(data[i])
        &&& some_call_gives(decode, embedding_member(data[i]), items[i].vector)
    } by {
        lemma_calls(decode, embedding_member(data[i]), items[i].vector);
    }
    assert(read_by_members(decode, data, items));
}

/// A decoder goes by what a value holds exactly if every call gives what that means.
pub proof fn law_decoders_go_by_what_values_hold<D: Fn(&serde_json::Value) -> Option<Vec<u32>>>(
    decode: D,
    meaning: spec_fn(Json) -> Option<Seq<u32>>,
)
    ensures
        decodes_by(decode, meaning) <==> forall|
            value: serde_json::Value,
            decoded: Option<Vec<u32>>,
        | #[trigger]
            call_ensures(decode, (&value,), decoded) ==> match decoded {
                Some(components) => meaning(json_of(value)) == Some(components@),
                None => meaning(json_of(value)) is None,
            },
{
}

} // verus!

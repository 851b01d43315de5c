//! What a channel answers: one vector per text, put back into the order of the texts.
//!
//! A vector component is a single-precision number, held as its bit pattern.
use vstd::prelude::*;

use crate::json::{elements, member, null_value, unsigned};
#[allow(unused_imports)]
use crate::json::{json_elements, json_member, json_of, json_of_each, json_unsigned, Json};
use crate::text::decimal_string;
#[allow(unused_imports)]
use crate::text::decimal;

verus! {

/// Why a response is refused.
#[derive(Clone, Copy, Debug, PartialEq, Eq, Structural)]
pub enum ResponseError {
    /// There is no `data` list.
    MissingData,
    /// There are not as many items as texts.
    CountMismatch { expected: usize, got: usize },
    /// The item has no index in range, though some item has one.
    InvalidIndex { position: usize },
    /// Two items have this index.
    DuplicateIndex { index: usize },
    /// The item's embedding is not a list of numbers.
    NotAVector { position: usize },
    /// The item's vector is empty or has a component that is not finite.
    InvalidVector { position: usize },
    /// The item's vector has another length than those before it.
    InconsistentDimensions { position: usize },
}

impl ResponseError {
    /// The error in words.
    pub open spec fn text(self) -> Seq<char> {
        match self {
            ResponseError::MissingData => "Invalid embedding response: missing data array"@,
            ResponseError::CountMismatch { expected, got } => "Embedding count mismatch: expected "@
                + decimal(expected as nat) + ", got "@ + decimal(got as nat),
            ResponseError::InvalidIndex { position } => "Invalid embedding index at item "@
                + decimal(position as nat),
            ResponseError::DuplicateIndex { index } => "Duplicate embedding index: "@ + decimal(
                index as nat,
            ),
            ResponseError::NotAVector { position } => "Embedding item "@ + decimal(position as nat)
                + " is not a float vector"@,
            ResponseError::InvalidVector { position } => "Invalid embedding vector at item "@
                + decimal(position as nat),
            ResponseError::InconsistentDimensions { position } =>
                "Inconsistent embedding dimensions at item "@ + decimal(position as nat),
        }
    }

    /// Puts the error into words.
    pub fn message(&self) -> (r: String)
        ensures
            r@ == self.text(),
    {
        match self {
            ResponseError::MissingData => {
                "Invalid embedding response: missing data array".to_owned()
            },
            ResponseError::CountMismatch { expected, got } => {
                "Embedding count mismatch: expected ".to_owned().concat(
                    decimal_string(*expected).as_str(),
                ).concat(", got ").concat(decimal_string(*got).as_str())
            },
            ResponseError::InvalidIndex { position } => {
                "Invalid embedding index at item ".to_owned().concat(
                    decimal_string(*position).as_str(),
                )
            },
            ResponseError::DuplicateIndex { index } => {
                "Duplicate embedding index: ".to_owned().concat(decimal_string(*index).as_str())
            },
            ResponseError::NotAVector { position } => {
                "Embedding item ".to_owned().concat(decimal_string(*position).as_str()).concat(
                    " is not a float vector",
                )
            },
            ResponseError::InvalidVector { position } => {
                "Invalid embedding vector at item ".to_owned().concat(
                    decimal_string(*position).as_str(),
                )
            },
            ResponseError::InconsistentDimensions { position } => {
                "Inconsistent embedding dimensions at item ".to_owned().concat(
                    decimal_string(*position).as_str(),
                )
            },
        }
    }
}

/// The `index` member of a response item.
#[derive(Clone, Copy, Debug, PartialEq, Eq, Structural)]
pub enum IndexField {
    /// The item has no such member.
    Absent,
    /// The member is not an integer, or is negative.
    Unusable,
    Number(u64),
}

/// A response item as the library reads it.
#[derive(Debug)]
pub struct EmbeddingItem {
    pub index: IndexField,
    /// The components of the item's embedding, if it is a list of numbers.
    pub vector: Option<Vec<u32>>,
}

/// The model of an [`EmbeddingItem`].
pub struct ItemView {
    pub index: IndexField,
    pub vector: Option<Seq<u32>>,
}

/// The components of an optional vector.
pub open spec fn vector_view(vector: Option<Vec<u32>>) -> Option<Seq<u32>> {
    match vector {
        Some(v) => Some(v@),
        None => None,
    }
}

impl View for EmbeddingItem {
    type V = ItemView;

    open spec fn view(&self) -> ItemView {
        ItemView { index: self.index, vector: vector_view(self.vector) }
    }
}

/// The model of each item.
pub open spec fn item_views(items: Seq<EmbeddingItem>) -> Seq<ItemView> {
    Seq::new(items.len(), |i: int| items[i]@)
}

/// The components of each vector.
pub open spec fn vector_views(vectors: Seq<Vec<u32>>) -> Seq<Seq<u32>> {
    Seq::new(vectors.len(), |i: int| vectors[i]@)
}

/// The model of what a response comes to.
pub open spec fn outcome_view(outcome: Result<Vec<Vec<u32>>, ResponseError>) -> Result<
    Seq<Seq<u32>>,
    ResponseError,
> {
    match outcome {
        Ok(vectors) => Ok(vector_views(vectors@)),
        Err(error) => Err(error),
    }
}

/// A bit pattern stands for a finite number unless its eight exponent bits are all set.
pub open spec fn is_finite(bits: u32) -> bool {
    (bits / 0x80_0000) % 256 != 255
}

/// A vector that can be stored: it has components, all of them finite.
pub open spec fn is_usable(vector: Seq<u32>) -> bool {
    &&& vector.len() > 0
    &&& forall|i: int| 0 <= i < vector.len() ==> is_finite(#[trigger] vector[i])
}

/// Some item has an index.
pub open spec fn is_indexed(items: Seq<ItemView>) -> bool {
    exists|i: int| 0 <= i < items.len() && (#[trigger] items[i]).index != IndexField::Absent
}

/// The text that the item at `i` answers: the one that its index names, or, where no item has an
/// index, the one at the same position.
pub open spec fn slot_of(items: Seq<ItemView>, expected: usize, i: int) -> Option<int> {
    if is_indexed(items) {
        match items[i].index {
            IndexField::Number(index) => if index < expected {
                Some(index as int)
            } else {
                None
            },
            _ => None,
        }
    } else {
        Some(i)
    }
}

/// An item before `i` answers the text `slot`.
pub open spec fn is_taken(items: Seq<ItemView>, expected: usize, i: int, slot: int) -> bool {
    exists|j: int| 0 <= j < i && #[trigger] slot_of(items, expected, j) == Some(slot)
}

/// What is wrong with the item at `i`, given that nothing is wrong with those before it.
pub open spec fn item_fault(items: Seq<ItemView>, expected: usize, i: int) -> Option<
    ResponseError,
> {
    match slot_of(items, expected, i) {
        None => Some(ResponseError::InvalidIndex { position: i as usize }),
        Some(slot) => if is_taken(items, expected, i, slot) {
            Some(ResponseError::DuplicateIndex { index: slot as usize })
        } else {
            match items[i].vector {
                None => Some(ResponseError::NotAVector { position: i as usize }),
                Some(vector) => if !is_usable(vector) {
                    Some(ResponseError::InvalidVector { position: i as usize })
                } else if i > 0 && items[0].vector is Some && items[0].vector->Some_0.len()
                    != vector.len() {
                    Some(ResponseError::InconsistentDimensions { position: i as usize })
                } else {
                    None
                },
            }
        },
    }
}

/// What is wrong with the first faulty item from `i` on.
pub open spec fn first_fault(items: Seq<ItemView>, expected: usize, i: int) -> Option<ResponseError>
    decreases items.len() - i,
{
    if i >= items.len() {
        None
    } else {
        match item_fault(items, expected, i) {
            Some(fault) => Some(fault),
            None => first_fault(items, expected, i + 1),
        }
    }
}

/// The item that answers the text `slot`.
pub open spec fn item_for(items: Seq<ItemView>, expected: usize, slot: int) -> int {
    choose|i: int| 0 <= i < items.len() && #[trigger] slot_of(items, expected, i) == Some(slot)
}

/// The vector of each text, in the order of the texts.
pub open spec fn arranged(items: Seq<ItemView>, expected: usize) -> Seq<Seq<u32>> {
    Seq::new(
        expected as nat,
        |slot: int| items[item_for(items, expected, slot)].vector->Some_0,
    )
}

/// What the items of a response come to: the vectors of all texts, or the first fault.
pub open spec fn assembled(items: Seq<ItemView>, expected: usize) -> Result<
    Seq<Seq<u32>>,
    ResponseError,
> {
    if items.len() != expected {
        Err(ResponseError::CountMismatch { expected, got: items.len() as usize })
    } else {
        match first_fault(items, expected, 0) {
            Some(fault) => Err(fault),
            None => Ok(arranged(items, expected)),
        }
    }
}

/// The `data` list of a response.
pub open spec fn response_data(response: Json) -> Option<Seq<Json>> {
    match json_member(response, "data"@) {
        Some(data) => json_elements(data),
        None => None,
    }
}

/// The `index` member of a response item.
pub open spec fn index_member(item: Json) -> IndexField {
    match json_member(item, "index"@) {
        None => IndexField::Absent,
        Some(index) => match json_unsigned(index) {
            None => IndexField::Unusable,
            Some(number) => IndexField::Number(number),
        },
    }
}

/// The `embedding` member of a response item; null where there is none.
pub open spec fn embedding_member(item: Json) -> Json {
    match json_member(item, "embedding"@) {
        None => Json::Null,
        Some(embedding) => embedding,
    }
}

/// `decode` may turn a value that holds `embedding` into `vector`.
pub open spec fn may_decode<D: Fn(&serde_json::Value) -> Option<Vec<u32>>>(
    decode: D,
    embedding: Json,
    vector: Option<Seq<u32>>,
) -> bool {
    exists|value: serde_json::Value, decoded: Option<Vec<u32>>|
        {
            &&& json_of(value) == embedding
            &&& #[trigger] call_ensures(decode, (&value,), decoded)
            &&& vector_view(decoded) == vector
        }
}

/// Read with `decode`, the response items `data` may come out as `items`: each keeps its place
/// and its index, and its vector is what `decode` makes of its embedding.
pub open spec fn may_read<D: Fn(&serde_json::Value) -> Option<Vec<u32>>>(
    decode: D,
    data: Seq<Json>,
    items: Seq<ItemView>,
) -> bool {
    &&& items.len() == data.len()
    &&& forall|i: int|
        0 <= i < data.len() ==> {
            &&& (#[trigger] items[i]).index == index_member(data[i])
            &&& may_decode(decode, embedding_member(data[i]), items[i].vector)
        }
}

/// Read with `decode`, a response may come to `outcome`.
pub open spec fn may_parse<D: Fn(&serde_json::Value) -> Option<Vec<u32>>>(
    decode: D,
    response: Json,
    expected: usize,
    outcome: Result<Seq<Seq<u32>>, ResponseError>,
) -> bool {
    match response_data(response) {
        None => outcome == Err::<Seq<Seq<u32>>, ResponseError>(ResponseError::MissingData),
        Some(data) => exists|items: Seq<ItemView>| #[trigger]
            may_read(decode, data, items) && outcome == assembled(items, expected),
    }
}

/// What `decode` makes of a value is a function of what the value holds, namely `meaning`.
pub open spec fn decodes_by<D: Fn(&serde_json::Value) -> Option<Vec<u32>>>(
    decode: D,
    meaning: spec_fn(Json) -> Option<Seq<u32>>,
) -> bool {
    forall|value: serde_json::Value, decoded: Option<Vec<u32>>| #[trigger]
        call_ensures(decode, (&value,), decoded) ==> vector_view(decoded) == meaning(json_of(value))
}

/// The response items `data`, where `meaning` tells the vector of an embedding.
pub open spec fn items_by(meaning: spec_fn(Json) -> Option<Seq<u32>>, data: Seq<Json>) -> Seq<
    ItemView,
> {
    Seq::new(
        data.len(),
        |i: int|
            ItemView {
                index: index_member(data[i]),
                vector: meaning(embedding_member(data[i])),
            },
    )
}

/// What a response comes to, where `meaning` tells the vector of an embedding.
pub open spec fn parsed_by(
    meaning: spec_fn(Json) -> Option<Seq<u32>>,
    response: Json,
    expected: usize,
) -> Result<Seq<Seq<u32>>, ResponseError> {
    match response_data(response) {
        None => Err(ResponseError::MissingData),
        Some(data) => assembled(items_by(meaning, data), expected),
    }
}

/// A decoder that goes by what a value holds leaves nothing open.
pub(crate) proof fn lemma_parse_is_determined<D: Fn(&serde_json::Value) -> Option<Vec<u32>>>(
    decode: D,
    meaning: spec_fn(Json) -> Option<Seq<u32>>,
    response: Json,
    expected: usize,
    outcome: Result<Seq<Seq<u32>>, ResponseError>,
)
    requires
        decodes_by(decode, meaning),
        may_parse(decode, response, expected, outcome),
    ensures
        outcome == parsed_by(meaning, response, expected),
{
    if let Some(data) = response_data(response) {
        let items = choose|items: Seq<ItemView>| #[trigger]
            may_read(decode, data, items) && outcome == assembled(items, expected);
        assert forall|i: int| 0 <= i < data.len() implies items[i] == items_by(
            meaning,
            data,
        )[i] by {
            assert(items[i].index == index_member(data[i]));
            assert(may_decode(decode, embedding_member(data[i]), items[i].vector));
        }
        assert(items =~= items_by(meaning, data));
    }
}

/// Nothing is wrong from `i` on exactly if nothing is wrong with any item from `i` on.
pub(crate) proof fn lemma_no_fault(items: Seq<ItemView>, expected: usize, i: int)
    requires
        0 <= i,
    ensures
        first_fault(items, expected, i) is None <==> forall|j: int|
            i <= j < items.len() ==> #[trigger] item_fault(items, expected, j) is None,
    decreases items.len() - i,
{
    if i < items.len() {
        lemma_no_fault(items, expected, i + 1);
        if item_fault(items, expected, i) is None {
            if first_fault(items, expected, i + 1) is None {
                assert forall|j: int| i <= j < items.len() implies #[trigger] item_fault(
                    items,
                    expected,
                    j,
                ) is None by {
                    if j > i {
                        assert(i + 1 <= j);
                    }
                }
            }
        }
    }
}

/// Where nothing is wrong, every text has exactly one item that answers it.
pub(crate) proof fn lemma_slots_covered(items: Seq<ItemView>, expected: usize)
    requires
        items.len() == expected,
        first_fault(items, expected, 0) is None,
    ensures
        forall|slot: int|
            0 <= slot < expected ==> {
                let i = #[trigger] item_for(items, expected, slot);
                0 <= i < items.len() && slot_of(items, expected, i) == Some(slot)
            },
        forall|i: int| #![trigger slot_of(items, expected, i)]
            0 <= i < items.len() ==> {
                &&& slot_of(items, expected, i) is Some
                &&& 0 <= slot_of(items, expected, i)->Some_0 < expected
                &&& item_for(items, expected, slot_of(items, expected, i)->Some_0) == i
            },
{
    lemma_no_fault(items, expected, 0);
    let slots = Seq::new(items.len(), |i: int| slot_of(items, expected, i)->Some_0);
    assert forall|i: int| 0 <= i < items.len() implies {
        &&& #[trigger] slot_of(items, expected, i) is Some
        &&& 0 <= slot_of(items, expected, i)->Some_0 < expected
    } by {
        assert(item_fault(items, expected, i) is None);
    }
    assert forall|i: int, j: int| 0 <= i < j < slots.len() implies slots[i] != slots[j] by {
        assert(item_fault(items, expected, j) is None);
        assert(!is_taken(items, expected, j, slots[j]));
        assert(slot_of(items, expected, i) is Some);
    }
    assert(slots.no_duplicates());
    slots.unique_seq_to_set();
    vstd::set_lib::lemma_int_range(0, expected as int);
    vstd::seq_lib::seq_to_set_is_finite(slots);
    let range = vstd::set_lib::set_int_range(0, expected as int);
    assert forall|slot: int| slots.to_set().contains(slot) implies range.contains(slot) by {
        let i = choose|i: int| 0 <= i < slots.len() && slots[i] == slot;
        assert(slot_of(items, expected, i) is Some);
    }
    vstd::set_lib::lemma_subset_equality(slots.to_set(), range);
    assert forall|slot: int| 0 <= slot < expected implies {
        let i = #[trigger] item_for(items, expected, slot);
        0 <= i < items.len() && slot_of(items, expected, i) == Some(slot)
    } by {
        assert(range.contains(slot));
        assert(slots.to_set().contains(slot));
        let i = choose|i: int| 0 <= i < slots.len() && slots[i] == slot;
        assert(slot_of(items, expected, i) == Some(slot));
    }
    assert forall|i: int| #![trigger slot_of(items, expected, i)]
        0 <= i < items.len() implies item_for(
        items,
        expected,
        slot_of(items, expected, i)->Some_0,
    ) == i by {
        let slot = slot_of(items, expected, i)->Some_0;
        let k = item_for(items, expected, slot);
        assert(slot_of(items, expected, k) == Some(slot));
        if k != i {
            assert(slots[k] == slot);
            assert(slots[i] == slot);
        }
    }
}

/// Tells whether every component of a vector is finite.
fn all_finite(vector: &Vec<u32>) -> (r: bool)
    ensures
        r == forall|i: int| 0 <= i < vector@.len() ==> is_finite(#[trigger] vector@[i]),
{
    let mut i: usize = 0;
    while i < vector.len()
        invariant
            i <= vector@.len(),
            forall|j: int| 0 <= j < i ==> is_finite(#[trigger] vector@[j]),
        decreases vector@.len() - i,
    {
        if (vector[i] / 0x80_0000) % 256 == 255 {
            assert(!is_finite(vector@[i as int]));
            return false;
        }
        i = i + 1;
    }
    true
}

/// Tells whether some item has an index.
fn has_index(items: &Vec<EmbeddingItem>) -> (r: bool)
    ensures
        r == is_indexed(item_views(items@)),
{
    let mut i: usize = 0;
    while i < items.len()
        invariant
            i <= items@.len(),
            forall|j: int| 0 <= j < i ==> (#[trigger] items@[j]).index == IndexField::Absent,
        decreases items@.len() - i,
    {
        if items[i].index != IndexField::Absent {
            assert(item_views(items@)[i as int].index != IndexField::Absent);
            return true;
        }
        i = i + 1;
    }
    assert forall|j: int| 0 <= j < item_views(items@).len() implies (#[trigger] item_views(
        items@,
    )[j]).index == IndexField::Absent by {
        assert(items@[j].index == IndexField::Absent);
    }
    false
}

/// Puts the vectors of a response into the order of the texts.
///
/// The whole response is checked before any vector is handed out: there must be one item per
/// text, every index must be there and differ from the others as soon as one is there, and all
/// vectors must be usable and of one length.
pub fn assemble_embeddings(items: &Vec<EmbeddingItem>, expected_count: usize) -> (r: Result<
    Vec<Vec<u32>>,
    ResponseError,
>)
    ensures
        outcome_view(r) == assembled(item_views(items@), expected_count),
        r matches Ok(vectors) ==> {
            &&& vectors@.len() == expected_count
            &&& forall|i: int|
                0 <= i < items@.len() ==> {
                    let slot = #[trigger] slot_of(item_views(items@), expected_count, i);
                    &&& slot is Some
                    &&& 0 <= slot->Some_0 < expected_count
                    &&& Some(vectors@[slot->Some_0]@) == vector_view(items@[i].vector)
                }
        },
{
    let ghost model = item_views(items@);
    if items.len() != expected_count {
        return Err(
            ResponseError::CountMismatch { expected: expected_count, got: items.len() },
        );
    }
    let indexed: bool = has_index(items);
    let mut embeddings: Vec<Vec<u32>> = Vec::new();
    let mut filled: usize = 0;
    while filled < expected_count
        invariant
            filled <= expected_count,
            embeddings@.len() == filled,
            forall|k: int| 0 <= k < filled ==> (#[trigger] embeddings@[k])@.len() == 0,
        decreases expected_count - filled,
    {
        embeddings.push(Vec::new());
        filled = filled + 1;
    }
    let mut dimension: Option<usize> = None;
    let mut position: usize = 0;
    while position < expected_count
        invariant
            position <= expected_count,
            items@.len() == expected_count,
            model == item_views(items@),
            indexed == is_indexed(model),
            embeddings@.len() == expected_count,
            forall|j: int|
                0 <= j < position ==> #[trigger] item_fault(model, expected_count, j) is None,
            first_fault(model, expected_count, 0) == first_fault(
                model,
                expected_count,
                position as int,
            ),
            forall|j: int| #![trigger slot_of(model, expected_count, j)]
                0 <= j < position ==> {
                    let slot = slot_of(model, expected_count, j)->Some_0;
                    &&& slot_of(model, expected_count, j) is Some
                    &&& 0 <= slot < expected_count
                    &&& embeddings@[slot]@ == model[j].vector->Some_0
                    &&& embeddings@[slot]@.len() > 0
                },
            forall|k: int| #![trigger embeddings@[k]]
                0 <= k < expected_count && !is_taken(model, expected_count, position as int, k)
                    ==> embeddings@[k]@.len() == 0,
            position == 0 ==> dimension is None,
            position > 0 ==> {
                &&& model[0].vector is Some
                &&& dimension == Some(model[0].vector->Some_0.len() as usize)
                &&& model[0].vector->Some_0.len() <= usize::MAX
            },
        decreases expected_count - position,
    {
        let ghost slot = slot_of(model, expected_count, position as int);
        assert(model[position as int] == items@[position as int]@);
        let index: usize = if indexed {
            match items[position].index {
                IndexField::Number(number) => {
                    if number < expected_count as u64 {
                        number as usize
                    } else {
                        return Err(ResponseError::InvalidIndex { position });
                    }
                },
                _ => {
                    return Err(ResponseError::InvalidIndex { position });
                },
            }
        } else {
            position
        };
        assert(slot == Some(index as int));
        if embeddings[index].len() > 0 {
            assert(is_taken(model, expected_count, position as int, index as int));
            return Err(ResponseError::DuplicateIndex { index });
        }
        assert(!is_taken(model, expected_count, position as int, index as int));
        match &items[position].vector {
            None => {
                return Err(ResponseError::NotAVector { position });
            },
            Some(vector) => {
                if vector.len() == 0 || !all_finite(vector) {
                    return Err(ResponseError::InvalidVector { position });
                }
                match dimension {
                    Some(expected_dimension) => {
                        if expected_dimension != vector.len() {
                            return Err(ResponseError::InconsistentDimensions { position });
                        }
                    },
                    None => {},
                }
                dimension = Some(vector.len());
                let copy: Vec<u32> = vector.clone();
                assert(copy@ =~= vector@);
                let ghost before = embeddings@;
                embeddings.set(index, copy);
                proof {
                    assert(item_fault(model, expected_count, position as int) is None);
                    assert forall|k: int| #![trigger embeddings@[k]]
                        0 <= k < expected_count && !is_taken(
                            model,
                            expected_count,
                            position + 1,
                            k,
                        ) implies embeddings@[k]@.len() == 0 by {
                        assert(k != index) by {
                            assert(slot_of(model, expected_count, position as int) == Some(
                                index as int,
                            ));
                        }
                        if is_taken(model, expected_count, position as int, k) {
                            let j = choose|j: int|
                                0 <= j < position && #[trigger] slot_of(model, expected_count, j)
                                    == Some(k);
                            assert(is_taken(model, expected_count, position + 1, k));
                        }
                        assert(before[k]@.len() == 0);
                    }
                }
            },
        }
        position = position + 1;
    }
    proof {
        lemma_slots_covered(model, expected_count);
        assert forall|k: int| 0 <= k < expected_count implies vector_views(embeddings@)[k]
            == arranged(model, expected_count)[k] by {
            let i = item_for(model, expected_count, k);
            assert(slot_of(model, expected_count, i) == Some(k));
        }
        assert(vector_views(embeddings@) =~= arranged(model, expected_count));
        assert forall|i: int| 0 <= i < items@.len() implies {
            let slot = #[trigger] slot_of(model, expected_count, i);
            &&& slot is Some
            &&& 0 <= slot->Some_0 < expected_count
            &&& Some(embeddings@[slot->Some_0]@) == vector_view(items@[i].vector)
        } by {
            assert(item_fault(model, expected_count, i) is None);
        }
    }
    Ok(embeddings)
}

/// Reads one response item.
fn read_item<D: Fn(&serde_json::Value) -> Option<Vec<u32>>>(
    item: &serde_json::Value,
    decode: &D,
) -> (r: EmbeddingItem)
    requires
        forall|value: &serde_json::Value| call_requires(*decode, (value,)),
    ensures
        r.index == index_member(json_of(*item)),
        may_decode(*decode, embedding_member(json_of(*item)), r@.vector),
{
    let index: IndexField = match member(item, "index") {
        None => IndexField::Absent,
        Some(value) => match unsigned(value) {
            None => IndexField::Unusable,
            Some(number) => IndexField::Number(number),
        },
    };
    let vector: Option<Vec<u32>> = match member(item, "embedding") {
        Some(value) => decode(value),
        None => {
            let null = null_value();
            decode(&null)
        },
    };
    EmbeddingItem { index, vector }
}

/// Reads the response of a channel to `expected_count` texts.
///
/// `decode` turns an `embedding` member into the bit patterns of its components; it answers
/// nothing where the member is not a list of numbers. What it answers is handed on to
/// [`assemble_embeddings`], which decides.
pub fn parse_embedding_response<D: Fn(&serde_json::Value) -> Option<Vec<u32>>>(
    response: &serde_json::Value,
    expected_count: usize,
    decode: &D,
) -> (r: Result<Vec<Vec<u32>>, ResponseError>)
    requires
        forall|value: &serde_json::Value| call_requires(*decode, (value,)),
    ensures
        may_parse(*decode, json_of(*response), expected_count, outcome_view(r)),
        forall|meaning: spec_fn(Json) -> Option<Seq<u32>>| #[trigger]
            decodes_by(*decode, meaning) ==> outcome_view(r) == parsed_by(
                meaning,
                json_of(*response),
                expected_count,
            ),
        r matches Ok(vectors) ==> vectors@.len() == expected_count,
{
    let data: &Vec<serde_json::Value> = match member(response, "data") {
        None => {
            return Err(ResponseError::MissingData);
        },
        Some(member) => match elements(member) {
            None => {
                return Err(ResponseError::MissingData);
            },
            Some(found) => found,
        },
    };
    let ghost model = response_data(json_of(*response))->Some_0;
    assert(model == json_of_each(data@));
    let mut items: Vec<EmbeddingItem> = Vec::new();
    let mut i: usize = 0;
    while i < data.len()
        invariant
            i <= data@.len(),
            items@.len() == i,
            model == json_of_each(data@),
            forall|value: &serde_json::Value| call_requires(*decode, (value,)),
            forall|j: int| #![trigger items@[j]]
                0 <= j < i ==> {
                    &&& items@[j].index == index_member(model[j])
                    &&& may_decode(*decode, embedding_member(model[j]), items@[j]@.vector)
                },
        decreases data@.len() - i,
    {
        items.push(read_item(&data[i], decode));
        i = i + 1;
    }
    proof {
        assert forall|j: int| 0 <= j < model.len() implies {
            &&& (#[trigger] item_views(items@)[j]).index == index_member(model[j])
            &&& may_decode(*decode, embedding_member(model[j]), item_views(items@)[j].vector)
        } by {
            assert(items@[j].index == index_member(model[j]));
        }
        assert(may_read(*decode, model, item_views(items@)));
    }
    let r = assemble_embeddings(&items, expected_count);
    proof {
        let outcome = outcome_view(r);
        assert(may_parse(*decode, json_of(*response), expected_count, outcome));
        assert forall|meaning: spec_fn(Json) -> Option<Seq<u32>>| #[trigger]
            decodes_by(*decode, meaning) implies outcome == parsed_by(
            meaning,
            json_of(*response),
            expected_count,
        ) by {
            lemma_parse_is_determined(
                *decode,
                meaning,
                json_of(*response),
                expected_count,
                outcome,
            );
        }
    }
    r
}

} // verus!

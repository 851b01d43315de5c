//! Vectors and the texts they belong to, from the response body to the end of a job.
use embedder::channel::Channel;
use embedder::job::{begin, Begun, EmbedError, LoadedChannels, Progress};
use embedder::reply::{AttemptError, HttpStatus, Reading, Reply, SuccessStatus};
use embedder::response::{
    assemble_embeddings, parse_embedding_response, EmbeddingItem, IndexField, ResponseError,
};
use serde_json::Value;

fn decode(value: &Value) -> Option<Vec<u32>> {
    let vector = serde_json::from_value::<Vec<f32>>(value.clone()).ok()?;
    Some(vector.into_iter().map(f32::to_bits).collect())
}

fn floats(vectors: Vec<Vec<u32>>) -> Vec<Vec<f32>> {
    vectors
        .into_iter()
        .map(|vector| vector.into_iter().map(f32::from_bits).collect())
        .collect()
}

fn json(text: &str) -> Value {
    serde_json::from_str(text).unwrap()
}

fn bits(vector: &[f32]) -> Vec<u32> {
    vector.iter().map(|component| component.to_bits()).collect()
}

fn item(index: IndexField, vector: &[f32]) -> EmbeddingItem {
    EmbeddingItem { index, vector: Some(bits(vector)) }
}

fn parse(response: &str, expected: usize) -> Result<Vec<Vec<f32>>, ResponseError> {
    parse_embedding_response(&json(response), expected, &decode).map(floats)
}

/// The status of an answer whose body is read as JSON.
fn success(code: u16) -> SuccessStatus {
    match HttpStatus::from_code(code).unwrap().reading() {
        Reading::Json(success) => success,
        Reading::Text(_) => panic!("{code} is a success"),
    }
}

/// Runs a job over two texts at one channel, which answers with `response`.
fn embed(response: Value) -> Result<Vec<Vec<f32>>, EmbedError> {
    let texts = ["first".to_string(), "second".to_string()];
    let job = match begin(&texts, "embed-test", &|text: &String| text.clone()) {
        Begun::Waiting(job) => job,
        Begun::Finished(_) => panic!("there are texts to embed"),
    };
    let channel = Channel {
        name: "embedding-response-test".to_string(),
        base_url: "http://localhost/v1".to_string(),
        api_key: "test-only".to_string(),
        model_mapping: String::new(),
    };
    let loaded = LoadedChannels { enabled: vec![channel.clone()], selected: vec![channel] };
    match job.dispatch(Ok(loaded)) {
        Progress::Asking(attempt) => {
            let (progress, _) = attempt
                .conclude(&Reply::Answered { success: success(200), body: response }, &decode);
            match progress {
                Progress::Finished(result) => result.map(floats),
                Progress::Asking(_) => panic!("there is one channel only"),
            }
        }
        Progress::Finished(_) => panic!("there is a channel to ask"),
    }
}

#[test]
fn embedding_indexes_preserve_input_order() {
    let actual = embed(json(
        r#"{"data": [
            {"index": 1, "embedding": [0.0, 1.0]},
            {"index": 0, "embedding": [1.0, 0.0]}
        ]}"#,
    ))
    .unwrap();
    assert_eq!(
        actual,
        vec![vec![1.0, 0.0], vec![0.0, 1.0]],
        "the order of the response must not change which text a vector belongs to"
    );
}

#[test]
fn malformed_embeddings_are_rejected_as_a_whole() {
    for (reason, data) in [
        (
            "empty vector",
            r#"[{"index": 0, "embedding": []}, {"index": 1, "embedding": []}]"#,
        ),
        (
            "non-number",
            r#"[{"index": 0, "embedding": [1.0, "bad"]}, {"index": 1, "embedding": [1.0, "bad"]}]"#,
        ),
        (
            "overflow",
            r#"[{"index": 0, "embedding": [1e100]}, {"index": 1, "embedding": [1e100]}]"#,
        ),
        (
            "duplicate index",
            r#"[{"index": 0, "embedding": [1.0]}, {"index": 0, "embedding": [2.0]}]"#,
        ),
        (
            "out of bounds",
            r#"[{"index": 0, "embedding": [1.0]}, {"index": 2, "embedding": [2.0]}]"#,
        ),
        (
            "missing index",
            r#"[{"index": 0, "embedding": [1.0]}, {"embedding": [2.0]}]"#,
        ),
        ("wrong count", r#"[{"index": 0, "embedding": [1.0]}]"#),
        (
            "dimension mismatch",
            r#"[{"index": 0, "embedding": [1.0]}, {"index": 1, "embedding": [1.0, 2.0]}]"#,
        ),
    ] {
        assert!(
            embed(json(&format!("{{\"data\": {data}}}"))).is_err(),
            "the whole response must be refused: {reason}"
        );
    }
}

#[test]
fn legacy_responses_without_any_index_keep_array_order() {
    let actual = embed(json(
        r#"{"data": [
            {"embedding": [1.0, 0.0]}, {"embedding": [0.0, 1.0]}
        ]}"#,
    ))
    .unwrap();
    assert_eq!(actual, vec![vec![1.0, 0.0], vec![0.0, 1.0]]);
}

#[test]
fn responses_without_a_data_list_are_refused() {
    for response in ["{}", "null", "[]", r#"{"data": {}}"#, r#"{"data": null}"#] {
        assert_eq!(parse(response, 0), Err(ResponseError::MissingData));
    }
    assert_eq!(parse(r#"{"data": []}"#, 0), Ok(vec![]));
}

#[test]
fn each_fault_is_named_with_its_place() {
    let parse = |data: &str| parse(&format!("{{\"data\": {data}}}"), 2).unwrap_err();
    assert_eq!(
        parse(r#"[{"embedding": [1]}]"#),
        ResponseError::CountMismatch { expected: 2, got: 1 }
    );
    assert_eq!(
        parse(r#"[{"index": 0, "embedding": [1]}, {"embedding": [1]}]"#),
        ResponseError::InvalidIndex { position: 1 }
    );
    assert_eq!(
        parse(r#"[{"embedding": [1]}, {"index": 0, "embedding": [1]}]"#),
        ResponseError::InvalidIndex { position: 0 }
    );
    for index in ["2", "-1", "0.0", "null", "\"0\"", "18446744073709551615"] {
        assert_eq!(
            parse(&format!(
                "[{{\"index\": {index}, \"embedding\": [1]}}, {{\"index\": 1, \"embedding\": [1]}}]"
            )),
            ResponseError::InvalidIndex { position: 0 }
        );
    }
    assert_eq!(
        parse(r#"[{"index": 1, "embedding": [1]}, {"index": 1, "embedding": [1]}]"#),
        ResponseError::DuplicateIndex { index: 1 }
    );
    for embedding in ["null", "[true]", "[null]", "1", "\"1\"", "{}"] {
        assert_eq!(
            parse(&format!("[{{\"embedding\": [1]}}, {{\"embedding\": {embedding}}}]")),
            ResponseError::NotAVector { position: 1 }
        );
    }
    assert_eq!(
        parse(r#"[{"embedding": [1]}, {}]"#),
        ResponseError::NotAVector { position: 1 }
    );
    assert_eq!(
        parse(r#"[{"embedding": [1]}, 7]"#),
        ResponseError::NotAVector { position: 1 }
    );
    assert_eq!(
        parse(r#"[{"embedding": [1]}, {"embedding": []}]"#),
        ResponseError::InvalidVector { position: 1 }
    );
    assert_eq!(
        parse(r#"[{"embedding": [1, -1e39]}, {"embedding": [1, 2]}]"#),
        ResponseError::InvalidVector { position: 0 }
    );
    assert_eq!(
        parse(r#"[{"embedding": [1, 2]}, {"embedding": [1]}]"#),
        ResponseError::InconsistentDimensions { position: 1 }
    );
}

#[test]
fn the_first_fault_decides() {
    let parse = |data: &str| parse(&format!("{{\"data\": {data}}}"), 2).unwrap_err();
    // A repeated index is found before the item's embedding is looked at.
    assert_eq!(
        parse(r#"[{"index": 0, "embedding": [1]}, {"index": 0, "embedding": "bad"}]"#),
        ResponseError::DuplicateIndex { index: 0 }
    );
    // An earlier item's embedding is looked at before a later item's index.
    assert_eq!(
        parse(r#"[{"index": 0, "embedding": "bad"}, {"index": 9, "embedding": [1]}]"#),
        ResponseError::NotAVector { position: 0 }
    );
    // A vector that is not finite is refused before its length is compared.
    assert_eq!(
        parse(r#"[{"embedding": [1]}, {"embedding": [1, 1e100]}]"#),
        ResponseError::InvalidVector { position: 1 }
    );
}

#[test]
fn components_come_out_as_single_precision() {
    let vectors = parse(r#"{"data": [{"embedding": [0.1, -0.0, 16777217, 3.5e38, 1e-50]}]}"#, 1);
    assert_eq!(vectors, Err(ResponseError::InvalidVector { position: 0 }));
    let vectors =
        parse(r#"{"data": [{"embedding": [0.1, -0.0, 16777217, 3.4e38, 1e-50]}]}"#, 1).unwrap();
    assert_eq!(
        bits(&vectors[0]),
        bits(&[0.1, -0.0, 16777216.0, 3.4e38, 0.0])
    );
}

#[test]
fn only_finite_components_are_usable() {
    let check = |component: f32| {
        assemble_embeddings(&vec![item(IndexField::Absent, &[component])], 1).is_ok()
    };
    for component in [0.0, -0.0, 1.5, f32::MAX, f32::MIN, f32::MIN_POSITIVE, f32::EPSILON] {
        assert!(check(component));
    }
    assert!(check(f32::from_bits(1)));
    for component in [f32::INFINITY, f32::NEG_INFINITY, f32::NAN, -f32::NAN] {
        assert!(!check(component));
    }
}

#[test]
fn any_order_of_indexed_items_gives_the_same_vectors() {
    let vectors = [[1.0, 2.0], [3.0, 4.0], [5.0, 6.0]];
    for order in [[0, 1, 2], [0, 2, 1], [1, 0, 2], [1, 2, 0], [2, 0, 1], [2, 1, 0]] {
        let items: Vec<EmbeddingItem> = order
            .iter()
            .map(|&k: &usize| item(IndexField::Number(k as u64), &vectors[k]))
            .collect();
        assert_eq!(
            floats(assemble_embeddings(&items, 3).unwrap()),
            vec![vec![1.0, 2.0], vec![3.0, 4.0], vec![5.0, 6.0]]
        );
    }
}

#[test]
fn reordered_responses_are_refused_alike() {
    let items = [
        r#"{"index": 0, "embedding": [1]}"#,
        r#"{"index": 1, "embedding": [1, 2]}"#,
        r#"{"index": 2, "embedding": [3]}"#,
    ];
    for [a, b, c] in [[0, 1, 2], [0, 2, 1], [1, 0, 2], [1, 2, 0], [2, 0, 1], [2, 1, 0]] {
        let data = format!("{{\"data\": [{}, {}, {}]}}", items[a], items[b], items[c]);
        assert!(parse(&data, 3).is_err());
    }
}

#[test]
fn other_members_make_no_difference() {
    let plain = r#"{"data": [{"index": 1, "embedding": [2]}, {"index": 0, "embedding": [1]}]}"#;
    let rich = r#"{
        "object": "list", "model": "m", "usage": {"total_tokens": 3},
        "data": [
            {"object": "embedding", "index": 1, "embedding": [2], "data": []},
            {"index": 0, "embedding": [1], "extra": null}
        ]
    }"#;
    for expected in [1, 2, 3] {
        assert_eq!(parse(plain, expected), parse(rich, expected));
    }
    assert_eq!(parse(rich, 2), Ok(vec![vec![1.0], vec![2.0]]));
    assert_eq!(parse(r#"{"object": "list"}"#, 2), parse("{}", 2));
}

#[test]
fn unusable_indexes_count_as_indexes() {
    let items = vec![item(IndexField::Absent, &[1.0]), item(IndexField::Unusable, &[1.0])];
    assert_eq!(
        assemble_embeddings(&items, 2),
        Err(ResponseError::InvalidIndex { position: 0 })
    );
    let missing = vec![EmbeddingItem { index: IndexField::Absent, vector: None }];
    assert_eq!(
        assemble_embeddings(&missing, 1),
        Err(ResponseError::NotAVector { position: 0 })
    );
}

#[test]
fn faults_in_words() {
    for (error, words) in [
        (
            ResponseError::MissingData,
            "Invalid embedding response: missing data array",
        ),
        (
            ResponseError::CountMismatch { expected: 10, got: 9 },
            "Embedding count mismatch: expected 10, got 9",
        ),
        (
            ResponseError::InvalidIndex { position: 1203 },
            "Invalid embedding index at item 1203",
        ),
        (
            ResponseError::DuplicateIndex { index: 0 },
            "Duplicate embedding index: 0",
        ),
        (
            ResponseError::NotAVector { position: 45 },
            "Embedding item 45 is not a float vector",
        ),
        (
            ResponseError::InvalidVector { position: 6 },
            "Invalid embedding vector at item 6",
        ),
        (
            ResponseError::InconsistentDimensions { position: 78 },
            "Inconsistent embedding dimensions at item 78",
        ),
    ] {
        assert_eq!(error.message(), words);
        assert_eq!(AttemptError::Response(error).message(), words);
    }
}

//! Requests, replies and the course of a job.
use embedder::channel::{apply_model_mapping, map_model, Channel};
use embedder::job::{begin, Attempt, Begun, EmbedJob, LoadedChannels, Progress};
use embedder::reply::{
    read_reply, AttemptError, FailureStatus, HttpStatus, Reading, Reply, SuccessStatus,
};
use embedder::request::{build_request, request_body};
use embedder::response::{parse_embedding_response, ResponseError};
use embedder::text::{decimal_string, excerpt, trim_slashes};
use serde_json::Value;

fn decode(value: &Value) -> Option<Vec<u32>> {
    let vector = serde_json::from_value::<Vec<f32>>(value.clone()).ok()?;
    Some(vector.into_iter().map(f32::to_bits).collect())
}

fn json(text: &str) -> Value {
    serde_json::from_str(text).unwrap()
}

fn channel(name: &str) -> Channel {
    Channel {
        name: name.to_string(),
        base_url: format!("https://{name}.test/v1/"),
        api_key: format!("key-{name}"),
        model_mapping: String::new(),
    }
}

fn texts() -> Vec<String> {
    vec!["one".to_string(), "two".to_string()]
}

fn waiting(texts: &[String]) -> EmbedJob {
    match begin(texts, "embed-test", &|text: &String| text.to_uppercase()) {
        Begun::Waiting(job) => job,
        Begun::Finished(_) => panic!("the job must wait for its channels"),
    }
}

fn asking(progress: Progress) -> Attempt {
    match progress {
        Progress::Asking(attempt) => attempt,
        Progress::Finished(_) => panic!("the job must ask a channel"),
    }
}

/// The status of an answer whose body is read as JSON.
fn success(code: u16) -> SuccessStatus {
    match HttpStatus::from_code(code).unwrap().reading() {
        Reading::Json(success) => success,
        Reading::Text(_) => panic!("{code} is a success"),
    }
}

/// The status of an answer whose body is read as text.
fn failure(code: u16) -> FailureStatus {
    match HttpStatus::from_code(code).unwrap().reading() {
        Reading::Text(failure) => failure,
        Reading::Json(_) => panic!("{code} is no success"),
    }
}

fn answered(body: &str) -> Reply {
    Reply::Answered { success: success(200), body: json(body) }
}

fn good() -> Reply {
    answered(r#"{"data": [{"embedding": [1.0]}, {"embedding": [2.0]}]}"#)
}

fn bad() -> Reply {
    Reply::Unanswered("connection refused".to_string())
}

#[test]
fn models_are_renamed_by_the_mapping() {
    let mapping = r#"{"embed-test": "vendor/embed", "other": 7, "nested": {"a": "b"}}"#;
    assert_eq!(apply_model_mapping("embed-test", mapping), "vendor/embed");
    assert_eq!(apply_model_mapping("other", mapping), "other");
    assert_eq!(apply_model_mapping("nested", mapping), "nested");
    assert_eq!(apply_model_mapping("absent", mapping), "absent");
    for mapping in ["", "{}", "not json", "[\"m\"]", "\"m\"", "null", "{\"m\": }"] {
        assert_eq!(apply_model_mapping("m", mapping), "m");
    }
    assert_eq!(apply_model_mapping("m", "{\"m\": \"\"}"), "");
    assert_eq!(map_model("m", &json("{\"m\": \"n\"}")), "n");
    assert_eq!(map_model("m", &json("[]")), "m");
}

#[test]
fn requests_carry_model_texts_and_key() {
    let mut target = channel("a");
    target.model_mapping = "{\"embed-test\": \"mapped\"}".to_string();
    let request = build_request(&texts(), "embed-test", &target);
    assert_eq!(request.url, "https://a.test/v1/embeddings");
    assert_eq!(request.authorization, "Bearer key-a");
    assert_eq!(request.content_type, "application/json");
    assert_eq!(request.timeout_secs, 60);
    assert_eq!(
        request.body,
        json(r#"{"model": "mapped", "input": ["one", "two"], "encoding_format": "float"}"#)
    );
    assert_eq!(
        request_body("m", &[]),
        json(r#"{"model": "m", "input": [], "encoding_format": "float"}"#)
    );
}

#[test]
fn trailing_slashes_make_no_difference() {
    for base_url in ["http://h/v1", "http://h/v1/", "http://h/v1///"] {
        let mut target = channel("a");
        target.base_url = base_url.to_string();
        assert_eq!(build_request(&texts(), "m", &target).url, "http://h/v1/embeddings");
    }
    assert_eq!(trim_slashes("///"), "");
    assert_eq!(trim_slashes(""), "");
    assert_eq!(trim_slashes("/a/b"), "/a/b");
}

#[test]
fn statuses_and_their_lines() {
    let line = |code: u16| HttpStatus::from_code(code).map(|status| status.line());
    assert_eq!(line(404).unwrap(), "404 Not Found");
    assert_eq!(line(200).unwrap(), "200 OK");
    assert_eq!(line(799).unwrap(), "799 <unknown status code>");
    assert!(line(99).is_none() && line(1000).is_none() && line(0).is_none());
    assert!(line(100).is_some() && line(999).is_some());
    let success = |code: u16| HttpStatus::from_code(code).unwrap().is_success();
    assert!(success(200) && success(204) && success(299));
    assert!(!success(199) && !success(300) && !success(500));
    for code in 100..1000 {
        assert!(line(code).unwrap().starts_with(&format!("{code} ")));
    }
}

#[test]
fn failed_replies_in_words() {
    let words = |reply: Reply| read_reply(&reply, 2, &decode).unwrap_err().message();
    assert_eq!(words(bad()), "Request failed: connection refused");
    assert_eq!(
        words(Reply::Unreadable {
            success: success(200),
            reason: "error decoding response body".to_string()
        }),
        "Parse response failed: error decoding response body"
    );
    assert_eq!(
        words(Reply::Refused { failure: failure(500), text: "é".repeat(301) }),
        format!("HTTP 500 Internal Server Error: {}", "é".repeat(300))
    );
    assert_eq!(
        words(Reply::Refused { failure: failure(401), text: "no key".to_string() }),
        "HTTP 401 Unauthorized: no key"
    );
    assert_eq!(
        words(answered("{}")),
        "Invalid embedding response: missing data array"
    );
}

#[test]
fn the_status_decides_how_a_body_is_read() {
    for code in 100..1000 {
        let reading = HttpStatus::from_code(code).unwrap().reading();
        assert_eq!(matches!(reading, Reading::Json(_)), (200..300).contains(&code));
    }
}

#[test]
fn json_bodies_come_to_their_response_after_any_success() {
    for code in [200, 201, 204, 299] {
        for body in [
            "{}",
            r#"{"data": []}"#,
            r#"{"data": [{"embedding": [1.0]}, {"embedding": [2.0]}]}"#,
            r#"{"data": [{"embedding": [1.0]}, {"embedding": ["x"]}]}"#,
        ] {
            let parsed = parse_embedding_response(&json(body), 2, &decode);
            let reply = Reply::Answered { success: success(code), body: json(body) };
            match read_reply(&reply, 2, &decode) {
                Ok(vectors) => assert_eq!(Ok(vectors), parsed),
                Err(AttemptError::Response(error)) => assert_eq!(Err(error), parsed),
                Err(_) => panic!("a JSON body fails as a response only"),
            }
        }
    }
}

#[test]
fn excerpts_keep_the_beginning() {
    assert_eq!(excerpt("abc", 2), "ab");
    assert_eq!(excerpt("abc", 3), "abc");
    assert_eq!(excerpt("abc", 4), "abc");
    assert_eq!(excerpt("日本語", 2), "日本");
    assert_eq!(excerpt("abc", 0), "");
}

#[test]
fn decimal_numbers() {
    for n in [0, 9, 10, 99, 100, 1203, usize::MAX] {
        assert_eq!(decimal_string(n), n.to_string());
    }
}

#[test]
fn jobs_without_texts_are_done_at_once() {
    match begin(&[], "embed-test", &|text: &String| text.clone()) {
        Begun::Finished(vectors) => assert!(vectors.is_empty()),
        Begun::Waiting(_) => panic!("there is nothing to embed"),
    }
}

#[test]
fn texts_are_normalized_before_they_are_sent() {
    let job = waiting(&texts());
    assert_eq!(job.model(), "embed-test");
    let loaded = LoadedChannels { enabled: vec![channel("a")], selected: vec![] };
    let attempt = asking(job.dispatch(Ok(loaded)));
    assert_eq!(attempt.expected_count(), 2);
    assert_eq!(attempt.request().body["input"], json(r#"["ONE", "TWO"]"#));
}

#[test]
fn jobs_fail_when_channels_cannot_be_loaded() {
    match waiting(&texts()).dispatch(Err("database is locked".to_string())) {
        Progress::Finished(Err(error)) => {
            assert_eq!(error.message(), "Failed to get channels: database is locked")
        }
        _ => panic!("the job must fail"),
    }
}

#[test]
fn selected_channels_go_before_all_others() {
    let enabled = || vec![channel("a"), channel("b")];
    let selected = LoadedChannels { enabled: enabled(), selected: vec![channel("b")] };
    let attempt = asking(waiting(&texts()).dispatch(Ok(selected)));
    assert_eq!(attempt.channel().name, "b");
    let (progress, _) = attempt.conclude(&bad(), &decode);
    assert!(matches!(progress, Progress::Finished(Err(_))));
    let fallback = LoadedChannels { enabled: enabled(), selected: vec![] };
    let attempt = asking(waiting(&texts()).dispatch(Ok(fallback)));
    assert_eq!(attempt.channel().name, "a");
}

#[test]
fn the_first_channel_that_answers_decides() {
    let loaded = LoadedChannels {
        enabled: vec![],
        selected: vec![channel("a"), channel("b"), channel("c")],
    };
    let attempt = asking(waiting(&texts()).dispatch(Ok(loaded)));
    assert_eq!(attempt.request().url, "https://a.test/v1/embeddings");
    let (progress, failure) = attempt.conclude(&bad(), &decode);
    assert!(matches!(failure, Some(AttemptError::RequestFailed(_))));
    let attempt = asking(progress);
    assert_eq!(attempt.request().url, "https://b.test/v1/embeddings");
    let (progress, failure) = attempt.conclude(&good(), &decode);
    assert!(failure.is_none());
    match progress {
        Progress::Finished(Ok(vectors)) => {
            assert_eq!(vectors, vec![vec![1.0f32.to_bits()], vec![2.0f32.to_bits()]])
        }
        _ => panic!("the job must be done"),
    }
}

#[test]
fn jobs_fail_when_every_channel_has_failed() {
    let words = "All channels failed for embedding model: embed-test. \
        Make sure at least one channel supports embeddings.";
    let none = LoadedChannels { enabled: vec![], selected: vec![] };
    match waiting(&texts()).dispatch(Ok(none)) {
        Progress::Finished(Err(error)) => assert_eq!(error.message(), words),
        _ => panic!("there is no channel to ask"),
    }
    let loaded = LoadedChannels { enabled: vec![channel("a"), channel("b")], selected: vec![] };
    let attempt = asking(waiting(&texts()).dispatch(Ok(loaded)));
    let short = answered(r#"{"data": [{"embedding": [1.0]}]}"#);
    let (progress, failure) = attempt.conclude(&short, &decode);
    assert!(matches!(
        failure,
        Some(AttemptError::Response(ResponseError::CountMismatch { expected: 2, got: 1 }))
    ));
    let (progress, _) = asking(progress).settle(Err(AttemptError::Unreadable(String::new())));
    match progress {
        Progress::Finished(Err(error)) => assert_eq!(error.message(), words),
        _ => panic!("both channels have failed"),
    }
}

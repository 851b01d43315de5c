//! What a channel is asked: one request for the embeddings of all texts.
use vstd::prelude::*;

use crate::channel::{apply_model_mapping, Channel};
#[allow(unused_imports)]
use crate::channel::{channel_model, ChannelView};
use crate::json::{object_value, text_value, texts_value};
#[allow(unused_imports)]
use crate::json::{json_of, json_strings, named_members, Json};
use crate::text::trim_slashes;
#[allow(unused_imports)]
use crate::text::{views, without_trailing_slashes};

verus! {

/// How long a channel may take to answer, in seconds.
pub const TIMEOUT_SECS: u64 = 60;

/// A `POST` request for embeddings.
#[derive(Debug)]
pub struct EmbeddingRequest {
    pub url: String,
    /// The `Authorization` header.
    pub authorization: String,
    /// The `Content-Type` header.
    pub content_type: String,
    pub body: serde_json::Value,
    pub timeout_secs: u64,
}

/// The model of an [`EmbeddingRequest`].
pub struct RequestView {
    pub url: Seq<char>,
    pub authorization: Seq<char>,
    pub content_type: Seq<char>,
    pub body: Json,
    pub timeout_secs: u64,
}

impl View for EmbeddingRequest {
    type V = RequestView;

    open spec fn view(&self) -> RequestView {
        RequestView {
            url: self.url@,
            authorization: self.authorization@,
            content_type: self.content_type@,
            body: json_of(self.body),
            timeout_secs: self.timeout_secs,
        }
    }
}

/// The address that embeddings are asked for at.
pub open spec fn embeddings_url(base_url: Seq<char>) -> Seq<char> {
    without_trailing_slashes(base_url) + "/embeddings"@
}

/// The body of a request: the model, the texts in order, and that components are wanted as
/// numbers.
pub open spec fn embeddings_body(model: Seq<char>, texts: Seq<Seq<char>>) -> Json {
    Json::Object(
        Map::<Seq<char>, Json>::empty().insert("model"@, Json::Text(model)).insert(
            "input"@,
            json_strings(texts),
        ).insert("encoding_format"@, Json::Text("float"@)),
    )
}

/// The request that asks a channel for the embeddings of these texts.
pub open spec fn request_for(
    texts: Seq<Seq<char>>,
    model: Seq<char>,
    channel: ChannelView,
) -> RequestView {
    RequestView {
        url: embeddings_url(channel.base_url),
        authorization: "Bearer "@ + channel.api_key,
        content_type: "application/json"@,
        body: embeddings_body(channel_model(model, channel.model_mapping), texts),
        timeout_secs: TIMEOUT_SECS,
    }
}

/// Builds the body of a request.
pub fn request_body(model: &str, texts: &[String]) -> (r: serde_json::Value)
    ensures
        json_of(r) == embeddings_body(model@, views(texts@)),
{
    let mut named: Vec<(String, serde_json::Value)> = Vec::new();
    named.push(("model".to_owned(), text_value(model)));
    named.push(("input".to_owned(), texts_value(texts)));
    named.push(("encoding_format".to_owned(), text_value("float")));
    proof {
        reveal_strlit("model");
        reveal_strlit("input");
        reveal_strlit("encoding_format");
        assert("model"@[0] != "input"@[0]);
        reveal_with_fuel(named_members, 4);
        assert(named@.drop_last().drop_last().drop_last() =~= Seq::empty());
    }
    object_value(named)
}

/// Builds the request that asks a channel for the embeddings of these texts.
pub fn build_request(texts: &[String], model: &str, channel: &Channel) -> (r: EmbeddingRequest)
    ensures
        r@ == request_for(views(texts@), model@, channel@),
{
    let actual_model: String = apply_model_mapping(model, channel.model_mapping.as_str());
    EmbeddingRequest {
        url: trim_slashes(channel.base_url.as_str()).concat("/embeddings"),
        authorization: "Bearer ".to_owned().concat(channel.api_key.as_str()),
        content_type: "application/json".to_owned(),
        body: request_body(actual_model.as_str(), texts),
        timeout_secs: TIMEOUT_SECS,
    }
}

/// Slashes at the end of a channel's base address make no difference, however many there are.
pub proof fn law_trailing_slashes_are_ignored(base_url: Seq<char>, slashes: Seq<char>)
    requires
        forall|i: int| 0 <= i < slashes.len() ==> #[trigger] slashes[i] == '/',
    ensures
        embeddings_url(base_url + slashes) == embeddings_url(base_url),
    decreases slashes.len(),
{
    if slashes.len() == 0 {
        assert(base_url + slashes =~= base_url);
    } else {
        assert((base_url + slashes).last() == slashes.last());
        assert((base_url + slashes).drop_last() =~= base_url + slashes.drop_last());
        law_trailing_slashes_are_ignored(base_url, slashes.drop_last());
    }
}

} // verus!

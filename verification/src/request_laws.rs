//! What every request carries, said of its parts.
use vstd::prelude::*;

#[allow(unused_imports)]
use crate::channel::{channel_model, channel_views, mapped_name, Channel, ChannelView};
#[allow(unused_imports)]
use crate::json::{json_of, json_of_text, Json};
#[allow(unused_imports)]
use crate::request::{
    embeddings_body, embeddings_url, request_for, EmbeddingRequest, TIMEOUT_SECS,
};
#[allow(unused_imports)]
use crate::text::without_trailing_slashes;
#[allow(unused_imports)]
use crate::text_laws::law_trimming_takes_all_trailing_slashes;

verus! {

/// A model has the name that the channel's mapping has for it as a string, and its own name where
/// the mapping is empty, is not JSON, is no object, or has no string for it.
pub proof fn law_models_go_by_their_mapping(model: Seq<char>, mapping_json: Seq<char>)
    ensures
        mapping_json.len() == 0 ==> channel_model(model, mapping_json) == model,
        mapping_json == "{}"@ ==> channel_model(model, mapping_json) == model,
        mapping_json.len() > 0 && mapping_json != "{}"@ ==> match json_of_text(mapping_json) {
            Some(Json::Object(members)) => if members.contains_key(model) {
                match members[model] {
                    Json::Text(name) => channel_model(model, mapping_json) == name,
                    _ => channel_model(model, mapping_json) == model,
                }
            } else {
                channel_model(model, mapping_json) == model
            },
            _ => channel_model(model, mapping_json) == model,
        },
{
}

/// The same of a mapping that was read before.
pub proof fn law_names_go_by_their_mapping(model: Seq<char>, mapping: Json)
    ensures
        match mapping {
            Json::Object(members) => if members.contains_key(model) {
                match members[model] {
                    Json::Text(name) => mapped_name(model, mapping) == name,
                    _ => mapped_name(model, mapping) == model,
                }
            } else {
                mapped_name(model, mapping) == model
            },
            _ => mapped_name(model, mapping) == model,
        },
{
}

/// A request goes to `/embeddings` under the channel's base address, whose trailing slashes are
/// left out.
pub proof fn law_requests_go_to_the_embeddings_endpoint(
    texts: Seq<Seq<char>>,
    model: Seq<char>,
    channel: ChannelView,
    len: int,
)
    requires
        0 <= len <= channel.base_url.len(),
        len > 0 ==> channel.base_url[len - 1] != '/',
        forall|i: int| len <= i < channel.base_url.len() ==> #[trigger] channel.base_url[i] == '/',
    ensures
        request_for(texts, model, channel).url == channel.base_url.take(len) + "/embeddings"@,
        embeddings_url(channel.base_url) == channel.base_url.take(len) + "/embeddings"@,
{
    let base_url = channel.base_url;
    law_trimming_takes_all_trailing_slashes(base_url);
    let trimmed = without_trailing_slashes(base_url);
    if trimmed.len() < len {
        assert(base_url[len - 1] == '/');
    }
    if trimmed.len() > len {
        assert(trimmed[trimmed.len() - 1] == base_url[trimmed.len() - 1]);
    }
    assert(trimmed =~= base_url.take(len));
}

/// A request bears the channel's key, is JSON, and may take a minute.
pub proof fn law_requests_bear_the_key(
    texts: Seq<Seq<char>>,
    model: Seq<char>,
    channel: ChannelView,
)
    ensures
        request_for(texts, model, channel).authorization == "Bearer "@ + channel.api_key,
        request_for(texts, model, channel).content_type == "application/json"@,
        request_for(texts, model, channel).timeout_secs == 60,
        TIMEOUT_SECS == 60,
{
}

/// The body of a request is an object with three members: the model, all texts in order, and the
/// format of the numbers.
pub proof fn law_bodies_hold_model_and_all_texts(model: Seq<char>, texts: Seq<Seq<char>>)
    ensures
        match embeddings_body(model, texts) {
            Json::Object(members) => {
                &&& members.dom() == set!["model"@, "input"@, "encoding_format"@]
                &&& members["model"@] == Json::Text(model)
                &&& members["encoding_format"@] == Json::Text("float"@)
                &&& match members["input"@] {
                    Json::List(input) => {
                        &&& input.len() == texts.len()
                        &&& forall|i: int|
                            0 <= i < texts.len() ==> #[trigger] input[i] == Json::Text(texts[i])
                    },
                    _ => false,
                }
            },
            _ => false,
        },
{
    reveal_strlit("model");
    reveal_strlit("input");
    reveal_strlit("encoding_format");
    assert("model"@[0] != "input"@[0]);
    let members = embeddings_body(model, texts)->Object_0;
    assert(members.dom() =~= set!["model"@, "input"@, "encoding_format"@]);
}

/// A request asks about all texts, in order, under the name that the channel's mapping gives the
/// model, whatever the texts are and however many.
pub proof fn law_requests_ask_about_all_texts(
    texts: Seq<Seq<char>>,
    model: Seq<char>,
    channel: ChannelView,
)
    ensures
        match request_for(texts, model, channel).body {
            Json::Object(members) => {
                &&& members.dom() == set!["model"@, "input"@, "encoding_format"@]
                &&& members["encoding_format"@] == Json::Text("float"@)
                &&& match members["input"@] {
                    Json::List(input) => {
                        &&& input.len() == texts.len()
                        &&& forall|i: int|
                            0 <= i < texts.len() ==> #[trigger] input[i] == Json::Text(texts[i])
                    },
                    _ => false,
                }
                &&& members["model"@] == Json::Text(channel_model(model, channel.model_mapping))
                &&& channel.model_mapping.len() == 0 || channel.model_mapping == "{}"@
                    ==> members["model"@] == Json::Text(model)
                &&& channel.model_mapping.len() > 0 && channel.model_mapping != "{}"@
                    ==> match json_of_text(channel.model_mapping) {
                    Some(Json::Object(names)) => if names.contains_key(model)
                        && names[model] is Text {
                        members["model"@] == names[model]
                    } else {
                        members["model"@] == Json::Text(model)
                    },
                    _ => members["model"@] == Json::Text(model),
                }
            },
            _ => false,
        },
{
    law_bodies_hold_model_and_all_texts(channel_model(model, channel.model_mapping), texts);
    law_models_go_by_their_mapping(model, channel.model_mapping);
}

/// What is asked under which name does not depend on the channel but for its mapping, and the name
/// does not depend on the texts.
pub proof fn law_bodies_depend_on_the_mapping_alone(
    texts: Seq<Seq<char>>,
    other_texts: Seq<Seq<char>>,
    model: Seq<char>,
    channel: ChannelView,
    other: ChannelView,
)
    requires
        channel.model_mapping == other.model_mapping,
    ensures
        request_for(texts, model, channel).body == request_for(texts, model, other).body,
        request_for(texts, model, channel).body->Object_0["model"@] == request_for(
            other_texts,
            model,
            other,
        ).body->Object_0["model"@],
{
    law_requests_ask_about_all_texts(texts, model, channel);
    law_requests_ask_about_all_texts(other_texts, model, other);
}

/// The view of a channel has the characters of each of its fields.
pub proof fn law_channel_views_keep_every_field(channel: Channel)
    ensures
        channel@.name == channel.name@,
        channel@.base_url == channel.base_url@,
        channel@.api_key == channel.api_key@,
        channel@.model_mapping == channel.model_mapping@,
{
}

/// The view of a list of channels has every channel, in order.
pub proof fn law_channel_views_keep_every_channel(channels: Seq<Channel>)
    ensures
        channel_views(channels).len() == channels.len(),
        forall|i: int| 0 <= i < channels.len() ==> #[trigger] channel_views(channels)[i]
            == channels[i]@,
{
}

/// The view of a request has each of its parts.
pub proof fn law_request_views_keep_every_part(request: EmbeddingRequest)
    ensures
        request@.url == request.url@,
        request@.authorization == request.authorization@,
        request@.content_type == request.content_type@,
        request@.body == json_of(request.body),
        request@.timeout_secs == request.timeout_secs,
{
}

} // verus!

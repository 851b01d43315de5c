//! A channel: where embeddings are asked for, and under which model name.
use vstd::prelude::*;

use crate::json::{member, parse_text, text_of};
#[allow(unused_imports)]
use crate::json::{json_member, json_of, json_of_text, json_text, Json};

verus! {

/// What is configured of a channel.
#[derive(Debug)]
pub struct Channel {
    pub name: String,
    pub base_url: String,
    pub api_key: String,
    /// A JSON object from model names to the names that the channel knows them by.
    pub model_mapping: String,
}

/// The model of a [`Channel`].
pub struct ChannelView {
    pub name: Seq<char>,
    pub base_url: Seq<char>,
    pub api_key: Seq<char>,
    pub model_mapping: Seq<char>,
}

impl View for Channel {
    type V = ChannelView;

    open spec fn view(&self) -> ChannelView {
        ChannelView {
            name: self.name@,
            base_url: self.base_url@,
            api_key: self.api_key@,
            model_mapping: self.model_mapping@,
        }
    }
}

impl Clone for Channel {
    fn clone(&self) -> (r: Channel)
        ensures
            r@ == self@,
    {
        Channel {
            name: self.name.clone(),
            base_url: self.base_url.clone(),
            api_key: self.api_key.clone(),
            model_mapping: self.model_mapping.clone(),
        }
    }
}

/// The model of each channel.
pub open spec fn channel_views(channels: Seq<Channel>) -> Seq<ChannelView> {
    Seq::new(channels.len(), |i: int| channels[i]@)
}

/// The name that `mapping` gives a model: the string under the model's name, or the model's own
/// name where there is none.
pub open spec fn mapped_name(model: Seq<char>, mapping: Json) -> Seq<char> {
    match json_member(mapping, model) {
        Some(name) => match json_text(name) {
            Some(name) => name,
            None => model,
        },
        None => model,
    }
}

/// The name that a configured mapping gives a model. A mapping that is empty, or that is not
/// JSON, renames nothing.
pub open spec fn channel_model(model: Seq<char>, mapping_json: Seq<char>) -> Seq<char> {
    if mapping_json.len() == 0 || mapping_json == "{}"@ {
        model
    } else {
        match json_of_text(mapping_json) {
            Some(mapping) => mapped_name(model, mapping),
            None => model,
        }
    }
}

/// Looks a model up in a mapping.
pub fn map_model(model: &str, mapping: &serde_json::Value) -> (r: String)
    ensures
        r@ == mapped_name(model@, json_of(*mapping)),
{
    match member(mapping, model) {
        Some(found) => match text_of(found) {
            Some(name) => name.to_owned(),
            None => model.to_owned(),
        },
        None => model.to_owned(),
    }
}

/// Looks a model up in a channel's configured mapping.
pub fn apply_model_mapping(model: &str, mapping_json: &str) -> (r: String)
    ensures
        r@ == channel_model(model@, mapping_json@),
{
    if mapping_json.is_empty() || mapping_json.to_owned() == "{}".to_owned() {
        return model.to_owned();
    }
    match parse_text(mapping_json) {
        Ok(mapping) => map_model(model, &mapping),
        Err(_) => model.to_owned(),
    }
}

/// A model keeps its name on a channel unless the channel's mapping is a JSON object with a string
/// under that name.
pub proof fn law_unmapped_models_keep_their_name(model: Seq<char>, mapping_json: Seq<char>)
    requires
        match json_of_text(mapping_json) {
            Some(Json::Object(members)) => !(members.contains_key(model)
                && members[model] is Text),
            _ => true,
        },
    ensures
        channel_model(model, mapping_json) == model,
{
}

/// A model that a channel's mapping has a string for goes by that string on the channel.
pub proof fn law_mapped_models_are_renamed(
    model: Seq<char>,
    mapping_json: Seq<char>,
    name: Seq<char>,
)
    requires
        mapping_json.len() > 0,
        mapping_json != "{}"@,
        json_of_text(mapping_json) matches Some(mapping) && json_member(mapping, model) == Some(
            Json::Text(name),
        ),
    ensures
        channel_model(model, mapping_json) == name,
{
}

} // verus!

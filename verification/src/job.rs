//! An embedding job: which channels are asked, in which order, and what comes of it.
//!
//! A job goes through three stages. [`begin`] takes the texts; [`EmbedJob::dispatch`] takes the
//! channels and settles who is asked; each [`Attempt`] is concluded with what came back, and either
//! ends the job or leads on to the next channel.
use vstd::prelude::*;

use crate::channel::Channel;
#[allow(unused_imports)]
use crate::channel::{channel_views, ChannelView};
use crate::reply::{read_reply, AttemptError, Reply};
#[allow(unused_imports)]
use crate::json::Json;
#[allow(unused_imports)]
use crate::reply::{attempt_view, comes_to_by, may_come_to, AttemptErrorView};
use crate::request::{build_request, EmbeddingRequest};
#[allow(unused_imports)]
use crate::request::request_for;
#[allow(unused_imports)]
use crate::response::{decodes_by, vector_views};
#[allow(unused_imports)]
use crate::text::views;

verus! {

/// Why a job gives no embeddings.
#[derive(Debug)]
pub enum EmbedError {
    /// The channels could not be loaded, for this reason.
    ChannelsUnavailable(String),
    /// No channel gave embeddings for this model.
    AllChannelsFailed(String),
}

/// The model of an [`EmbedError`].
pub enum EmbedErrorView {
    ChannelsUnavailable(Seq<char>),
    AllChannelsFailed(Seq<char>),
}

impl View for EmbedError {
    type V = EmbedErrorView;

    open spec fn view(&self) -> EmbedErrorView {
        match self {
            EmbedError::ChannelsUnavailable(reason) => EmbedErrorView::ChannelsUnavailable(reason@),
            EmbedError::AllChannelsFailed(model) => EmbedErrorView::AllChannelsFailed(model@),
        }
    }
}

impl EmbedErrorView {
    /// The error in words.
    pub open spec fn text(self) -> Seq<char> {
        match self {
            EmbedErrorView::ChannelsUnavailable(reason) => "Failed to get channels: "@ + reason,
            EmbedErrorView::AllChannelsFailed(model) => "All channels failed for embedding model: "@
                + model
                + ". Make sure at least one channel supports embeddings."@,
        }
    }
}

impl EmbedError {
    /// Puts the error into words.
    pub fn message(&self) -> (r: String)
        ensures
            r@ == self@.text(),
    {
        match self {
            EmbedError::ChannelsUnavailable(reason) => {
                "Failed to get channels: ".to_owned().concat(reason.as_str())
            },
            EmbedError::AllChannelsFailed(model) => {
                "All channels failed for embedding model: ".to_owned().concat(
                    model.as_str(),
                ).concat(". Make sure at least one channel supports embeddings.")
            },
        }
    }
}

/// A job that waits for its channels.
#[derive(Debug)]
pub struct EmbedJob {
    texts: Vec<String>,
    model: String,
}

/// The model of an [`EmbedJob`].
pub struct JobView {
    pub texts: Seq<Seq<char>>,
    pub model: Seq<char>,
}

impl View for EmbedJob {
    type V = JobView;

    closed spec fn view(&self) -> JobView {
        JobView { texts: views(self.texts@), model: self.model@ }
    }
}

/// How a job begins.
#[derive(Debug)]
pub enum Begun {
    /// There is nothing to embed: these are the embeddings.
    Finished(Vec<Vec<u32>>),
    /// The job needs its channels.
    Waiting(EmbedJob),
}

/// The channels of a job.
#[derive(Debug)]
pub struct LoadedChannels {
    /// All enabled channels.
    pub enabled: Vec<Channel>,
    /// Those that are known to support the job's model.
    pub selected: Vec<Channel>,
}

/// A job that asks the channel at `position`, after those before it have failed.
#[derive(Debug)]
pub struct Attempt {
    texts: Vec<String>,
    model: String,
    candidates: Vec<Channel>,
    position: usize,
}

/// The model of an [`Attempt`].
pub struct AttemptView {
    pub texts: Seq<Seq<char>>,
    pub model: Seq<char>,
    pub candidates: Seq<ChannelView>,
    pub position: int,
}

impl View for Attempt {
    type V = AttemptView;

    closed spec fn view(&self) -> AttemptView {
        AttemptView {
            texts: views(self.texts@),
            model: self.model@,
            candidates: channel_views(self.candidates@),
            position: self.position as int,
        }
    }
}

/// How a job goes on.
#[derive(Debug)]
pub enum Progress {
    /// A channel is to be asked.
    Asking(Attempt),
    /// The job is done.
    Finished(Result<Vec<Vec<u32>>, EmbedError>),
}

/// The model of a [`Progress`].
pub enum ProgressView {
    Asking(AttemptView),
    Finished(Result<Seq<Seq<u32>>, EmbedErrorView>),
}

impl View for Progress {
    type V = ProgressView;

    open spec fn view(&self) -> ProgressView {
        match self {
            Progress::Asking(attempt) => ProgressView::Asking(attempt@),
            Progress::Finished(Ok(vectors)) => ProgressView::Finished(Ok(vector_views(vectors@))),
            Progress::Finished(Err(error)) => ProgressView::Finished(Err(error@)),
        }
    }
}

/// `normalize` may turn `text` into `normalized`.
pub open spec fn may_normalize<N: Fn(&String) -> String>(
    normalize: N,
    text: String,
    normalized: Seq<char>,
) -> bool {
    exists|result: String| #[trigger]
        call_ensures(normalize, (&text,), result) && result@ == normalized
}

/// What `normalize` makes of a text is a function of the text's characters, namely `meaning`.
pub open spec fn normalizes_by<N: Fn(&String) -> String>(
    normalize: N,
    meaning: spec_fn(Seq<char>) -> Seq<char>,
) -> bool {
    forall|text: String, result: String| #[trigger]
        call_ensures(normalize, (&text,), result) ==> result@ == meaning(text@)
}

/// The channels that are asked: those that support the model, or all where none is known to.
pub open spec fn candidates_of(enabled: Seq<ChannelView>, selected: Seq<ChannelView>) -> Seq<
    ChannelView,
> {
    if selected.len() == 0 {
        enabled
    } else {
        selected
    }
}

/// Where a job stands that has come to the candidate at `position`.
pub open spec fn at_candidate(
    texts: Seq<Seq<char>>,
    model: Seq<char>,
    candidates: Seq<ChannelView>,
    position: int,
) -> ProgressView {
    if position < candidates.len() {
        ProgressView::Asking(AttemptView { texts, model, candidates, position })
    } else {
        ProgressView::Finished(Err(EmbedErrorView::AllChannelsFailed(model)))
    }
}

/// Where a job stands when its channels are there.
pub open spec fn dispatched(
    job: JobView,
    enabled: Seq<ChannelView>,
    selected: Seq<ChannelView>,
) -> ProgressView {
    at_candidate(job.texts, job.model, candidates_of(enabled, selected), 0)
}

/// Where a job stands after an attempt.
pub open spec fn settled(
    attempt: AttemptView,
    outcome: Result<Seq<Seq<u32>>, AttemptErrorView>,
) -> ProgressView {
    match outcome {
        Ok(vectors) => ProgressView::Finished(Ok(vectors)),
        Err(_) => at_candidate(
            attempt.texts,
            attempt.model,
            attempt.candidates,
            attempt.position + 1,
        ),
    }
}

/// Begins a job: every text goes through `normalize`, and the order is kept. Without texts there is
/// nothing to do.
pub fn begin<N: Fn(&String) -> String>(texts: &[String], model: &str, normalize: &N) -> (r: Begun)
    requires
        forall|text: &String| call_requires(*normalize, (text,)),
    ensures
        match r {
            Begun::Finished(vectors) => texts@.len() == 0 && vectors@.len() == 0,
            Begun::Waiting(job) => {
                &&& texts@.len() > 0
                &&& job@.model == model@
                &&& job@.texts.len() == texts@.len()
                &&& forall|i: int|
                    0 <= i < texts@.len() ==> may_normalize(
                        *normalize,
                        texts@[i],
                        #[trigger] job@.texts[i],
                    )
                &&& forall|meaning: spec_fn(Seq<char>) -> Seq<char>| #[trigger]
                    normalizes_by(*normalize, meaning) ==> job@.texts == Seq::new(
                        texts@.len(),
                        |i: int| meaning(texts@[i]@),
                    )
            },
        },
{
    if texts.len() == 0 {
        return Begun::Finished(Vec::new());
    }
    let mut normalized: Vec<String> = Vec::new();
    let mut i: usize = 0;
    while i < texts.len()
        invariant
            i <= texts@.len(),
            normalized@.len() == i,
            forall|text: &String| call_requires(*normalize, (text,)),
            forall|j: int|
                0 <= j < i ==> may_normalize(*normalize, texts@[j], (#[trigger] normalized@[j])@),
        decreases texts@.len() - i,
    {
        let text: String = normalize(&texts[i]);
        normalized.push(text);
        i = i + 1;
    }
    let job = EmbedJob { texts: normalized, model: model.to_owned() };
    proof {
        assert forall|j: int| 0 <= j < texts@.len() implies may_normalize(
            *normalize,
            texts@[j],
            #[trigger] job@.texts[j],
        ) by {
            assert(job@.texts[j] == normalized@[j]@);
        }
        assert forall|meaning: spec_fn(Seq<char>) -> Seq<char>| #[trigger]
            normalizes_by(*normalize, meaning) implies job@.texts == Seq::new(
            texts@.len(),
            |i: int| meaning(texts@[i]@),
        ) by {
            assert forall|j: int| 0 <= j < texts@.len() implies job@.texts[j] == meaning(
                texts@[j]@,
            ) by {
                assert(may_normalize(*normalize, texts@[j], job@.texts[j]));
            }
            assert(job@.texts =~= Seq::new(texts@.len(), |i: int| meaning(texts@[i]@)));
        }
    }
    Begun::Waiting(job)
}

/// Goes on with the candidate at `position`.
fn try_candidate(
    texts: Vec<String>,
    model: String,
    candidates: Vec<Channel>,
    position: usize,
) -> (r: Progress)
    ensures
        r@ == at_candidate(
            views(texts@),
            model@,
            channel_views(candidates@),
            position as int,
        ),
{
    if position < candidates.len() {
        Progress::Asking(Attempt { texts, model, candidates, position })
    } else {
        Progress::Finished(Err(EmbedError::AllChannelsFailed(model)))
    }
}

impl EmbedJob {
    /// The model that is asked for.
    pub fn model(&self) -> (r: &str)
        ensures
            r@ == self@.model,
    {
        self.model.as_str()
    }

    /// Goes on when the channels are there, or could not be loaded.
    pub fn dispatch(self, loaded: Result<LoadedChannels, String>) -> (r: Progress)
        ensures
            match loaded {
                Ok(channels) => r@ == dispatched(
                    self@,
                    channel_views(channels.enabled@),
                    channel_views(channels.selected@),
                ),
                Err(reason) => r@ == ProgressView::Finished(
                    Err(EmbedErrorView::ChannelsUnavailable(reason@)),
                ),
            },
    {
        match loaded {
            Ok(channels) => {
                let candidates: Vec<Channel> = if channels.selected.len() == 0 {
                    channels.enabled
                } else {
                    channels.selected
                };
                try_candidate(self.texts, self.model, candidates, 0)
            },
            Err(reason) => Progress::Finished(Err(EmbedError::ChannelsUnavailable(reason))),
        }
    }
}

impl Attempt {
    #[verifier::type_invariant]
    spec fn is_at_a_candidate(self) -> bool {
        self.position < self.candidates@.len()
    }

    /// The channel that is asked.
    pub fn channel(&self) -> (r: &Channel)
        ensures
            0 <= self@.position < self@.candidates.len(),
            r@ == self@.candidates[self@.position],
    {
        proof {
            use_type_invariant(self);
        }
        &self.candidates[self.position]
    }

    /// The number of texts, so of embeddings that are owed.
    pub fn expected_count(&self) -> (r: usize)
        ensures
            r == self@.texts.len(),
    {
        self.texts.len()
    }

    /// The request that goes to the channel.
    pub fn request(&self) -> (r: EmbeddingRequest)
        ensures
            0 <= self@.position < self@.candidates.len(),
            r@ == request_for(
                self@.texts,
                self@.model,
                self@.candidates[self@.position],
            ),
    {
        proof {
            use_type_invariant(self);
        }
        build_request(
            self.texts.as_slice(),
            self.model.as_str(),
            &self.candidates[self.position],
        )
    }

    /// Goes on after the channel gave embeddings, or failed: embeddings end the job, a failure
    /// leads on to the next candidate.
    pub fn settle(self, outcome: Result<Vec<Vec<u32>>, AttemptError>) -> (r: (
        Progress,
        Option<AttemptError>,
    ))
        ensures
            r.0@ == settled(self@, attempt_view(outcome)),
            match outcome {
                Ok(vectors) => r.0 == Progress::Finished(Ok(vectors)) && r.1 is None,
                Err(error) => r.1 == Some(error),
            },
    {
        proof {
            use_type_invariant(&self);
            assert(self.position < self.candidates.len());
        }
        match outcome {
            Ok(vectors) => (Progress::Finished(Ok(vectors)), None),
            Err(error) => (
                try_candidate(self.texts, self.model, self.candidates, self.position + 1),
                Some(error),
            ),
        }
    }

    /// Goes on with what came back from the channel; beside it stands why the channel failed, if
    /// it did.
    pub fn conclude<D: Fn(&serde_json::Value) -> Option<Vec<u32>>>(
        self,
        reply: &Reply,
        decode: &D,
    ) -> (r: (Progress, Option<AttemptError>))
        requires
            forall|value: &serde_json::Value| call_requires(*decode, (value,)),
        ensures
            exists|outcome: Result<Seq<Seq<u32>>, AttemptErrorView>| #[trigger]
                may_come_to(*decode, *reply, self@.texts.len() as usize, outcome) && r.0@
                    == settled(self@, outcome) && (match outcome {
                    Ok(_) => r.1 is None,
                    Err(error) => r.1 matches Some(found) && found@ == error,
                }),
            forall|meaning: spec_fn(Json) -> Option<Seq<u32>>| #[trigger]
                decodes_by(*decode, meaning) ==> r.0@ == settled(
                    self@,
                    comes_to_by(meaning, *reply, self@.texts.len() as usize),
                ),
            r.0 matches Progress::Finished(Ok(vectors)) ==> vectors@.len() == self@.texts.len(),
    {
        let outcome = read_reply(reply, self.texts.len(), decode);
        assert(may_come_to(*decode, *reply, self@.texts.len() as usize, attempt_view(outcome)));
        self.settle(outcome)
    }
}

} // verus!

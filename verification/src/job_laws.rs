//! What holds of every job, whatever its channels answer.
use vstd::prelude::*;

#[allow(unused_imports)]
use crate::channel::ChannelView;
#[allow(unused_imports)]
use crate::job::{
    candidates_of, dispatched, may_normalize, normalizes_by, settled, AttemptView, EmbedError,
    EmbedErrorView, JobView, Progress, ProgressView,
};
#[allow(unused_imports)]
use crate::json::{json_of, Json};
#[allow(unused_imports)]
use crate::reply::{
    comes_to_by, is_read_by_status, is_success_code, lemma_reply_is_determined, may_come_to,
    refusal, reply_code, response_outcome, AttemptErrorView, Reply, EXCERPT_LEN,
};
#[allow(unused_imports)]
use crate::response::{decodes_by, is_usable, may_parse, parsed_by, ResponseError};
#[allow(unused_imports)]
use crate::response_laws::law_accepted_responses_are_uniform;
#[allow(unused_imports)]
use crate::text::leading;

verus! {

/// Where a job stands after these attempts, one after the other.
pub open spec fn after(
    progress: ProgressView,
    outcomes: Seq<Result<Seq<Seq<u32>>, AttemptErrorView>>,
) -> ProgressView
    decreases outcomes.len(),
{
    if outcomes.len() == 0 {
        progress
    } else {
        match after(progress, outcomes.drop_last()) {
            ProgressView::Asking(attempt) => settled(attempt, outcomes.last()),
            ProgressView::Finished(result) => ProgressView::Finished(result),
        }
    }
}

/// All of these attempts failed.
pub open spec fn all_failed(outcomes: Seq<Result<Seq<Seq<u32>>, AttemptErrorView>>) -> bool {
    forall|i: int| 0 <= i < outcomes.len() ==> (#[trigger] outcomes[i]) is Err
}

/// As long as channels fail, the candidates are asked one by one, in order and with the same
/// texts; when the last of them has failed, so has the job.
pub proof fn law_candidates_are_asked_in_order(
    job: JobView,
    enabled: Seq<ChannelView>,
    selected: Seq<ChannelView>,
    outcomes: Seq<Result<Seq<Seq<u32>>, AttemptErrorView>>,
)
    requires
        all_failed(outcomes),
    ensures
        outcomes.len() < candidates_of(enabled, selected).len() ==> after(
            dispatched(job, enabled, selected),
            outcomes,
        ) == ProgressView::Asking(
            AttemptView {
                texts: job.texts,
                model: job.model,
                candidates: candidates_of(enabled, selected),
                position: outcomes.len() as int,
            },
        ),
        outcomes.len() >= candidates_of(enabled, selected).len() ==> after(
            dispatched(job, enabled, selected),
            outcomes,
        ) == ProgressView::Finished(Err(EmbedErrorView::AllChannelsFailed(job.model))),
    decreases outcomes.len(),
{
    if outcomes.len() > 0 {
        let earlier = outcomes.drop_last();
        assert(all_failed(earlier)) by {
            assert forall|i: int| 0 <= i < earlier.len() implies (#[trigger] earlier[i]) is Err by {
                assert(outcomes[i] is Err);
            }
        }
        law_candidates_are_asked_in_order(job, enabled, selected, earlier);
        assert(outcomes[outcomes.len() - 1] is Err);
    }
}

/// A job that is done stays as it is.
pub proof fn law_finished_jobs_stay_finished(
    result: Result<Seq<Seq<u32>>, EmbedErrorView>,
    outcomes: Seq<Result<Seq<Seq<u32>>, AttemptErrorView>>,
)
    ensures
        after(ProgressView::Finished(result), outcomes) == ProgressView::Finished(result),
    decreases outcomes.len(),
{
    if outcomes.len() > 0 {
        law_finished_jobs_stay_finished(result, outcomes.drop_last());
    }
}

/// The embeddings of the first candidate that gives any are the embeddings of the job.
pub proof fn law_first_success_wins(
    job: JobView,
    enabled: Seq<ChannelView>,
    selected: Seq<ChannelView>,
    outcomes: Seq<Result<Seq<Seq<u32>>, AttemptErrorView>>,
    k: int,
)
    requires
        0 <= k < outcomes.len(),
        k < candidates_of(enabled, selected).len(),
        all_failed(outcomes.take(k)),
        outcomes[k] is Ok,
    ensures
        after(dispatched(job, enabled, selected), outcomes) == ProgressView::Finished(
            Ok(outcomes[k]->Ok_0),
        ),
    decreases outcomes.len(),
{
    let earlier = outcomes.drop_last();
    if k == outcomes.len() - 1 {
        assert(earlier =~= outcomes.take(k));
        law_candidates_are_asked_in_order(job, enabled, selected, earlier);
    } else {
        assert(earlier.take(k) =~= outcomes.take(k));
        law_first_success_wins(job, enabled, selected, earlier, k);
    }
}

/// A job that has its channels asks the candidate that is next in order, about all the texts, or
/// has ended in one of two ways. It gives embeddings only if a candidate
/// gave them, and all those before it failed. It fails only when every candidate was asked and
/// failed.
pub proof fn law_every_stage_is_accounted_for(
    job: JobView,
    enabled: Seq<ChannelView>,
    selected: Seq<ChannelView>,
    outcomes: Seq<Result<Seq<Seq<u32>>, AttemptErrorView>>,
)
    ensures
        match after(dispatched(job, enabled, selected), outcomes) {
            ProgressView::Asking(attempt) => {
                &&& attempt.texts == job.texts
                &&& attempt.model == job.model
                &&& attempt.candidates == candidates_of(enabled, selected)
                &&& attempt.position == outcomes.len()
                &&& outcomes.len() < candidates_of(enabled, selected).len()
                &&& all_failed(outcomes)
            },
            ProgressView::Finished(Ok(vectors)) => exists|k: int|
                {
                    &&& 0 <= k < outcomes.len()
                    &&& k < candidates_of(enabled, selected).len()
                    &&& all_failed(outcomes.take(k))
                    &&& #[trigger] outcomes[k] == Ok::<Seq<Seq<u32>>, AttemptErrorView>(vectors)
                },
            ProgressView::Finished(Err(error)) => {
                &&& error == EmbedErrorView::AllChannelsFailed(job.model)
                &&& candidates_of(enabled, selected).len() <= outcomes.len()
                &&& all_failed(outcomes.take(candidates_of(enabled, selected).len() as int))
            },
        },
    decreases outcomes.len(),
{
    let count = candidates_of(enabled, selected).len();
    let start = dispatched(job, enabled, selected);
    if outcomes.len() == 0 {
        assert(all_failed(outcomes));
        assert(outcomes.take(0) =~= outcomes);
    } else {
        let earlier = outcomes.drop_last();
        let last = outcomes.len() - 1;
        law_every_stage_is_accounted_for(job, enabled, selected, earlier);
        match after(start, earlier) {
            ProgressView::Asking(_) => {
                law_candidates_are_asked_in_order(job, enabled, selected, earlier);
                match outcomes.last() {
                    Ok(_) => {
                        assert(outcomes.take(last) =~= earlier);
                        assert(outcomes[last] is Ok);
                    },
                    Err(_) => {
                        assert forall|i: int| 0 <= i < outcomes.len() implies (
                        #[trigger] outcomes[i]) is Err by {
                            if i < last {
                                assert(earlier[i] is Err);
                            }
                        }
                        assert(outcomes.take(outcomes.len() as int) =~= outcomes);
                    },
                }
            },
            ProgressView::Finished(Ok(vectors)) => {
                let k = choose|k: int|
                    {
                        &&& 0 <= k < earlier.len()
                        &&& k < count
                        &&& all_failed(earlier.take(k))
                        &&& #[trigger] earlier[k] == Ok::<Seq<Seq<u32>>, AttemptErrorView>(vectors)
                    };
                assert(outcomes.take(k) =~= earlier.take(k));
                assert(outcomes[k] == earlier[k]);
            },
            ProgressView::Finished(Err(_)) => {
                assert(outcomes.take(count as int) =~= earlier.take(count as int));
            },
        }
    }
}

/// The status decides: an answer without success fails with its status and the beginning of its
/// text, and only after a success was the body read as JSON, with or without result.
pub proof fn law_status_decides<D: Fn(&serde_json::Value) -> Option<Vec<u32>>>(
    decode: D,
    reply: Reply,
    expected: usize,
    outcome: Result<Seq<Seq<u32>>, AttemptErrorView>,
)
    requires
        may_come_to(decode, reply, expected, outcome),
        reply_code(reply) is Some,
    ensures
        !is_success_code(reply_code(reply)->Some_0) ==> {
            &&& reply is Refused
            &&& outcome == Err::<Seq<Seq<u32>>, AttemptErrorView>(
                refusal(reply_code(reply)->Some_0, reply->text@),
            )
        },
        is_success_code(reply_code(reply)->Some_0) ==> reply is Answered || reply is Unreadable,
{
}

/// After any success, a JSON body comes to exactly what reading that body as a response gives,
/// vectors and errors alike.
pub proof fn law_json_bodies_are_parsed<D: Fn(&serde_json::Value) -> Option<Vec<u32>>>(
    decode: D,
    reply: Reply,
    expected: usize,
    parsed: Result<Seq<Seq<u32>>, ResponseError>,
)
    requires
        reply is Answered,
        is_read_by_status(reply),
    ensures
        is_success_code(reply_code(reply)->Some_0),
        may_come_to(decode, reply, expected, response_outcome(parsed)) <==> may_parse(
            decode,
            json_of(reply->body),
            expected,
            parsed,
        ),
{
    let outcome = response_outcome(parsed);
    if may_come_to(decode, reply, expected, outcome) {
        let found = choose|found: Result<Seq<Seq<u32>>, ResponseError>| #[trigger]
            may_parse(decode, json_of(reply->body), expected, found) && outcome
                == response_outcome(found);
        assert(found == parsed);
    }
}

/// Where what an embedding decodes to goes by what it holds, a JSON body comes to what the response
/// comes to, and to nothing else.
pub proof fn law_json_bodies_come_to_their_response<
    D: Fn(&serde_json::Value) -> Option<Vec<u32>>,
>(
    decode: D,
    meaning: spec_fn(Json) -> Option<Seq<u32>>,
    reply: Reply,
    expected: usize,
    outcome: Result<Seq<Seq<u32>>, AttemptErrorView>,
)
    requires
        decodes_by(decode, meaning),
        reply is Answered,
        may_come_to(decode, reply, expected, outcome),
    ensures
        outcome == response_outcome(parsed_by(meaning, json_of(reply->body), expected)),
        outcome == comes_to_by(meaning, reply, expected),
{
    lemma_reply_is_determined(decode, meaning, reply, expected, outcome);
}

/// Only a JSON body that came with a success gives embeddings, and it gives exactly one per text:
/// each has components, all of them finite, and all have one length.
pub proof fn law_embeddings_match_the_texts<D: Fn(&serde_json::Value) -> Option<Vec<u32>>>(
    decode: D,
    reply: Reply,
    expected: usize,
    vectors: Seq<Seq<u32>>,
)
    requires
        may_come_to(decode, reply, expected, Ok(vectors)),
    ensures
        reply is Answered,
        is_success_code(reply_code(reply)->Some_0),
        vectors.len() == expected,
        forall|slot: int| 0 <= slot < expected ==> is_usable(#[trigger] vectors[slot]),
        forall|s: int, t: int|
            0 <= s < expected && 0 <= t < expected ==> (#[trigger] vectors[s]).len() == (
            #[trigger] vectors[t]).len(),
{
    let response = json_of(reply->body);
    let parsed = choose|parsed: Result<Seq<Seq<u32>>, ResponseError>| #[trigger]
        may_parse(decode, response, expected, parsed) && Ok::<Seq<Seq<u32>>, AttemptErrorView>(
            vectors,
        ) == response_outcome(parsed);
    law_accepted_responses_are_uniform(decode, response, expected, vectors);
}

/// What is kept of a refusal's body is its beginning, and at most so many characters.
pub proof fn law_excerpts_are_bounded(body: Seq<char>)
    ensures
        leading(body, EXCERPT_LEN as nat).len() <= EXCERPT_LEN,
        leading(body, EXCERPT_LEN as nat).is_prefix_of(body),
{
}

/// Where channels are selected for the model, these are asked and no others: after `n` failures
/// the selected channel at `n`, and after as many failures as there are selected channels the job
/// has failed.
pub proof fn law_selected_channels_are_asked(
    job: JobView,
    enabled: Seq<ChannelView>,
    selected: Seq<ChannelView>,
    failures: Seq<Result<Seq<Seq<u32>>, AttemptErrorView>>,
)
    requires
        selected.len() > 0,
        forall|i: int| 0 <= i < failures.len() ==> (#[trigger] failures[i]) is Err,
    ensures
        match after(dispatched(job, enabled, selected), failures) {
            ProgressView::Asking(attempt) => {
                &&& failures.len() < selected.len()
                &&& 0 <= attempt.position < attempt.candidates.len()
                &&& attempt.candidates[attempt.position] == selected[failures.len() as int]
                &&& attempt.texts == job.texts
                &&& attempt.model == job.model
            },
            ProgressView::Finished(Ok(_)) => false,
            ProgressView::Finished(Err(error)) => {
                &&& failures.len() >= selected.len()
                &&& error == EmbedErrorView::AllChannelsFailed(job.model)
            },
        },
{
    law_candidates_are_asked_in_order(job, enabled, selected, failures);
}

/// Where no channel is selected for the model, all enabled ones are asked: after `n` failures the
/// enabled channel at `n`, and after as many failures as there are enabled channels the job has
/// failed.
pub proof fn law_enabled_channels_are_asked_where_none_is_selected(
    job: JobView,
    enabled: Seq<ChannelView>,
    selected: Seq<ChannelView>,
    failures: Seq<Result<Seq<Seq<u32>>, AttemptErrorView>>,
)
    requires
        selected.len() == 0,
        forall|i: int| 0 <= i < failures.len() ==> (#[trigger] failures[i]) is Err,
    ensures
        match after(dispatched(job, enabled, selected), failures) {
            ProgressView::Asking(attempt) => {
                &&& failures.len() < enabled.len()
                &&& 0 <= attempt.position < attempt.candidates.len()
                &&& attempt.candidates[attempt.position] == enabled[failures.len() as int]
                &&& attempt.texts == job.texts
                &&& attempt.model == job.model
            },
            ProgressView::Finished(Ok(_)) => false,
            ProgressView::Finished(Err(error)) => {
                &&& failures.len() >= enabled.len()
                &&& error == EmbedErrorView::AllChannelsFailed(job.model)
            },
        },
{
    law_candidates_are_asked_in_order(job, enabled, selected, failures);
}

/// Which enabled channels there are makes no difference where some are selected.
pub proof fn law_selection_leaves_the_others_out(
    job: JobView,
    enabled: Seq<ChannelView>,
    other_enabled: Seq<ChannelView>,
    selected: Seq<ChannelView>,
)
    requires
        selected.len() > 0,
    ensures
        dispatched(job, enabled, selected) == dispatched(job, other_enabled, selected),
{
}

/// A job begins with the first of its channels, or fails at once where it has none.
pub proof fn law_jobs_begin_with_their_first_channel(
    job: JobView,
    enabled: Seq<ChannelView>,
    selected: Seq<ChannelView>,
)
    ensures
        selected.len() > 0 ==> dispatched(job, enabled, selected) == ProgressView::Asking(
            AttemptView { texts: job.texts, model: job.model, candidates: selected, position: 0 },
        ),
        selected.len() == 0 && enabled.len() > 0 ==> dispatched(job, enabled, selected)
            == ProgressView::Asking(
            AttemptView { texts: job.texts, model: job.model, candidates: enabled, position: 0 },
        ),
        selected.len() == 0 && enabled.len() == 0 ==> dispatched(job, enabled, selected)
            == ProgressView::Finished(Err(EmbedErrorView::AllChannelsFailed(job.model))),
{
}

/// Embeddings end a job with these embeddings; any failure moves it on by one channel, and after the
/// last one it has failed.
pub proof fn law_attempts_move_the_job_on(
    attempt: AttemptView,
    vectors: Seq<Seq<u32>>,
    error: AttemptErrorView,
)
    ensures
        settled(attempt, Ok(vectors)) == ProgressView::Finished(Ok(vectors)),
        attempt.position + 1 < attempt.candidates.len() ==> settled(attempt, Err(error))
            == ProgressView::Asking(
            AttemptView {
                texts: attempt.texts,
                model: attempt.model,
                candidates: attempt.candidates,
                position: attempt.position + 1,
            },
        ),
        attempt.position + 1 >= attempt.candidates.len() ==> settled(attempt, Err(error))
            == ProgressView::Finished(Err(EmbedErrorView::AllChannelsFailed(attempt.model))),
{
}

/// A normalizer goes by the characters of a text exactly if every call gives what these mean, and
/// may give what some call gives.
pub proof fn law_normalizers_go_by_the_text<N: Fn(&String) -> String>(
    normalize: N,
    meaning: spec_fn(Seq<char>) -> Seq<char>,
    text: String,
    normalized: Seq<char>,
)
    ensures
        normalizes_by(normalize, meaning) <==> forall|text: String, result: String| #[trigger]
            call_ensures(normalize, (&text,), result) ==> result@ == meaning(text@),
        may_normalize(normalize, text, normalized) <==> exists|result: String| #[trigger]
            call_ensures(normalize, (&text,), result) && result@ == normalized,
{
}

/// The view of a job's stage keeps the attempt, or the embeddings, or the error.
pub proof fn law_progress_views_keep_the_stage(progress: Progress)
    ensures
        match progress {
            Progress::Asking(attempt) => progress@ == ProgressView::Asking(attempt@),
            Progress::Finished(Ok(vectors)) => match progress@ {
                ProgressView::Finished(Ok(views)) => {
                    &&& views.len() == vectors@.len()
                    &&& forall|i: int|
                        0 <= i < vectors@.len() ==> #[trigger] views[i] == vectors@[i]@
                },
                _ => false,
            },
            Progress::Finished(Err(error)) => progress@ == ProgressView::Finished(Err(error@)),
        },
{
}

/// The view of an error has its kind and what it says.
pub proof fn law_embed_error_views_keep_the_error(error: EmbedError)
    ensures
        match error {
            EmbedError::ChannelsUnavailable(reason) => error@
                == EmbedErrorView::ChannelsUnavailable(reason@),
            EmbedError::AllChannelsFailed(model) => error@ == EmbedErrorView::AllChannelsFailed(
                model@,
            ),
        },
{
}

/// Each error of a job says in words why it failed.
pub proof fn law_embed_errors_in_words(text: Seq<char>)
    ensures
        EmbedErrorView::ChannelsUnavailable(text).text() == "Failed to get channels: "@ + text,
        EmbedErrorView::AllChannelsFailed(text).text()
            == "All channels failed for embedding model: "@ + text
            + ". Make sure at least one channel supports embeddings."@,
{
}

} // verus!

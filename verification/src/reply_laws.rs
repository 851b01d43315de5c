//! What comes of a reply, said of its status, its text and its body.
use vstd::prelude::*;

#[allow(unused_imports)]
use crate::json::{json_of, Json};
#[allow(unused_imports)]
use crate::reply::{
    attempt_view, comes_to_by, is_read_by_status, is_success_code, may_come_to, refusal,
    reply_code, response_outcome, starts_with_number, status_text, AttemptError, AttemptErrorView,
    Reply, EXCERPT_LEN,
};
#[allow(unused_imports)]
use crate::response::{may_parse, parsed_by, ResponseError};
#[allow(unused_imports)]
use crate::text::decimal;

verus! {

/// A status tells of success exactly if its number is one of 200 to 299.
pub proof fn law_which_statuses_tell_of_success(code: u16)
    ensures
        is_success_code(code) <==> 200 <= code && code <= 299,
{
}

/// A line starts with a number exactly if the number's digits and a space come first.
pub proof fn law_which_lines_start_with_a_number(line: Seq<char>, code: u16)
    ensures
        starts_with_number(line, code) <==> {
            &&& line.len() >= decimal(code as nat).len() + " "@.len()
            &&& forall|i: int|
                0 <= i < (decimal(code as nat) + " "@).len() ==> #[trigger] line[i] == (decimal(
                    code as nat,
                ) + " "@)[i]
        },
{
    let start = decimal(code as nat) + " "@;
    if line.len() >= start.len() && (forall|i: int|
        0 <= i < start.len() ==> #[trigger] line[i] == start[i]) {
        assert(start =~= line.subrange(0, start.len() as int));
    }
    if starts_with_number(line, code) {
        assert(start =~= line.subrange(0, start.len() as int));
        assert forall|i: int| 0 <= i < start.len() implies #[trigger] line[i] == start[i] by {
            assert(line.subrange(0, start.len() as int)[i] == line[i]);
        }
    }
}

/// A refusal keeps the status line, and of the text the first 300 characters, or all where there are
/// fewer.
pub proof fn law_refusals_keep_status_and_beginning(code: u16, text: Seq<char>)
    ensures
        match refusal(code, text) {
            AttemptErrorView::Status { line, excerpt } => {
                &&& line == status_text(code)
                &&& text.len() <= 300 ==> excerpt == text
                &&& text.len() > 300 ==> excerpt == text.take(300)
            },
            _ => false,
        },
        EXCERPT_LEN == 300,
{
}

/// What a response gives, vectors or an error, is what asking the channel gives.
pub proof fn law_responses_are_handed_on(parsed: Result<Seq<Seq<u32>>, ResponseError>)
    ensures
        match parsed {
            Ok(vectors) => response_outcome(parsed) == Ok::<Seq<Seq<u32>>, AttemptErrorView>(
                vectors,
            ),
            Err(error) => response_outcome(parsed) == Err::<Seq<Seq<u32>>, AttemptErrorView>(
                AttemptErrorView::Response(error),
            ),
        },
{
}

/// A request that failed, an answer without success and a body that is not JSON fail with what is
/// known of them; a JSON body gives what the response gives.
pub proof fn law_what_replies_come_to(
    meaning: spec_fn(Json) -> Option<Seq<u32>>,
    reply: Reply,
    expected: usize,
)
    ensures
        match reply {
            Reply::Unanswered(reason) => comes_to_by(meaning, reply, expected) == Err::<
                Seq<Seq<u32>>,
                AttemptErrorView,
            >(AttemptErrorView::RequestFailed(reason@)),
            Reply::Refused { failure, text } => match comes_to_by(meaning, reply, expected) {
                Err(AttemptErrorView::Status { line, excerpt }) => {
                    &&& line == status_text(failure.code())
                    &&& text@.len() <= 300 ==> excerpt == text@
                    &&& text@.len() > 300 ==> excerpt == text@.take(300)
                },
                _ => false,
            },
            Reply::Unreadable { success, reason } => comes_to_by(meaning, reply, expected) == Err::<
                Seq<Seq<u32>>,
                AttemptErrorView,
            >(AttemptErrorView::Unreadable(reason@)),
            Reply::Answered { success, body } => match parsed_by(meaning, json_of(body), expected) {
                Ok(vectors) => comes_to_by(meaning, reply, expected) == Ok::<
                    Seq<Seq<u32>>,
                    AttemptErrorView,
                >(vectors),
                Err(error) => comes_to_by(meaning, reply, expected) == Err::<
                    Seq<Seq<u32>>,
                    AttemptErrorView,
                >(AttemptErrorView::Response(error)),
            },
        },
{
}

/// The same whatever a decoder does. The status of an answer without success is not one of 200 to
/// 299, that of any other answer is.
pub proof fn law_what_replies_may_come_to<D: Fn(&serde_json::Value) -> Option<Vec<u32>>>(
    decode: D,
    reply: Reply,
    expected: usize,
    outcome: Result<Seq<Seq<u32>>, AttemptErrorView>,
)
    requires
        may_come_to(decode, reply, expected, outcome),
    ensures
        match reply {
            Reply::Unanswered(reason) => outcome == Err::<Seq<Seq<u32>>, AttemptErrorView>(
                AttemptErrorView::RequestFailed(reason@),
            ),
            Reply::Refused { failure, text } => {
                &&& failure.code() < 200 || failure.code() > 299
                &&& match outcome {
                    Err(AttemptErrorView::Status { line, excerpt }) => {
                        &&& line == status_text(failure.code())
                        &&& text@.len() <= 300 ==> excerpt == text@
                        &&& text@.len() > 300 ==> excerpt == text@.take(300)
                    },
                    _ => false,
                }
            },
            Reply::Unreadable { success, reason } => {
                &&& 200 <= success.code() && success.code() <= 299
                &&& outcome == Err::<Seq<Seq<u32>>, AttemptErrorView>(
                    AttemptErrorView::Unreadable(reason@),
                )
            },
            Reply::Answered { success, body } => {
                &&& 200 <= success.code() && success.code() <= 299
                &&& match outcome {
                    Ok(vectors) => may_parse(decode, json_of(body), expected, Ok(vectors)),
                    Err(AttemptErrorView::Response(error)) => may_parse(
                        decode,
                        json_of(body),
                        expected,
                        Err(error),
                    ),
                    Err(_) => false,
                }
            },
        },
{
    if let Reply::Answered { success, body } = reply {
        let parsed = choose|parsed: Result<Seq<Seq<u32>>, ResponseError>| #[trigger]
            may_parse(decode, json_of(body), expected, parsed) && outcome == response_outcome(
                parsed,
            );
        match outcome {
            Ok(vectors) => assert(parsed == Ok::<Seq<Seq<u32>>, ResponseError>(vectors)),
            Err(AttemptErrorView::Response(error)) => assert(parsed == Err::<
                Seq<Seq<u32>>,
                ResponseError,
            >(error)),
            Err(_) => {},
        }
    }
}

/// The number of a reply's status is that of the answer, and there is none without an answer.
pub proof fn law_reply_codes_are_those_of_the_answer(reply: Reply)
    ensures
        match reply {
            Reply::Unanswered(_) => reply_code(reply) is None,
            Reply::Refused { failure, .. } => reply_code(reply) == Some(failure.code()),
            Reply::Unreadable { success, .. } => reply_code(reply) == Some(success.code()),
            Reply::Answered { success, .. } => reply_code(reply) == Some(success.code()),
        },
        is_read_by_status(reply) <==> match reply {
            Reply::Unanswered(_) => true,
            Reply::Refused { failure, .. } => failure.code() < 200 || failure.code() > 299,
            Reply::Unreadable { success, .. } => 200 <= success.code() && success.code() <= 299,
            Reply::Answered { success, .. } => 200 <= success.code() && success.code() <= 299,
        },
{
}

/// The view of an error has its kind and what it says.
pub proof fn law_attempt_error_views_keep_the_error(error: AttemptError)
    ensures
        match error {
            AttemptError::RequestFailed(reason) => error@ == AttemptErrorView::RequestFailed(
                reason@,
            ),
            AttemptError::Status { line, excerpt } => match error@ {
                AttemptErrorView::Status { line: l, excerpt: e } => l == line@ && e == excerpt@,
                _ => false,
            },
            AttemptError::Unreadable(reason) => error@ == AttemptErrorView::Unreadable(reason@),
            AttemptError::Response(reason) => error@ == AttemptErrorView::Response(reason),
        },
{
}

/// The view of an outcome keeps the vectors of a success and the error of a failure.
pub proof fn law_attempt_views_keep_the_outcome(outcome: Result<Vec<Vec<u32>>, AttemptError>)
    ensures
        match outcome {
            Ok(vectors) => {
                &&& attempt_view(outcome) is Ok
                &&& attempt_view(outcome)->Ok_0.len() == vectors@.len()
                &&& forall|i: int|
                    0 <= i < vectors@.len() ==> #[trigger] attempt_view(outcome)->Ok_0[i]
                        == vectors@[i]@
            },
            Err(error) => attempt_view(outcome) == Err::<Seq<Seq<u32>>, AttemptErrorView>(error@),
        },
{
}

/// Each error of a channel says in words what happened.
pub proof fn law_attempt_errors_in_words(reason: Seq<char>, line: Seq<char>, error: ResponseError)
    ensures
        AttemptErrorView::RequestFailed(reason).text() == "Request failed: "@ + reason,
        (AttemptErrorView::Status { line, excerpt: reason }).text() == "HTTP "@ + line + ": "@
            + reason,
        AttemptErrorView::Unreadable(reason).text() == "Parse response failed: "@ + reason,
        AttemptErrorView::Response(error).text() == error.text(),
{
}

/// Each error of a response says in words what is wrong, and where.
pub proof fn law_response_errors_in_words(position: usize, got: usize)
    ensures
        ResponseError::MissingData.text() == "Invalid embedding response: missing data array"@,
        (ResponseError::CountMismatch { expected: position, got }).text()
            == "Embedding count mismatch: expected "@ + decimal(position as nat) + ", got "@
            + decimal(got as nat),
        (ResponseError::InvalidIndex { position }).text() == "Invalid embedding index at item "@
            + decimal(position as nat),
        (ResponseError::DuplicateIndex { index: position }).text()
            == "Duplicate embedding index: "@ + decimal(position as nat),
        (ResponseError::NotAVector { position }).text() == "Embedding item "@ + decimal(
            position as nat,
        ) + " is not a float vector"@,
        (ResponseError::InvalidVector { position }).text() == "Invalid embedding vector at item "@
            + decimal(position as nat),
        (ResponseError::InconsistentDimensions { position }).text()
            == "Inconsistent embedding dimensions at item "@ + decimal(position as nat),
{
}

} // verus!

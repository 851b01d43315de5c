//! What comes back when a channel is asked.
use vstd::prelude::*;

#[allow(unused_imports)]
use crate::json::{json_of, Json};
use crate::response::{parse_embedding_response, ResponseError};
#[allow(unused_imports)]
use crate::response::{
    decodes_by, lemma_parse_is_determined, may_parse, outcome_view, parsed_by, vector_views,
};
use crate::text::excerpt;
#[allow(unused_imports)]
use crate::text::{decimal, leading};

verus! {

/// How many characters of a refusal's body are kept.
pub const EXCERPT_LEN: usize = 300;

/// How a status code is written, its number and its standard reason.
pub uninterp spec fn status_text(code: u16) -> Seq<char>;

/// Calls `reqwest::StatusCode::from_u16` and writes the code with its `Display`: there is a status
/// code for every number of three digits and for no other, and its text starts with the number
/// and a space. The reason that follows is left to the name.
#[verifier::external_body]
fn status_line(code: u16) -> (r: Option<String>)
    ensures
        r is Some <==> 100 <= code <= 999,
        r matches Some(line) ==> {
            &&& line@ == status_text(code)
            &&& (decimal(code as nat) + " "@).is_prefix_of(line@)
        },
{
    match reqwest::StatusCode::from_u16(code) {
        Ok(status) => Some(format!("{}", status)),
        Err(_) => None,
    }
}

/// An HTTP status code.
#[derive(Debug)]
pub struct HttpStatus {
    code: u16,
    line: String,
}

/// A status with this number tells of success.
pub open spec fn is_success_code(code: u16) -> bool {
    200 <= code < 300
}

/// A line that starts with this number and a space.
pub open spec fn starts_with_number(line: Seq<char>, code: u16) -> bool {
    (decimal(code as nat) + " "@).is_prefix_of(line)
}

impl HttpStatus {
    #[verifier::type_invariant]
    spec fn is_written_out(self) -> bool {
        &&& self.line@ == status_text(self.code)
        &&& starts_with_number(self.line@, self.code)
    }

    /// The number of the status.
    pub closed spec fn code(self) -> u16 {
        self.code
    }

    /// The status with this number; every number of three digits has one.
    pub fn from_code(code: u16) -> (r: Option<HttpStatus>)
        ensures
            r is Some <==> 100 <= code <= 999,
            r matches Some(status) ==> status.code() == code,
    {
        match status_line(code) {
            Some(line) => Some(HttpStatus { code, line }),
            None => None,
        }
    }

    /// Tells whether the request succeeded.
    pub fn is_success(&self) -> (r: bool)
        ensures
            r == is_success_code(self.code()),
    {
        200 <= self.code && self.code < 300
    }

    /// The status as text.
    pub fn line(&self) -> (r: String)
        ensures
            r@ == status_text(self.code()),
            starts_with_number(r@, self.code()),
    {
        proof {
            use_type_invariant(self);
        }
        self.line.clone()
    }

    /// Settles how the body is read: as JSON after a success, as text otherwise.
    pub fn reading(self) -> (r: Reading)
        ensures
            match r {
                Reading::Json(success) => success.code() == self.code() && is_success_code(
                    self.code(),
                ),
                Reading::Text(failure) => failure.code() == self.code() && !is_success_code(
                    self.code(),
                ),
            },
    {
        if self.is_success() {
            Reading::Json(SuccessStatus { status: self })
        } else {
            Reading::Text(FailureStatus { status: self })
        }
    }
}

/// A status that tells of success.
#[derive(Debug)]
pub struct SuccessStatus {
    status: HttpStatus,
}

impl SuccessStatus {
    #[verifier::type_invariant]
    spec fn is_a_success(self) -> bool {
        is_success_code(self.status.code())
    }

    /// The number of the status.
    pub closed spec fn code(self) -> u16 {
        self.status.code()
    }
}

/// A status that does not tell of success.
#[derive(Debug)]
pub struct FailureStatus {
    status: HttpStatus,
}

impl FailureStatus {
    #[verifier::type_invariant]
    spec fn is_no_success(self) -> bool {
        !is_success_code(self.status.code())
    }

    /// The number of the status.
    pub closed spec fn code(self) -> u16 {
        self.status.code()
    }
}

/// How the body of an answer is read.
#[derive(Debug)]
pub enum Reading {
    Json(SuccessStatus),
    Text(FailureStatus),
}

/// What came back from a channel. Only an answer with success has a body that was read as JSON.
#[derive(Debug)]
pub enum Reply {
    /// The request could not be sent or was not answered, for this reason.
    Unanswered(String),
    /// The channel answered without success, and with this text.
    Refused { failure: FailureStatus, text: String },
    /// The channel answered with success, and a body that could not be read as JSON for this
    /// reason.
    Unreadable { success: SuccessStatus, reason: String },
    /// The channel answered with success, and this body.
    Answered { success: SuccessStatus, body: serde_json::Value },
}

/// The number of the status that a reply came with, if the channel answered.
pub open spec fn reply_code(reply: Reply) -> Option<u16> {
    match reply {
        Reply::Unanswered(_) => None,
        Reply::Refused { failure, .. } => Some(failure.code()),
        Reply::Unreadable { success, .. } => Some(success.code()),
        Reply::Answered { success, .. } => Some(success.code()),
    }
}

/// The status decides how the body was read: it was refused exactly if the status tells of no
/// success.
pub open spec fn is_read_by_status(reply: Reply) -> bool {
    match reply_code(reply) {
        None => true,
        Some(code) => reply is Refused <==> !is_success_code(code),
    }
}

/// Why a channel gave no embeddings.
#[derive(Debug)]
pub enum AttemptError {
    RequestFailed(String),
    Status { line: String, excerpt: String },
    Unreadable(String),
    Response(ResponseError),
}

/// The model of an [`AttemptError`].
pub enum AttemptErrorView {
    RequestFailed(Seq<char>),
    Status { line: Seq<char>, excerpt: Seq<char> },
    Unreadable(Seq<char>),
    Response(ResponseError),
}

impl View for AttemptError {
    type V = AttemptErrorView;

    open spec fn view(&self) -> AttemptErrorView {
        match self {
            AttemptError::RequestFailed(reason) => AttemptErrorView::RequestFailed(reason@),
            AttemptError::Status { line, excerpt } => AttemptErrorView::Status {
                line: line@,
                excerpt: excerpt@,
            },
            AttemptError::Unreadable(reason) => AttemptErrorView::Unreadable(reason@),
            AttemptError::Response(error) => AttemptErrorView::Response(*error),
        }
    }
}

impl AttemptErrorView {
    /// The error in words.
    pub open spec fn text(self) -> Seq<char> {
        match self {
            AttemptErrorView::RequestFailed(reason) => "Request failed: "@ + reason,
            AttemptErrorView::Status { line, excerpt } => "HTTP "@ + line + ": "@ + excerpt,
            AttemptErrorView::Unreadable(reason) => "Parse response failed: "@ + reason,
            AttemptErrorView::Response(error) => error.text(),
        }
    }
}

impl AttemptError {
    /// Puts the error into words.
    pub fn message(&self) -> (r: String)
        ensures
            r@ == self@.text(),
    {
        match self {
            AttemptError::RequestFailed(reason) => {
                "Request failed: ".to_owned().concat(reason.as_str())
            },
            AttemptError::Status { line, excerpt } => {
                "HTTP ".to_owned().concat(line.as_str()).concat(": ").concat(excerpt.as_str())
            },
            AttemptError::Unreadable(reason) => {
                "Parse response failed: ".to_owned().concat(reason.as_str())
            },
            AttemptError::Response(error) => error.message(),
        }
    }
}

/// The model of what asking a channel came to.
pub open spec fn attempt_view(outcome: Result<Vec<Vec<u32>>, AttemptError>) -> Result<
    Seq<Seq<u32>>,
    AttemptErrorView,
> {
    match outcome {
        Ok(vectors) => Ok(vector_views(vectors@)),
        Err(error) => Err(error@),
    }
}

/// What a response comes to, as the outcome of asking a channel.
pub open spec fn response_outcome(parsed: Result<Seq<Seq<u32>>, ResponseError>) -> Result<
    Seq<Seq<u32>>,
    AttemptErrorView,
> {
    match parsed {
        Ok(vectors) => Ok(vectors),
        Err(error) => Err(AttemptErrorView::Response(error)),
    }
}

/// Read with `decode`, a reply to `expected` texts may come to `outcome`. Only a body that was read
/// as JSON leaves anything to `decode`.
pub open spec fn may_come_to<D: Fn(&serde_json::Value) -> Option<Vec<u32>>>(
    decode: D,
    reply: Reply,
    expected: usize,
    outcome: Result<Seq<Seq<u32>>, AttemptErrorView>,
) -> bool {
    &&& is_read_by_status(reply)
    &&& match reply {
        Reply::Unanswered(reason) => outcome == Err::<Seq<Seq<u32>>, AttemptErrorView>(
            AttemptErrorView::RequestFailed(reason@),
        ),
        Reply::Refused { failure, text } => outcome == Err::<Seq<Seq<u32>>, AttemptErrorView>(
            refusal(failure.code(), text@),
        ),
        Reply::Unreadable { reason, .. } => outcome == Err::<Seq<Seq<u32>>, AttemptErrorView>(
            AttemptErrorView::Unreadable(reason@),
        ),
        Reply::Answered { body, .. } => exists|parsed: Result<Seq<Seq<u32>>, ResponseError>|
            #[trigger] may_parse(decode, json_of(body), expected, parsed) && outcome
                == response_outcome(parsed),
    }
}

/// The error of an answer without success: its status, and the beginning of its text.
pub open spec fn refusal(code: u16, text: Seq<char>) -> AttemptErrorView {
    AttemptErrorView::Status {
        line: status_text(code),
        excerpt: leading(text, EXCERPT_LEN as nat),
    }
}

/// What a reply to `expected` texts comes to, where `meaning` tells the vector of an embedding.
pub open spec fn comes_to_by(
    meaning: spec_fn(Json) -> Option<Seq<u32>>,
    reply: Reply,
    expected: usize,
) -> Result<Seq<Seq<u32>>, AttemptErrorView> {
    match reply {
        Reply::Unanswered(reason) => Err(AttemptErrorView::RequestFailed(reason@)),
        Reply::Refused { failure, text } => Err(refusal(failure.code(), text@)),
        Reply::Unreadable { reason, .. } => Err(AttemptErrorView::Unreadable(reason@)),
        Reply::Answered { body, .. } => response_outcome(
            parsed_by(meaning, json_of(body), expected),
        ),
    }
}

/// A decoder that goes by what a value holds leaves nothing open.
pub(crate) proof fn lemma_reply_is_determined<D: Fn(&serde_json::Value) -> Option<Vec<u32>>>(
    decode: D,
    meaning: spec_fn(Json) -> Option<Seq<u32>>,
    reply: Reply,
    expected: usize,
    outcome: Result<Seq<Seq<u32>>, AttemptErrorView>,
)
    requires
        decodes_by(decode, meaning),
        may_come_to(decode, reply, expected, outcome),
    ensures
        outcome == comes_to_by(meaning, reply, expected),
{
    if let Reply::Answered { body, .. } = reply {
        let parsed = choose|parsed: Result<Seq<Seq<u32>>, ResponseError>| #[trigger]
            may_parse(decode, json_of(body), expected, parsed) && outcome == response_outcome(
                parsed,
            );
        lemma_parse_is_determined(decode, meaning, json_of(body), expected, parsed);
    }
}

/// Reads what came back from a channel that was asked about `expected_count` texts.
pub fn read_reply<D: Fn(&serde_json::Value) -> Option<Vec<u32>>>(
    reply: &Reply,
    expected_count: usize,
    decode: &D,
) -> (r: Result<Vec<Vec<u32>>, AttemptError>)
    requires
        forall|value: &serde_json::Value| call_requires(*decode, (value,)),
    ensures
        may_come_to(*decode, *reply, expected_count, attempt_view(r)),
        forall|meaning: spec_fn(Json) -> Option<Seq<u32>>| #[trigger]
            decodes_by(*decode, meaning) ==> attempt_view(r) == comes_to_by(
                meaning,
                *reply,
                expected_count,
            ),
        r matches Ok(vectors) ==> vectors@.len() == expected_count,
        match (r, *reply) {
            (Err(AttemptError::Status { line, .. }), Reply::Refused { failure, .. }) =>
                starts_with_number(line@, failure.code()),
            _ => true,
        },
{
    let r: Result<Vec<Vec<u32>>, AttemptError> = match reply {
        Reply::Unanswered(reason) => Err(AttemptError::RequestFailed(reason.clone())),
        Reply::Refused { failure, text } => {
            proof {
                use_type_invariant(failure);
            }
            Err(
                AttemptError::Status {
                    line: failure.status.line(),
                    excerpt: excerpt(text.as_str(), EXCERPT_LEN),
                },
            )
        },
        Reply::Unreadable { success, reason } => {
            proof {
                use_type_invariant(success);
            }
            Err(AttemptError::Unreadable(reason.clone()))
        },
        Reply::Answered { success, body } => {
            proof {
                use_type_invariant(success);
            }
            let parsed = parse_embedding_response(body, expected_count, decode);
            assert(may_parse(*decode, json_of(*body), expected_count, outcome_view(parsed)));
            match parsed {
                Ok(vectors) => Ok(vectors),
                Err(error) => Err(AttemptError::Response(error)),
            }
        },
    };
    proof {
        let outcome = attempt_view(r);
        assert(may_come_to(*decode, *reply, expected_count, outcome));
        assert forall|meaning: spec_fn(Json) -> Option<Seq<u32>>| #[trigger]
            decodes_by(*decode, meaning) implies outcome == comes_to_by(
            meaning,
            *reply,
            expected_count,
        ) by {
            lemma_reply_is_determined(*decode, meaning, *reply, expected_count, outcome);
        }
    }
    r
}

} // verus!

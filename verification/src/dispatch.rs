//! The worker's decisions: once a network call has finished, turn what came
//! back into the single text that is sent to the UI. The call itself and the
//! channels around it live outside the library; the library fixes, for every
//! possible outcome, exactly what text answers it.

use vstd::prelude::*;
use crate::format::pretty_format_json;
use crate::format::pretty_spec;

verus! {

/// What the worker observed for one submitted request once the call finished.
pub enum Outcome {
    /// The call itself, or reading its body, failed; the field holds the
    /// error's textual description.
    Failure { message: String },
    /// The call succeeded, with this `Content-Type` header value (absent when
    /// the response carried none, or one that was not valid text) and this
    /// body text.
    Success { content_type: Option<String>, body: String },
}

/// A `Content-Type` value turns pretty-printing on only when it is exactly
/// this text: no parameters, so `application/json; charset=utf-8` does not
/// match.
pub open spec fn spec_is_json_content_type(v: Seq<char>) -> bool {
    v == "application/json"@
}

/// The text shown for an outcome: the error text on failure; on success the
/// body, pretty-printed exactly when the `Content-Type` matched.
pub open spec fn response_text_spec(outcome: Outcome) -> Seq<char> {
    match outcome {
        Outcome::Failure { message } => message@,
        Outcome::Success { content_type, body } => match content_type {
            Some(v) => if spec_is_json_content_type(v@) {
                pretty_spec(body@)
            } else {
                body@
            },
            None => body@,
        },
    }
}

/// Character-by-character string equality.
fn str_eq(a: &str, b: &str) -> (r: bool)
    ensures
        r == (a@ == b@),
{
    let a_len = a.unicode_len();
    let b_len = b.unicode_len();
    if a_len != b_len {
        proof {
            if a@ == b@ {
                assert(a@.len() == b@.len());
            }
        }
        return false;
    }
    let mut i: usize = 0;
    while i < a_len
        invariant
            a_len == a@.len(),
            b_len == b@.len(),
            a_len == b_len,
            i <= a_len,
            forall|j: int| 0 <= j < i ==> a@[j] == b@[j],
        decreases a_len - i,
    {
        if a.get_char(i) != b.get_char(i) {
            proof {
                if a@ == b@ {
                    assert(a@[i as int] == b@[i as int]);
                }
            }
            return false;
        }
        i = i + 1;
    }
    proof {
        assert(a@ =~= b@);
    }
    true
}

/// Whether a `Content-Type` header value turns pretty-printing on.
pub fn is_json_content_type(v: &str) -> (r: bool)
    ensures
        r == spec_is_json_content_type(v@),
{
    str_eq(v, "application/json")
}

/// Turns one outcome into the single text sent back to the UI.
pub fn response_text(outcome: Outcome) -> (r: String)
    ensures
        r@ == response_text_spec(outcome),
{
    match outcome {
        Outcome::Failure { message } => message,
        Outcome::Success { content_type, body } => match content_type {
            Some(v) => {
                if is_json_content_type(v.as_str()) {
                    pretty_format_json(body.as_str())
                } else {
                    body
                }
            },
            None => body,
        },
    }
}

/// The texts the worker sends back for a queue of outcomes, earliest first.
pub open spec fn responses_for(outcomes: Seq<Outcome>) -> Seq<Seq<char>>
    decreases outcomes.len(),
{
    if outcomes.len() == 0 {
        Seq::empty()
    } else {
        seq![response_text_spec(outcomes[0])] + responses_for(outcomes.drop_first())
    }
}

/// One response per request, in submission order: a queue of N outcomes
/// yields exactly N texts, and the text at each position answers the request
/// at that same position.
pub proof fn lemma_one_response_per_request(outcomes: Seq<Outcome>)
    ensures
        responses_for(outcomes).len() == outcomes.len(),
        forall|i: int|
            0 <= i < outcomes.len() ==> responses_for(outcomes)[i] == response_text_spec(
                outcomes[i],
            ),
    decreases outcomes.len(),
{
    if outcomes.len() > 0 {
        lemma_one_response_per_request(outcomes.drop_first());
        assert forall|i: int|
            0 <= i < outcomes.len() implies responses_for(outcomes)[i] == response_text_spec(
            outcomes[i],
        ) by {
            if i > 0 {
                assert(outcomes.drop_first()[i - 1] == outcomes[i]);
            }
        }
    }
}

} // verus!

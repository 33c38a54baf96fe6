//! One candidate's attempt: what its quote and commit answers mean, and the
//! commit request it sends.
use vstd::prelude::*;
use crate::error::{ResyAPIError, ResyClientError};
use crate::json::{as_number_text, as_str, get, member, number_text, str_value, Json};

verus! {

/// The quote a quote answer carries: `book_token.value`, where it is a
/// string.
pub open spec fn quote_token_of(response: Json) -> Option<Seq<char>> {
    str_value(member(member(Some(response), "book_token"@), "value"@))
}

/// The confirmation a commit answer carries: `resy_token`, where it is a
/// string or a number (then in its printed form).
pub open spec fn confirmation_of(response: Json) -> Option<Seq<char>> {
    let token = member(Some(response), "resy_token"@);
    match str_value(token) {
        Some(s) => Some(s),
        None => number_text(token),
    }
}

/// Reads the quote of a slot from the answer to its quote request. A
/// refused request is an `ApiError`; an answer without a quote is
/// `NotFound`.
pub fn quote_from_response(response: Result<Json, ResyAPIError>) -> (r: Result<String, ResyClientError>)
    ensures
        response is Err ==> (r matches Err(e) && e is ApiError),
        response matches Ok(j) ==> match quote_token_of(j) {
            Some(t) => r matches Ok(q) && q@ == t,
            None => r matches Err(e) && e is NotFound,
        },
{
    match response {
        Err(e) => Err(ResyClientError::ApiError(e.message)),
        Ok(j) => {
            let value = as_str(get(get(Some(&j), "book_token"), "value"));
            match value {
                Some(t) => Ok(t.clone()),
                None => Err(ResyClientError::NotFound(String::from_str("Book token not found"))),
            }
        },
    }
}

/// Reads the confirmation from the answer to a commit. A refused commit, and
/// an answer that does not carry a confirmation, are a `BookingError`: an
/// ambiguous answer is never taken for success.
pub fn confirmation_from_response(response: Result<Json, ResyAPIError>) -> (r: Result<
    String,
    ResyClientError,
>)
    ensures
        response is Err ==> (r matches Err(e) && e is BookingError),
        response matches Ok(j) ==> match confirmation_of(j) {
            Some(t) => r matches Ok(c) && c@ == t,
            None => r matches Err(e) && e is BookingError,
        },
{
    match response {
        Err(e) => Err(ResyClientError::BookingError(e.message)),
        Ok(j) => {
            let token = get(Some(&j), "resy_token");
            match as_str(token) {
                Some(t) => Ok(t.clone()),
                None => match as_number_text(token) {
                    Some(t) => Ok(t.clone()),
                    None => Err(ResyClientError::BookingError(String::from_str("Error booking reservation"))),
                },
            }
        },
    }
}

/// A character that percent-encoding leaves as it is.
pub open spec fn unreserved(c: char) -> bool {
    ('0' <= c && c <= '9') || ('A' <= c && c <= 'Z') || ('a' <= c && c <= 'z') || c == '-' || c == '.'
        || c == '_' || c == '~'
}

/// What `urlencoding::encode` makes of `s`.
pub uninterp spec fn url_encoded(s: Seq<char>) -> Seq<char>;

/// Relies on `urlencoding::encode`: percent-encodes every byte but ASCII
/// letters, digits and `-`, `.`, `_`, `~`, so a text of those alone comes
/// back as it is.
#[verifier::external_body]
fn url_encode(s: &str) -> (r: String)
    ensures
        r@ == url_encoded(s@),
        (forall|i: int| 0 <= i < s@.len() ==> unreserved(#[trigger] s@[i])) ==> r@ == s@,
{
    urlencoding::encode(s).into_owned()
}

/// The form body of a commit, from its quote already percent-encoded and
/// the payment method: `book_token=<quote>&struct_payment_method={"id":<payment>}`.
pub fn commit_form(encoded_token: &str, payment_id: &str) -> (r: String)
    ensures
        r@ == "book_token="@ + encoded_token@ + "&struct_payment_method={\"id\":"@ + payment_id@ + "}"@,
{
    let mut body = String::from_str("book_token=");
    body.append(encoded_token);
    body.append("&struct_payment_method={\"id\":");
    body.append(payment_id);
    body.append("}");
    body
}

/// The form body of a commit: the quote, percent-encoded, and the payment
/// method. A quote of letters, digits and `-`, `.`, `_`, `~` alone is sent
/// as it is.
pub fn commit_body(book_token: &str, payment_id: &str) -> (r: String)
    ensures
        r@ == "book_token="@ + url_encoded(book_token@) + "&struct_payment_method={\"id\":"@ + payment_id@
            + "}"@,
        (forall|i: int| 0 <= i < book_token@.len() ==> unreserved(#[trigger] book_token@[i])) ==> r@
            == "book_token="@ + book_token@ + "&struct_payment_method={\"id\":"@ + payment_id@ + "}"@,
{
    let encoded = url_encode(book_token);
    commit_form(encoded.as_str(), payment_id)
}

} // verus!

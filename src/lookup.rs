//! Identifiers a session needs before a race: the venue's slug, read from
//! its booking page address, the venue's id, and the account's payment
//! method.
use vstd::prelude::*;
use crate::config::Config;
use crate::error::{ResyAPIError, ResyClientError};
use crate::json::{as_array, as_i64, as_number_text, as_u64, at, get, Json};
use crate::json::{element, i64_value, member, number_text, u64_value};

verus! {

/// The text that precedes a venue's slug in a booking page address.
pub open spec fn venues_marker() -> Seq<char> {
    seq!['v', 'e', 'n', 'u', 'e', 's', '/']
}

/// `url` holds the marker at position `p`.
pub open spec fn marker_at(url: Seq<char>, p: int) -> bool {
    0 <= p && p + 7 <= url.len() && url.subrange(p, p + 7) == venues_marker()
}

/// Whether the marker stands at position `p` of `url`.
fn has_marker_at(url: &str, n: usize, p: usize) -> (r: bool)
    requires
        n == url@.len(),
        p + 7 <= n,
    ensures
        r == marker_at(url@, p as int),
{
    let marker: [char; 7] = ['v', 'e', 'n', 'u', 'e', 's', '/'];
    assert(marker@ =~= venues_marker());
    let mut k: usize = 0;
    while k < 7
        invariant
            k <= 7,
            p + 7 <= n == url@.len(),
            marker@ == venues_marker(),
            forall|j: int| 0 <= j < k ==> url@[p + j] == marker@[j],
        decreases 7 - k,
    {
        if url.get_char(p + k) != marker[k] {
            assert(url@.subrange(p as int, p + 7)[k as int] != venues_marker()[k as int]);
            return false;
        }
        k = k + 1;
    }
    assert(url@.subrange(p as int, p + 7) =~= venues_marker());
    true
}

/// Reads a venue's slug from the address of its booking page: the text
/// after the first `venues/`, up to a `?` or the end. An address without
/// `venues/` is `InvalidInput`.
pub fn extract_venue_slug(url: &str) -> (r: Result<String, ResyClientError>)
    ensures
        r is Ok <==> exists|p: int| marker_at(url@, p),
        r matches Err(e) ==> e is InvalidInput,
        r matches Ok(slug) ==> exists|p: int|
            {
                &&& marker_at(url@, p)
                &&& forall|q: int| 0 <= q < p ==> !marker_at(url@, q)
                &&& p + 7 + slug@.len() <= url@.len()
                &&& slug@ == url@.subrange(p + 7, p + 7 + slug@.len())
                &&& forall|k: int| p + 7 <= k < p + 7 + slug@.len() ==> url@[k] != '?'
                &&& (p + 7 + slug@.len() == url@.len() || url@[p + 7 + slug@.len()] == '?')
            },
{
    let n = url.unicode_len();
    let mut p: usize = 0;
    while n >= 7 && p <= n - 7
        invariant
            n == url@.len(),
            forall|q: int| 0 <= q < p ==> !marker_at(url@, q),
        decreases n + 1 - p,
    {
        if has_marker_at(url, n, p) {
            let start = p + 7;
            let mut end = start;
            while end < n && url.get_char(end) != '?'
                invariant
                    start <= end <= n == url@.len(),
                    forall|k: int| start <= k < end ==> url@[k] != '?',
                decreases n - end,
            {
                end = end + 1;
            }
            let slug = String::from_str(url.substring_char(start, end));
            assert(slug@.len() == end - start);
            return Ok(slug);
        }
        p = p + 1;
    }
    assert forall|q: int| marker_at(url@, q) implies false by {
        assert(q < p || q + 7 > n);
    }
    Err(ResyClientError::InvalidInput(String::from_str("invalid resy url")))
}

/// The payment method id of an account: the first entry of
/// `payment_methods`, whose `id` is an integer, in its printed form.
pub open spec fn payment_id_of(user: Json) -> Option<Seq<char>> {
    let id = member(element(member(Some(user), "payment_methods"@), 0), "id"@);
    if i64_value(id) is Some {
        number_text(id)
    } else {
        None
    }
}

/// Reads the payment method from the answer to an account request. A
/// refused request is an `ApiError`; an account without a usable payment
/// method is `NotFound`.
pub fn payment_id_from_user(response: Result<Json, ResyAPIError>) -> (r: Result<String, ResyClientError>)
    ensures
        response is Err ==> (r matches Err(e) && e is ApiError),
        response matches Ok(u) ==> match payment_id_of(u) {
            Some(p) => r matches Ok(q) && q@ == p,
            None => r matches Err(e) && e is NotFound,
        },
{
    match response {
        Err(e) => Err(ResyClientError::ApiError(e.message)),
        Ok(u) => {
            let methods = get(Some(&u), "payment_methods");
            if as_array(methods).is_none() {
                return Err(ResyClientError::NotFound(String::from_str("No payment method found in resy account")));
            }
            let first = at(methods, 0);
            if first.is_none() {
                return Err(ResyClientError::NotFound(String::from_str("Payment method list is empty")));
            }
            let id = get(first, "id");
            match (as_i64(id), as_number_text(id)) {
                (Some(_), Some(text)) => Ok(text.clone()),
                _ => Err(ResyClientError::NotFound(String::from_str("Payment ID not found"))),
            }
        },
    }
}

/// The id of a venue: `id.resy`, where it is an integer in `u64`.
pub open spec fn venue_id_of(venue: Json) -> Option<u64> {
    u64_value(member(member(Some(venue), "id"@), "resy"@))
}

impl Config {
    /// Records the venue of a session from its slug and the answer to the
    /// venue request. The slug is kept in any case; the id, in its printed
    /// form, where the answer carries one. A refused request is an
    /// `ApiError`; an answer without an id is `NotFound`.
    pub fn set_venue(&mut self, slug: String, response: Result<Json, ResyAPIError>) -> (r: Result<
        u64,
        ResyClientError,
    >)
        ensures
            final(self).venue_slug == slug,
            response is Err ==> (r matches Err(e) && e is ApiError),
            response matches Ok(v) ==> match venue_id_of(v) {
                Some(id) => r == Ok::<u64, ResyClientError>(id) && Some(final(self).venue_id@) == number_text(
                    member(member(Some(v), "id"@), "resy"@),
                ),
                None => r matches Err(e) && e is NotFound,
            },
            r is Err ==> final(self).venue_id == old(self).venue_id,
            final(self).api_key == old(self).api_key,
            final(self).auth_token == old(self).auth_token,
            final(self).date == old(self).date,
            final(self).party_size == old(self).party_size,
            final(self).target_time == old(self).target_time,
            final(self).payment_id == old(self).payment_id,
    {
        self.venue_slug = slug;
        match response {
            Err(e) => Err(ResyClientError::ApiError(e.message)),
            Ok(v) => {
                let resy = get(get(Some(&v), "id"), "resy");
                match (as_u64(resy), as_number_text(resy)) {
                    (Some(id), Some(text)) => {
                        self.venue_id = text.clone();
                        Ok(id)
                    },
                    _ => Err(ResyClientError::NotFound(String::from_str("Venue ID not found"))),
                }
            },
        }
    }
}

} // verus!

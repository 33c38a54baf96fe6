//! The session parameters of a race: credentials, venue, date, party size,
//! preferred time and payment method.
use vstd::prelude::*;
use crate::error::ResyClientError;

verus! {

/// The parameters of a reservation session.
#[derive(Debug)]
pub struct Config {
    pub api_key: String,
    pub auth_token: String,
    pub venue_id: String,
    pub venue_slug: String,
    /// The date wanted, `YYYY-MM-DD`.
    pub date: String,
    pub party_size: u8,
    /// The preferred time of day, `HHMM`.
    pub target_time: Option<String>,
    pub payment_id: String,
}

/// The party size a new configuration has.
pub fn _default_party_size() -> (r: u8)
    ensures
        r == 2,
{
    2
}

/// The date `days` days from today, `YYYY-MM-DD`.
///
/// Relies on chrono: `Utc::now`, `NaiveDate::checked_add_days` and
/// `format`. The result depends on the clock, so nothing is stated of it.
#[verifier::external_body]
fn date_in_days(days: u64) -> (r: Option<String>) {
    let d = chrono::Utc::now().date_naive().checked_add_days(chrono::Days::new(days))?;
    Some(d.format("%Y-%m-%d").to_string())
}

/// The date a new configuration asks for: a week from today, or none where
/// the calendar ends before that.
pub fn default_date() -> String {
    match date_in_days(7) {
        Some(d) => d,
        None => String::new(),
    }
}

impl Default for Config {
    /// Empty credentials, venue and payment method, a party of two, a week
    /// from today, no preferred time.
    fn default() -> (r: Config)
        ensures
            r.api_key@.len() == 0,
            r.auth_token@.len() == 0,
            r.venue_id@.len() == 0,
            r.venue_slug@.len() == 0,
            r.party_size == 2,
            r.target_time is None,
            r.payment_id@.len() == 0,
    {
        Config {
            api_key: String::new(),
            auth_token: String::new(),
            venue_id: String::new(),
            venue_slug: String::new(),
            date: default_date(),
            party_size: _default_party_size(),
            target_time: None,
            payment_id: String::new(),
        }
    }
}

/// A decimal digit's value.
pub open spec fn digit(c: char) -> int {
    c as int - '0' as int
}

pub open spec fn is_digit(c: char) -> bool {
    '0' <= c && c <= '9'
}

/// `s` is a time of day written `HHMM`: four digits, an hour below 24 and a
/// minute below 60.
pub open spec fn is_clock_time(s: Seq<char>) -> bool {
    &&& s.len() == 4
    &&& forall|i: int| 0 <= i < 4 ==> is_digit(#[trigger] s[i])
    &&& digit(s[0]) * 10 + digit(s[1]) < 24
    &&& digit(s[2]) * 10 + digit(s[3]) < 60
}

/// Whether `s` is a time of day written `HHMM`.
pub fn valid_clock_time(s: &str) -> (r: bool)
    ensures
        r == is_clock_time(s@),
{
    if s.unicode_len() != 4 {
        return false;
    }
    let a = s.get_char(0);
    let b = s.get_char(1);
    let c = s.get_char(2);
    let d = s.get_char(3);
    if !('0' <= a && a <= '9' && '0' <= b && b <= '9' && '0' <= c && c <= '9' && '0' <= d && d <= '9') {
        assert(!(is_digit(s@[0]) && is_digit(s@[1]) && is_digit(s@[2]) && is_digit(s@[3])));
        return false;
    }
    let hours = (a as u32 - '0' as u32) * 10 + (b as u32 - '0' as u32);
    let minutes = (c as u32 - '0' as u32) * 10 + (d as u32 - '0' as u32);
    hours < 24 && minutes < 60
}

/// What `NaiveDate::parse_from_str(s, "%Y-%m-%d")` followed by `to_string`
/// makes of `s`, or `None` where the date cannot be read.
pub uninterp spec fn normalized_date(s: Seq<char>) -> Option<Seq<char>>;

/// Relies on chrono's `NaiveDate::parse_from_str` with `%Y-%m-%d`, and on the
/// date's `to_string`.
#[verifier::external_body]
fn normalize_date(s: &str) -> (r: Option<String>)
    ensures
        match r {
            Some(d) => normalized_date(s@) == Some(d@),
            None => normalized_date(s@) is None,
        },
{
    let d = chrono::NaiveDate::parse_from_str(s, "%Y-%m-%d").ok()?;
    Some(d.to_string())
}

impl Config {
    /// The session may race: credentials, venue, date and payment method
    /// are set and the party is not empty.
    pub open spec fn complete(&self) -> bool {
        self.api_key@.len() > 0 && self.auth_token@.len() > 0 && self.venue_id@.len() > 0
            && self.date@.len() > 0 && self.party_size > 0 && self.payment_id@.len() > 0
    }

    /// Whether the session may race: credentials, venue, date and payment
    /// method are set and the party is not empty.
    pub fn validate(&self) -> (r: bool)
        ensures
            r == self.complete(),
    {
        !self.api_key.as_str().is_empty() && !self.auth_token.as_str().is_empty()
            && !self.venue_id.as_str().is_empty() && !self.date.as_str().is_empty() && self.party_size
            > 0 && !self.payment_id.as_str().is_empty()
    }

    /// A session that may race, or `InvalidInput` where a parameter is
    /// missing.
    pub fn check_complete(&self) -> (r: Result<(), ResyClientError>)
        ensures
            r is Ok <==> self.complete(),
            r matches Err(e) ==> e is InvalidInput,
    {
        if self.validate() {
            Ok(())
        } else {
            Err(ResyClientError::InvalidInput(String::from_str("reservation config is not complete")))
        }
    }

    /// An equal configuration.
    pub fn duplicate(&self) -> (r: Config)
        ensures
            r == *self,
    {
        Config {
            api_key: self.api_key.clone(),
            auth_token: self.auth_token.clone(),
            venue_id: self.venue_id.clone(),
            venue_slug: self.venue_slug.clone(),
            date: self.date.clone(),
            party_size: self.party_size,
            target_time: match &self.target_time {
                Some(t) => Some(t.clone()),
                None => None,
            },
            payment_id: self.payment_id.clone(),
        }
    }

    /// Takes the options of a venue query, with the date already in its
    /// normal form (`YYYY-MM-DD`): the date and party size where given, and
    /// the preferred time (`HHMM`), which is cleared where none is given. A
    /// time that cannot be read is `InvalidInput`, and then nothing changes.
    pub fn apply_options(&mut self, date: Option<String>, party_size: Option<u8>, target_time: Option<&str>) -> (r:
        Result<(), ResyClientError>)
        ensures
            r is Ok <==> (target_time matches Some(t) ==> is_clock_time(t@)),
            r matches Err(e) ==> e is InvalidInput && *final(self) == *old(self),
            r is Ok ==> {
                &&& final(self).date == match date {
                    Some(d) => d,
                    None => old(self).date,
                }
                &&& final(self).party_size == match party_size {
                    Some(p) => p,
                    None => old(self).party_size,
                }
                &&& match target_time {
                    Some(t) => final(self).target_time matches Some(tt) && tt@ == t@,
                    None => final(self).target_time is None,
                }
                &&& final(self).api_key == old(self).api_key
                &&& final(self).auth_token == old(self).auth_token
                &&& final(self).venue_id == old(self).venue_id
                &&& final(self).venue_slug == old(self).venue_slug
                &&& final(self).payment_id == old(self).payment_id
            },
    {
        let new_time = match target_time {
            Some(t) => {
                if !valid_clock_time(t) {
                    return Err(
                        ResyClientError::InvalidInput(
                            String::from_str(
                                "Invalid time format. Please use HHMM format, where HH is 00 to 23 and MM is 00 to 59.",
                            ),
                        ),
                    );
                }
                Some(String::from_str(t))
            },
            None => None,
        };
        if let Some(d) = date {
            self.date = d;
        }
        if let Some(p) = party_size {
            self.party_size = p;
        }
        self.target_time = new_time;
        Ok(())
    }

    /// Takes the options of a venue query: a date (`YYYY-MM-DD`), which is
    /// kept in its normal form, a party size, and a preferred time (`HHMM`),
    /// which is cleared where none is given. A date or a time that cannot be
    /// read is `InvalidInput`, and then nothing changes.
    pub fn apply_view_options(
        &mut self,
        date: Option<&str>,
        party_size: Option<u8>,
        target_time: Option<&str>,
    ) -> (r: Result<(), ResyClientError>)
        ensures
            r is Ok <==> (date matches Some(d) ==> normalized_date(d@) is Some) && (target_time matches Some(
                t,
            ) ==> is_clock_time(t@)),
            r matches Err(e) ==> e is InvalidInput && *final(self) == *old(self),
            r is Ok ==> {
                &&& final(self).date@ == match date {
                    Some(d) => normalized_date(d@)->0,
                    None => old(self).date@,
                }
                &&& final(self).party_size == match party_size {
                    Some(p) => p,
                    None => old(self).party_size,
                }
                &&& match target_time {
                    Some(t) => final(self).target_time matches Some(tt) && tt@ == t@,
                    None => final(self).target_time is None,
                }
                &&& final(self).api_key == old(self).api_key
                &&& final(self).auth_token == old(self).auth_token
                &&& final(self).venue_id == old(self).venue_id
                &&& final(self).venue_slug == old(self).venue_slug
                &&& final(self).payment_id == old(self).payment_id
            },
    {
        let normalized = match date {
            Some(d) => match normalize_date(d) {
                Some(n) => Some(n),
                None => {
                    return Err(
                        ResyClientError::InvalidInput(
                            String::from_str("Invalid date format. Please use YYYY-MM-DD."),
                        ),
                    );
                },
            },
            None => None,
        };
        self.apply_options(normalized, party_size, target_time)
    }
}

} // verus!

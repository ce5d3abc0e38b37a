//! One journal entry: a trimmed description and the time it is dated.
use vstd::prelude::*;

use crate::text::{trim, trim_str};
use crate::timestamp::{
    date_parsed, datetime_parsed, now_local, parse_date, parse_datetime, Timestamp,
};

verus! {

/// Index of the first line break in `s`, or its length when there is none.
pub open spec fn line_end(s: Seq<char>) -> nat
    decreases s.len(),
{
    if s.len() == 0 || s[0] == '\n' {
        0
    } else {
        1 + line_end(s.drop_first())
    }
}

/// Relies on `str::split_once`: the text before the first line break and the
/// text after it, or `None` when there is no line break.
#[verifier::external_body]
fn split_first_line(s: &str) -> (r: Option<(&str, &str)>)
    ensures
        match r {
            None => line_end(s@) == s@.len(),
            Some((a, b)) => line_end(s@) < s@.len() && a@ == s@.take(line_end(s@) as int) && b@
                == s@.skip(line_end(s@) + 1int),
        },
{
    s.split_once('\n')
}

/// The timestamp that a line states: a date and time, or else a date, at
/// midnight.
pub open spec fn line_timestamp(line: Seq<char>) -> Option<Timestamp> {
    match datetime_parsed(line) {
        Some(t) => Some(t),
        None => match date_parsed(line) {
            Some((y, m, d)) => Some(
                Timestamp { year: y, month: m, day: d, hour: 0, minute: 0, second: 0, nanosecond: 0 },
            ),
            None => None,
        },
    }
}

/// The timestamp stated on the first line of `s` and the trimmed text after
/// that line, where `s` has more than one line and its first line states one.
pub open spec fn front_matter(s: Seq<char>) -> Option<(Timestamp, Seq<char>)> {
    let i = line_end(s);
    if i < s.len() {
        match line_timestamp(s.take(i as int)) {
            Some(t) => Some((t, trim(s.skip(i + 1int)))),
            None => None,
        }
    } else {
        None
    }
}

/// The entry read from raw text, dated `now` where the text states no date.
pub open spec fn parsed_entry(raw: Seq<char>, now: Timestamp) -> (Seq<char>, Timestamp) {
    match front_matter(trim(raw)) {
        Some((t, body)) => (body, t),
        None => (trim(raw), now),
    }
}

/// A journal entry. Its timestamp is always a valid date and time.
#[derive(Debug, PartialEq, Eq)]
pub struct Entry {
    description: String,
    timestamp: Timestamp,
}

impl View for Entry {
    type V = (Seq<char>, Timestamp);

    closed spec fn view(&self) -> (Seq<char>, Timestamp) {
        (self.description@, self.timestamp)
    }
}

/// The timestamp that a line states, if any.
fn read_line_timestamp(line: &str) -> (r: Option<Timestamp>)
    ensures
        r == line_timestamp(line@),
        r is Some ==> r->0.wf(),
{
    match parse_datetime(line) {
        Some(t) => Some(t),
        None => match parse_date(line) {
            Some((y, m, d)) => Timestamp::midnight(y, m, d),
            None => None,
        },
    }
}

impl Entry {
    #[verifier::type_invariant]
    closed spec fn inv(self) -> bool {
        self.timestamp.wf()
    }

    /// Reads an entry from raw text, dated `now` unless the first line of the
    /// trimmed text states a date and time (or a date) and more lines follow.
    pub fn parse_at(raw: &str, now: Timestamp) -> (r: Entry)
        requires
            now.wf(),
        ensures
            r@ == parsed_entry(raw@, now),
    {
        let s = trim_str(raw);
        if let Some((first, rest)) = split_first_line(s) {
            if let Some(t) = read_line_timestamp(first) {
                return Entry { description: trim_str(rest).to_string(), timestamp: t };
            }
        }
        Entry { description: s.to_string(), timestamp: now }
    }

    /// Reads an entry from raw text; where the text states no date on its
    /// first line, the entry is dated now.
    pub fn parse(raw: &str) -> (r: Entry)
        ensures
            match front_matter(trim(raw@)) {
                Some((t, body)) => r@ == (body, t),
                None => r@.0 == trim(raw@),
            },
    {
        Entry::parse_at(raw, now_local())
    }

    pub fn description(&self) -> (r: &str)
        ensures
            r@ == self@.0,
    {
        self.description.as_str()
    }

    pub fn timestamp(&self) -> (r: Timestamp)
        ensures
            r == self@.1,
            r.wf(),
    {
        proof {
            use_type_invariant(self);
        }
        self.timestamp
    }

    /// An entry with the given parts; `None` where the timestamp is not a
    /// valid date and time.
    pub fn from_parts(description: String, timestamp: Timestamp) -> (r: Option<Entry>)
        ensures
            r is Some <==> timestamp.wf(),
            r is Some ==> r->0@ == (description@, timestamp),
    {
        if timestamp.is_valid() {
            Some(Entry { description, timestamp })
        } else {
            None
        }
    }

    pub(crate) fn set_description(&mut self, description: String)
        ensures
            final(self)@ == (description@, old(self)@.1),
    {
        proof {
            use_type_invariant(&*self);
        }
        self.description = description;
    }
}

} // verus!

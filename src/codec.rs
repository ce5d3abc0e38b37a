//! The storage format: the journal as a count of entries followed by each
//! entry's description and timestamp, all in bincode's fixed-width layout.
use vstd::prelude::*;
use vstd::utf8::encode_utf8;

use crate::db::EntryModel;
use crate::timestamp::Timestamp;

verus! {

/// An entry as it is stored: description, then year, month, day, hour,
/// minute, second and nanosecond.
pub type Record = (String, i32, u32, u32, u32, u32, u32, u32);

pub open spec fn record_model(x: Record) -> EntryModel {
    (
        x.0@,
        Timestamp {
            year: x.1,
            month: x.2,
            day: x.3,
            hour: x.4,
            minute: x.5,
            second: x.6,
            nanosecond: x.7,
        },
    )
}

pub open spec fn records_model(v: Seq<Record>) -> Seq<EntryModel> {
    v.map_values(|x: Record| record_model(x))
}

/// The `k` low bytes of `n`, least significant first.
pub open spec fn le_bytes(n: nat, k: nat) -> Seq<u8>
    decreases k,
{
    if k == 0 {
        Seq::empty()
    } else {
        seq![(n % 256) as u8] + le_bytes(n / 256, (k - 1) as nat)
    }
}

pub open spec fn u32_bytes(n: u32) -> Seq<u8> {
    le_bytes(n as nat, 4)
}

/// Two's complement in four bytes.
pub open spec fn i32_bytes(n: i32) -> Seq<u8> {
    if n >= 0 {
        le_bytes(n as nat, 4)
    } else {
        le_bytes((n + 0x1_0000_0000) as nat, 4)
    }
}

pub open spec fn u64_bytes(n: nat) -> Seq<u8> {
    le_bytes(n, 8)
}

/// A text: its length in UTF-8 bytes, then those bytes.
pub open spec fn str_bytes(s: Seq<char>) -> Seq<u8> {
    u64_bytes(encode_utf8(s).len()) + encode_utf8(s)
}

pub open spec fn entry_bytes(e: EntryModel) -> Seq<u8> {
    str_bytes(e.0) + i32_bytes(e.1.year) + u32_bytes(e.1.month) + u32_bytes(e.1.day) + u32_bytes(
        e.1.hour,
    ) + u32_bytes(e.1.minute) + u32_bytes(e.1.second) + u32_bytes(e.1.nanosecond)
}

pub open spec fn entries_bytes(s: Seq<EntryModel>) -> Seq<u8>
    decreases s.len(),
{
    if s.len() == 0 {
        Seq::empty()
    } else {
        entries_bytes(s.drop_last()) + entry_bytes(s.last())
    }
}

/// The stored form of a journal: the number of entries, then the entries.
pub open spec fn db_bytes(s: Seq<EntryModel>) -> Seq<u8> {
    u64_bytes(s.len()) + entries_bytes(s)
}

/// What bincode reads from bytes as a list of records.
pub uninterp spec fn bincode_decoded(b: Seq<u8>) -> Option<Seq<EntryModel>>;

/// Relies on `bincode::serialize` (fixed-width little-endian integers, a
/// `u64` length before each sequence and string, no size limit), which cannot
/// fail on strings, integers, tuples and vectors.
#[verifier::external_body]
pub(crate) fn encode_records(records: &Vec<Record>) -> (r: Option<Vec<u8>>)
    ensures
        r is Some,
        r->0@ == db_bytes(records_model(records@)),
{
    bincode::serialize(records).ok()
}

/// Relies on `bincode::deserialize` with the same layout: it reads back what
/// `bincode::serialize` wrote, and what it reads is the encoding of a start of
/// the bytes (bytes after it are allowed).
#[verifier::external_body]
pub(crate) fn decode_records(b: &[u8]) -> (r: Option<Vec<Record>>)
    ensures
        r is Some <==> bincode_decoded(b@) is Some,
        r is Some ==> bincode_decoded(b@) == Some(records_model(r->0@)),
        r is Some ==> db_bytes(records_model(r->0@)).is_prefix_of(b@),
        forall|s: Seq<EntryModel>| b@ == db_bytes(s) ==> r is Some && records_model(r->0@) == s,
{
    bincode::deserialize(b).ok()
}

} // verus!

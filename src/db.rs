//! The journal: entries kept in chronological order, edited by position.
use vstd::prelude::*;
use vstd::string::StringExecFns;

use crate::codec::{
    bincode_decoded, db_bytes, entries_bytes, decode_records, encode_records, record_model, records_model, Record,
};
use crate::entry::Entry;
use crate::text::{join_lines, padded_decimal, preview, push_line, truncate, zero_padded4};
use crate::timestamp::{date_text, date_text_of, ts_le, Timestamp};

verus! {

/// What an entry is to the journal: its description and its timestamp.
pub type EntryModel = (Seq<char>, Timestamp);

/// Why an operation on the journal failed.
#[derive(Clone, Copy, Debug, PartialEq, Eq, Structural)]
pub enum DbError {
    /// No entry stands at the index given.
    OutOfRange,
    /// Stored bytes are no encoding of a journal.
    Decode,
    /// The storage location could not be resolved.
    Config,
}

/// Entries in non-decreasing order of their timestamps.
pub open spec fn sorted(s: Seq<EntryModel>) -> bool {
    forall|i: int, j: int| 0 <= i < j < s.len() ==> ts_le(#[trigger] s[i].1, #[trigger] s[j].1)
}

/// Where an entry dated `t` goes: after every entry at the end of `s` that is
/// dated later than `t`, so after all that are dated no later.
pub open spec fn insert_index(s: Seq<EntryModel>, t: Timestamp) -> nat
    decreases s.len(),
{
    if s.len() == 0 {
        0
    } else if ts_le(s.last().1, t) {
        s.len()
    } else {
        insert_index(s.drop_last(), t)
    }
}

/// The date of a timestamp as the calendar backend writes it.
pub open spec fn date_of(t: Timestamp) -> Seq<char> {
    date_text_of(t.year as int, t.month as int, t.day as int)
}

/// `- <date>: <description>`.
pub open spec fn markdown_line(e: EntryModel) -> Seq<char> {
    seq!['-', ' '] + date_of(e.1) + seq![':', ' '] + e.0
}

/// `[NNNN] <date>: <description shortened to 40 characters>`.
pub open spec fn overview_line(i: int, e: EntryModel) -> Seq<char> {
    seq!['['] + padded_decimal(i as nat, 4) + seq![']', ' '] + date_of(e.1) + seq![':', ' ']
        + preview(e.0, 40)
}

pub open spec fn markdown_text(s: Seq<EntryModel>) -> Seq<char> {
    join_lines(s.map_values(|e: EntryModel| markdown_line(e)))
}

pub open spec fn overview_text(s: Seq<EntryModel>) -> Seq<char> {
    join_lines(s.map(|i: int, e: EntryModel| overview_line(i, e)))
}

/// What a stored journal must be: every timestamp a valid date and time,
/// and the entries in order.
pub open spec fn valid_journal(s: Seq<EntryModel>) -> bool {
    &&& forall|i: int| 0 <= i < s.len() ==> (#[trigger] s[i]).1.wf()
    &&& sorted(s)
}

/// What reading a journal from bytes gives: the journal that bincode reads
/// there where it is valid, else a decode error. The encoding of a journal
/// read from bytes is always a start of those bytes.
pub open spec fn decoded_journal(b: Seq<u8>) -> Result<Seq<EntryModel>, DbError> {
    match bincode_decoded(b) {
        Some(s) => if valid_journal(s) {
            Ok(s)
        } else {
            Err(DbError::Decode)
        },
        None => Err(DbError::Decode),
    }
}

/// The stored form of the empty journal is eight zero bytes, and it reads
/// back as the empty journal.
pub proof fn lemma_empty_journal_bytes()
    ensures
        db_bytes(Seq::<EntryModel>::empty()) == seq![0u8, 0u8, 0u8, 0u8, 0u8, 0u8, 0u8, 0u8],
        valid_journal(Seq::<EntryModel>::empty()),
{
    let e = Seq::<EntryModel>::empty();
    reveal_with_fuel(crate::codec::le_bytes, 9);
    assert(entries_bytes(e) =~= Seq::<u8>::empty());
    assert(db_bytes(e) =~= seq![0u8, 0u8, 0u8, 0u8, 0u8, 0u8, 0u8, 0u8]);
}

/// Inserting an entry where `insert_index` says keeps a sorted journal
/// sorted, and the new entry follows every entry dated the same.
pub proof fn lemma_insert_keeps_order(s: Seq<EntryModel>, e: EntryModel)
    requires
        sorted(s),
    ensures
        sorted(s.insert(insert_index(s, e.1) as int, e)),
        insert_index(s, e.1) <= s.len(),
        forall|j: int| 0 <= j < insert_index(s, e.1) ==> ts_le(#[trigger] s[j].1, e.1),
        forall|j: int| insert_index(s, e.1) <= j < s.len() ==> !ts_le(#[trigger] s[j].1, e.1),
    decreases s.len(),
{
    if s.len() > 0 {
        let p = s.drop_last();
        assert(sorted(p));
        lemma_insert_keeps_order(p, e);
        if ts_le(s.last().1, e.1) {
            assert forall|j: int| 0 <= j < s.len() implies ts_le(#[trigger] s[j].1, e.1) by {
                crate::timestamp::lemma_ts_le_total_order(s[j].1, s.last().1, e.1);
            }
        } else {
            assert forall|j: int| insert_index(s, e.1) <= j < s.len() implies !ts_le(
                #[trigger] s[j].1,
                e.1,
            ) by {
                if j < s.len() - 1 {
                    assert(p[j] == s[j]);
                }
            }
            assert forall|j: int| 0 <= j < insert_index(s, e.1) implies ts_le(
                #[trigger] s[j].1,
                e.1,
            ) by {
                assert(p[j] == s[j]);
            }
        }
    }
    let k = insert_index(s, e.1) as int;
    let r = s.insert(k, e);
    assert forall|i: int, j: int| 0 <= i < j < r.len() implies ts_le(
        #[trigger] r[i].1,
        #[trigger] r[j].1,
    ) by {
        if i < k && j == k {
        } else if i == k && j > k {
            crate::timestamp::lemma_ts_le_total_order(e.1, s[j - 1].1, e.1);
        } else if i < k && j > k {
            crate::timestamp::lemma_ts_le_total_order(s[i].1, e.1, s[j - 1].1);
        } else if j < k {
            assert(r[i] == s[i] && r[j] == s[j]);
        } else {
            assert(r[i] == s[i - 1] && r[j] == s[j - 1]);
        }
    }
}

/// The journal's entries, in order of their timestamps; among entries dated
/// the same, in the order they were added.
#[derive(Debug)]
pub struct Db {
    entries: Vec<Entry>,
}

impl View for Db {
    type V = Seq<EntryModel>;

    closed spec fn view(&self) -> Seq<EntryModel> {
        self.entries@.map_values(|e: Entry| e@)
    }
}

impl Default for Db {
    fn default() -> (r: Db)
        ensures
            r@ == Seq::<EntryModel>::empty(),
    {
        Db::new()
    }
}

impl Db {
    #[verifier::type_invariant]
    closed spec fn inv(self) -> bool {
        valid_journal(self.entries@.map_values(|e: Entry| e@))
    }

    /// An empty journal.
    pub fn new() -> (r: Db)
        ensures
            r@ == Seq::<EntryModel>::empty(),
    {
        let r = Db { entries: Vec::new() };
        assert(r@ =~= Seq::<EntryModel>::empty());
        r
    }

    pub fn len(&self) -> (r: usize)
        ensures
            r == self@.len(),
    {
        self.entries.len()
    }

    pub fn is_empty(&self) -> (r: bool)
        ensures
            r == (self@.len() == 0),
    {
        self.entries.len() == 0
    }

    /// Adds an entry after every entry dated no later than it.
    pub fn push_entry(&mut self, entry: Entry)
        ensures
            final(self)@ == old(self)@.insert(insert_index(old(self)@, entry@.1) as int, entry@),
            sorted(final(self)@),
    {
        proof {
            use_type_invariant(&*self);
        }
        let t = entry.timestamp();
        let ghost s = self@;
        let mut i: usize = self.entries.len();
        assert(s.take(i as int) =~= s);
        while i > 0 && !self.entries[i - 1].timestamp().le(&t)
            invariant
                i <= s.len(),
                s == self@,
                insert_index(s, t) == insert_index(s.take(i as int), t),
            decreases i,
        {
            proof {
                assert(s.take(i as int).drop_last() =~= s.take(i - 1));
            }
            i = i - 1;
        }
        proof {
            if i > 0 {
                assert(s.take(i as int).last() == s[i - 1]);
            }
            assert(s.take(0) =~= Seq::<EntryModel>::empty());
            lemma_insert_keeps_order(s, entry@);
        }
        let mut v: Vec<Entry> = Vec::new();
        std::mem::swap(&mut self.entries, &mut v);
        v.insert(i, entry);
        assert(v@.map_values(|e: Entry| e@) =~= s.insert(i as int, entry@));
        self.entries = v;
    }

    /// Removes the entry at `idx`; the entries after it move down by one.
    pub fn delete_entry(&mut self, idx: usize) -> (r: Result<(), DbError>)
        ensures
            idx < old(self)@.len() ==> r is Ok && final(self)@ == old(self)@.remove(idx as int),
            idx >= old(self)@.len() ==> r == Err::<(), DbError>(DbError::OutOfRange)
                && final(self)@ == old(self)@,
    {
        proof {
            use_type_invariant(&*self);
        }
        if idx >= self.entries.len() {
            return Err(DbError::OutOfRange);
        }
        let ghost s = self@;
        proof {
            assert(sorted(s.remove(idx as int))) by {
                assert forall|i: int, j: int|
                    0 <= i < j < s.remove(idx as int).len() implies ts_le(
                    #[trigger] s.remove(idx as int)[i].1,
                    #[trigger] s.remove(idx as int)[j].1,
                ) by {
                    let a = if i < idx { i } else { i + 1 };
                    let b = if j < idx { j } else { j + 1 };
                    assert(s[a] == s.remove(idx as int)[i]);
                    assert(s[b] == s.remove(idx as int)[j]);
                }
            }
        }
        let mut v: Vec<Entry> = Vec::new();
        std::mem::swap(&mut self.entries, &mut v);
        v.remove(idx);
        assert(v@.map_values(|e: Entry| e@) =~= s.remove(idx as int));
        self.entries = v;
        Ok(())
    }

    /// Replaces the description of the entry at `idx`; its timestamp and
    /// place stay.
    pub fn replace_entry_description(&mut self, idx: usize, description: String) -> (r: Result<
        (),
        DbError,
    >)
        ensures
            idx < old(self)@.len() ==> r is Ok && final(self)@ == old(self)@.update(
                idx as int,
                (description@, old(self)@[idx as int].1),
            ),
            idx >= old(self)@.len() ==> r == Err::<(), DbError>(DbError::OutOfRange)
                && final(self)@ == old(self)@,
    {
        proof {
            use_type_invariant(&*self);
        }
        if idx >= self.entries.len() {
            return Err(DbError::OutOfRange);
        }
        let ghost s = self@;
        let ghost n = (description@, s[idx as int].1);
        proof {
            assert forall|i: int, j: int|
                0 <= i < j < s.len() implies ts_le(
                #[trigger] s.update(idx as int, n)[i].1,
                #[trigger] s.update(idx as int, n)[j].1,
            ) by {
                assert(s.update(idx as int, n)[i].1 == s[i].1);
                assert(s.update(idx as int, n)[j].1 == s[j].1);
            }
        }
        let mut v: Vec<Entry> = Vec::new();
        std::mem::swap(&mut self.entries, &mut v);
        v[idx].set_description(description);
        assert(v@.map_values(|e: Entry| e@) =~= s.update(idx as int, n));
        self.entries = v;
        Ok(())
    }

    /// The journal as a Markdown list, one `- <date>: <description>` line per
    /// entry.
    pub fn markdown(&self) -> (r: String)
        ensures
            r@ == markdown_text(self@),
    {
        let ghost ls = self@.map_values(|e: EntryModel| markdown_line(e));
        let mut out = String::new();
        assert(ls.take(0) =~= Seq::<Seq<char>>::empty());
        let mut i: usize = 0;
        while i < self.entries.len()
            invariant
                i <= self@.len(),
                ls == self@.map_values(|e: EntryModel| markdown_line(e)),
                out@ == join_lines(ls.take(i as int)),
            decreases self@.len() - i,
        {
            let e = &self.entries[i];
            let t = e.timestamp();
            let mut line = String::new();
            line.append("- ");
            line.append(date_text(t.year, t.month, t.day).as_str());
            line.append(": ");
            line.append(e.description());
            proof {
                reveal_strlit("- ");
                reveal_strlit(": ");
                assert(line@ =~= ls[i as int]);
            }
            push_line(&mut out, line.as_str(), Ghost(ls), i);
            i = i + 1;
        }
        assert(ls.take(i as int) =~= ls);
        out
    }

    /// The numbered overview of the journal, one line per entry:
    /// `[NNNN] <date>: <description shortened to 40 characters>`. The numbers
    /// are the indices that the editing operations take.
    pub fn entry_overview(&self) -> (r: String)
        ensures
            r@ == overview_text(self@),
    {
        let ghost ls = self@.map(|i: int, e: EntryModel| overview_line(i, e));
        let mut out = String::new();
        assert(ls.take(0) =~= Seq::<Seq<char>>::empty());
        let mut i: usize = 0;
        while i < self.entries.len()
            invariant
                i <= self@.len(),
                ls == self@.map(|i: int, e: EntryModel| overview_line(i, e)),
                out@ == join_lines(ls.take(i as int)),
            decreases self@.len() - i,
        {
            let e = &self.entries[i];
            let t = e.timestamp();
            let mut line = String::new();
            line.append("[");
            line.append(zero_padded4(i).as_str());
            line.append("] ");
            line.append(date_text(t.year, t.month, t.day).as_str());
            line.append(": ");
            line.append(truncate(e.description(), 40).as_str());
            proof {
                reveal_strlit("[");
                reveal_strlit("] ");
                reveal_strlit(": ");
                assert(line@ =~= ls[i as int]);
            }
            push_line(&mut out, line.as_str(), Ghost(ls), i);
            i = i + 1;
        }
        assert(ls.take(i as int) =~= ls);
        out
    }

    /// The stored form of the journal.
    pub fn to_bytes(&self) -> (r: Vec<u8>)
        ensures
            r@ == db_bytes(self@),
            valid_journal(self@),
    {
        proof {
            use_type_invariant(self);
        }
        let mut records: Vec<Record> = Vec::new();
        let mut i: usize = 0;
        while i < self.entries.len()
            invariant
                i <= self@.len(),
                records_model(records@) == self@.take(i as int),
            decreases self@.len() - i,
        {
            let e = &self.entries[i];
            let t = e.timestamp();
            let rec: Record = (
                e.description().to_string(),
                t.year,
                t.month,
                t.day,
                t.hour,
                t.minute,
                t.second,
                t.nanosecond,
            );
            assert(record_model(rec) == self@[i as int]);
            let ghost before = records@;
            records.push(rec);
            assert(records@ == before.push(rec));
            assert(records_model(records@) =~= records_model(before).push(record_model(rec)));
            assert(self@.take(i + 1) =~= self@.take(i as int).push(self@[i as int]));
            i = i + 1;
        }
        assert(self@.take(i as int) =~= self@);
        encode_records(&records).unwrap()
    }

    /// Reads a journal from its stored form. Bytes that do not hold a valid
    /// journal give a decode error; the bytes written for a journal give that
    /// journal back.
    pub fn from_bytes(bytes: &[u8]) -> (r: Result<Db, DbError>)
        ensures
            match decoded_journal(bytes@) {
                Ok(s) => r is Ok && r->Ok_0@ == s,
                Err(e) => r is Err && r->Err_0 == e,
            },
            forall|s: Seq<EntryModel>|
                valid_journal(s) && bytes@ == db_bytes(s) ==> r is Ok && r->Ok_0@ == s,
            r is Ok ==> db_bytes(r->Ok_0@).is_prefix_of(bytes@),
    {
        let records = match decode_records(bytes) {
            Some(v) => v,
            None => {
                return Err(DbError::Decode);
            },
        };
        let ghost s = records_model(records@);
        let mut entries: Vec<Entry> = Vec::new();
        let mut i: usize = 0;
        while i < records.len()
            invariant
                i <= records@.len(),
                s == records_model(records@),
                bincode_decoded(bytes@) == Some(s),
                db_bytes(s).is_prefix_of(bytes@),
                forall|s2: Seq<EntryModel>| bytes@ == db_bytes(s2) ==> s2 == s,
                entries@.map_values(|e: Entry| e@) == s.take(i as int),
                valid_journal(s.take(i as int)),
            decreases records@.len() - i,
        {
            let rec = &records[i];
            let t = Timestamp {
                year: rec.1,
                month: rec.2,
                day: rec.3,
                hour: rec.4,
                minute: rec.5,
                second: rec.6,
                nanosecond: rec.7,
            };
            assert(s[i as int].1 == t);
            if !t.is_valid() {
                assert(!valid_journal(s)) by {
                    assert(!s[i as int].1.wf());
                }
                return Err(DbError::Decode);
            }
            if i > 0 && !entries[i - 1].timestamp().le(&t) {
                assert(!valid_journal(s)) by {
                    assert(entries@.map_values(|e: Entry| e@)[i - 1] == s.take(i as int)[i - 1]);
                    assert(!ts_le(s[i - 1].1, s[i as int].1));
                }
                return Err(DbError::Decode);
            }
            let entry = match Entry::from_parts(rec.0.clone(), t) {
                Some(e) => e,
                None => {
                    return Err(DbError::Decode);
                },
            };
            proof {
                let p = s.take(i + 1);
                assert(p[i as int] == s[i as int]);
                assert forall|a: int, b: int| 0 <= a < b < p.len() implies ts_le(
                    #[trigger] p[a].1,
                    #[trigger] p[b].1,
                ) by {
                    if b == i && a < i - 1 {
                        assert(s.take(i as int)[a] == p[a]);
                        assert(s.take(i as int)[i - 1] == p[i - 1]);
                        crate::timestamp::lemma_ts_le_total_order(p[a].1, p[i - 1].1, p[b].1);
                    } else if b < i {
                        assert(s.take(i as int)[a] == p[a]);
                        assert(s.take(i as int)[b] == p[b]);
                    } else {
                        assert(entries@.map_values(|e: Entry| e@)[i - 1] == s[i - 1]);
                    }
                }
                assert forall|a: int| 0 <= a < p.len() implies (#[trigger] p[a]).1.wf() by {
                    if a < i {
                        assert(s.take(i as int)[a] == p[a]);
                    }
                }
            }
            entries.push(entry);
            assert(entries@.map_values(|e: Entry| e@) =~= s.take(i + 1));
            i = i + 1;
        }
        assert(s.take(i as int) =~= s);
        Ok(Db { entries })
    }

    /// Opens a journal from what its file holds, `None` where there is no file
    /// yet. On first use the journal is empty and its stored form is handed
    /// back for the caller to write, so that the file then exists; otherwise
    /// the stored bytes are read as `from_bytes` says and nothing is to be
    /// written.
    pub fn read_stored(stored: Option<&[u8]>) -> (r: Result<(Db, Option<Vec<u8>>), DbError>)
        ensures
            stored is None ==> r is Ok && r->Ok_0.0@ == Seq::<EntryModel>::empty() && r->Ok_0.1
                is Some && r->Ok_0.1->0@ == db_bytes(Seq::<EntryModel>::empty()),
            stored is Some ==> match decoded_journal(stored->0@) {
                Ok(s) => r is Ok && r->Ok_0.0@ == s && r->Ok_0.1 is None,
                Err(e) => r is Err && r->Err_0 == e,
            },
            forall|s: Seq<EntryModel>|
                #![trigger db_bytes(s)]
                stored is Some && valid_journal(s) && stored->0@ == db_bytes(s) ==> r is Ok
                    && r->Ok_0.0@ == s && r->Ok_0.1 is None,
    {
        match stored {
            None => {
                let db = Db::new();
                let bytes = db.to_bytes();
                Ok((db, Some(bytes)))
            },
            Some(b) => match Db::from_bytes(b) {
                Ok(db) => Ok((db, None)),
                Err(e) => Err(e),
            },
        }
    }

    /// The description of the entry at `idx`.
    pub fn get_entry_description(&self, idx: usize) -> (r: Result<&str, DbError>)
        ensures
            idx < self@.len() ==> r is Ok && r->Ok_0@ == self@[idx as int].0,
            idx >= self@.len() ==> r == Err::<&str, DbError>(DbError::OutOfRange),
    {
        if idx >= self.entries.len() {
            return Err(DbError::OutOfRange);
        }
        Ok(self.entries[idx].description())
    }
}

} // verus!

//! The cache as a file: rows of text fields in comma-separated form.
//!
//! Reading and writing the file itself is left to the caller. This module
//! turns a cache into the bytes to write and the bytes that were read into a
//! cache, dropping on the way every entry that is older than the caller
//! allows.

use vstd::prelude::*;
use crate::entry::{Age, EntryModel, Instant};
use crate::error::OpenringError;
use crate::record::{
    decode_row, encode_row, entry_of, fits, lemma_row_round_trip, row_of, ROW_FIELDS,
};
use crate::scan::texts;
use crate::urls::is_normal_url;
use crate::store::{lists, Cache};

verus! {

/// `csv::Error`, the fault that the `csv` reader or writer reports. Nothing
/// is known of what it holds.
#[verifier::external_type_specification]
#[verifier::external_body]
pub struct ExCsvError(csv::Error);

/// The line that the `csv` writer makes of one row of fields, terminator
/// included.
pub uninterp spec fn csv_line_text(fields: Seq<Seq<char>>) -> Seq<u8>;

/// The rows that the `csv` reader finds in a text, all with the same number
/// of fields; `None` where it finds a fault.
pub uninterp spec fn csv_rows(bytes: Seq<u8>) -> Option<Seq<Seq<Seq<char>>>>;

/// The texts of a table of fields.
pub open spec fn table_text(rows: Seq<Vec<String>>) -> Seq<Seq<Seq<char>>> {
    rows.map_values(|row: Vec<String>| texts(row@))
}

/// What reading gave, without the fault's details.
pub open spec fn read_text(r: Result<Vec<Vec<String>>, csv::Error>) -> Option<
    Seq<Seq<Seq<char>>>,
> {
    match r {
        Ok(rows) => Some(table_text(rows@)),
        Err(_) => None,
    }
}

/// `csv::Writer::write_record` on a new writer without headers that writes
/// into memory, then `into_inner`: it succeeds, and the bytes are the line
/// for these fields. The writer fails only where what it writes into does,
/// which memory never does, or where a record has another number of fields
/// than the first, and this record is the first.
#[verifier::external_body]
fn csv_line(fields: &Vec<String>) -> (r: Result<Vec<u8>, csv::Error>)
    ensures
        r is Ok,
        r matches Ok(line) ==> line@ == csv_line_text(texts(fields@)),
{
    let mut writer = csv::WriterBuilder::new().has_headers(false).from_writer(Vec::new());
    writer.write_record(fields)?;
    writer.into_inner().map_err(|e| csv::Error::from(e.into_error()))
}

/// `csv::Reader::records` on a reader without headers: all rows of the text,
/// or the first fault.
#[verifier::external_body]
fn csv_read(bytes: &[u8]) -> (r: Result<Vec<Vec<String>>, csv::Error>)
    ensures
        read_text(r) == csv_rows(bytes@),
{
    let mut reader = csv::ReaderBuilder::new().has_headers(false).from_reader(bytes);
    reader.records().map(|row| row.map(|fields| fields.iter().map(String::from).collect())).collect()
}

/// The `Display` text of a `csv::Error`.
#[verifier::external_body]
fn csv_error_text(e: &csv::Error) -> String {
    e.to_string()
}

/// The text of a table: its lines one after the other.
pub open spec fn document(table: Seq<Seq<Seq<char>>>) -> Seq<u8>
    decreases table.len(),
{
    if table.len() == 0 {
        Seq::empty()
    } else {
        document(table.drop_last()) + csv_line_text(table.last())
    }
}

/// At `now` the entry is younger than `max_age`.
pub open spec fn is_fresh(e: EntryModel, now: Instant, max_age: Age) -> bool {
    now.since_epoch() - e.timestamp.since_epoch() < max_age.length()
}

/// Every row of the table writes an entry.
pub open spec fn all_rows_valid(table: Seq<Seq<Seq<char>>>) -> bool {
    forall|i: int| 0 <= i < table.len() ==> (#[trigger] entry_of(table[i])) is Some
}

/// The entries of the table that are fresh, a later row of a URL in place
/// of an earlier one.
pub open spec fn kept(table: Seq<Seq<Seq<char>>>, now: Instant, max_age: Age) -> Map<
    Seq<char>,
    EntryModel,
>
    decreases table.len(),
{
    if table.len() == 0 {
        Map::empty()
    } else {
        let before = kept(table.drop_last(), now, max_age);
        match entry_of(table.last()) {
            Some((url, e)) => if is_fresh(e, now, max_age) {
                before.insert(url, e)
            } else {
                before
            },
            None => before,
        }
    }
}

/// The cache that a table gives at `now`: its fresh entries, or `None`
/// where a row writes no entry.
pub open spec fn loaded(table: Seq<Seq<Seq<char>>>, now: Instant, max_age: Age) -> Option<
    Map<Seq<char>, EntryModel>,
> {
    if all_rows_valid(table) {
        Some(kept(table, now, max_age))
    } else {
        None
    }
}

/// The table names every entry of `m` in one row, and nothing else.
pub open spec fn writes(table: Seq<Seq<Seq<char>>>, m: Map<Seq<char>, EntryModel>) -> bool {
    &&& forall|i: int|
        0 <= i < table.len() ==> (#[trigger] table[i]).len() == ROW_FIELDS && m.contains_key(
            table[i][0],
        ) && table[i] == row_of(table[i][0], m[table[i][0]])
    &&& forall|i: int, j: int|
        0 <= i < j < table.len() ==> (#[trigger] table[i])[0] != (#[trigger] table[j])[0]
    &&& forall|k: Seq<char>|
        m.contains_key(k) ==> exists|i: int| 0 <= i < table.len() && (#[trigger] table[i])[0] == k
}

impl Cache {
    /// The cache as a table, one row for each entry, in no particular order.
    pub fn to_records(&self) -> (rows: Vec<Vec<String>>)
        ensures
            writes(table_text(rows@), self@),
            forall|k: Seq<char>| self@.contains_key(k) ==> fits(#[trigger] self@[k]),
            forall|k: Seq<char>| self@.contains_key(k) ==> is_normal_url(k),
    {
        let pairs = self.entries();
        let mut rows: Vec<Vec<String>> = Vec::new();
        let mut i: usize = 0;
        while i < pairs.len()
            invariant
                0 <= i <= pairs.len(),
                rows.len() == i,
                lists(pairs@, self@),
                forall|j: int|
                    0 <= j < i ==> texts((#[trigger] rows@[j])@) == row_of(
                        pairs@[j].0@,
                        pairs@[j].1@,
                    ),
            decreases pairs.len() - i,
        {
            let row = encode_row(pairs[i].0.as_str(), &pairs[i].1);
            rows.push(row);
            i = i + 1;
        }
        proof {
            let table = table_text(rows@);
            assert forall|j: int| 0 <= j < table.len() implies (#[trigger] table[j]).len()
                == ROW_FIELDS && self@.contains_key(table[j][0]) && table[j] == row_of(
                table[j][0],
                self@[table[j][0]],
            ) by {
                assert(table[j] == texts(rows@[j]@));
                assert(self@.contains_key(pairs@[j].0@));
            }
            assert forall|a: int, b: int| 0 <= a < b < table.len() implies (#[trigger] table[a])[0]
                != (#[trigger] table[b])[0] by {
                assert(table[a] == texts(rows@[a]@));
                assert(table[b] == texts(rows@[b]@));
                assert(pairs@[a].0@ != pairs@[b].0@);
            }
            assert forall|k: Seq<char>| self@.contains_key(k) implies exists|j: int|
                0 <= j < table.len() && (#[trigger] table[j])[0] == k by {
                let j = choose|j: int| 0 <= j < pairs@.len() && #[trigger] pairs@[j].0@ == k;
                assert(table[j] == texts(rows@[j]@));
                assert(table[j][0] == k);
            }
            assert forall|k: Seq<char>| self@.contains_key(k) implies fits(#[trigger] self@[k]) by {
                let j = choose|j: int| 0 <= j < pairs@.len() && #[trigger] pairs@[j].0@ == k;
                assert(self@[k] == pairs@[j].1@);
            }
        }
        rows
    }

    /// The cache that a table gives at `now`: every entry of the table that
    /// is younger than `max_age`, a later row of a URL in place of an
    /// earlier one. A row that writes no entry, and one whose first field is
    /// no absolute URL, refuses the whole table.
    pub fn from_records(rows: &Vec<Vec<String>>, max_age: Age, now: Instant) -> (r: Result<
        Cache,
        OpenringError,
    >)
        ensures
            match loaded(table_text(rows@), now, max_age) {
                Some(m) => r matches Ok(cache) && cache@ == m,
                None => r matches Err(e) && e is CsvError,
            },
    {
        let ghost table = table_text(rows@);
        let mut cache = Cache::new();
        let mut i: usize = 0;
        while i < rows.len()
            invariant
                0 <= i <= rows.len(),
                table == table_text(rows@),
                all_rows_valid(table.subrange(0, i as int)),
                cache@ == kept(table.subrange(0, i as int), now, max_age),
            decreases rows.len() - i,
        {
            let ghost upto = table.subrange(0, i as int);
            let ghost next = table.subrange(0, i + 1);
            assert(next.drop_last() =~= upto);
            assert(next.last() == table[i as int]);
            assert(table[i as int] == texts(rows@[i as int]@));
            match decode_row(&rows[i]) {
                Some((url, entry)) => {
                    if now.as_nanos() - entry.timestamp.as_nanos() < max_age.as_nanos() {
                        proof {
                            crate::urls::lemma_normal_form(texts(rows@[i as int]@)[0]);
                        }
                        cache.upsert(url.as_str(), entry);
                    }
                    assert(all_rows_valid(next)) by {
                        assert forall|j: int| 0 <= j < next.len() implies (#[trigger] entry_of(
                            next[j],
                        )) is Some by {
                            if j < i {
                                assert(next[j] == upto[j]);
                            }
                        }
                    }
                },
                None => {
                    assert(entry_of(table[i as int]) is None);
                    return Err(
                        OpenringError::CsvError(String::from_str("a row does not hold a cache entry")),
                    );
                },
            }
            i = i + 1;
        }
        assert(table.subrange(0, i as int) =~= table);
        Ok(cache)
    }

    /// The bytes of the cache file for this cache: the text of a table that
    /// names every entry in one row. Writing into memory never fails.
    pub fn store(&self) -> (r: Result<Vec<u8>, OpenringError>)
        ensures
            r matches Ok(bytes) && exists|table: Seq<Seq<Seq<char>>>|
                writes(table, self@) && bytes@ == document(table),
    {
        let rows = self.to_records();
        let r = write_records(&rows);
        proof {
            assert(writes(table_text(rows@), self@));
        }
        r
    }

    /// The cache that the bytes of a cache file give at `now`, without the
    /// entries that are as old as `max_age` or older.
    ///
    /// Bytes in which the reader finds a fault, and a row that writes no
    /// entry, refuse the whole file.
    pub fn load(bytes: &[u8], max_age: Age, now: Instant) -> (r: Result<Cache, OpenringError>)
        ensures
            match csv_rows(bytes@) {
                Some(table) => match loaded(table, now, max_age) {
                    Some(m) => r matches Ok(cache) && cache@ == m,
                    None => r matches Err(e) && e is CsvError,
                },
                None => r matches Err(e) && e is CsvError,
            },
    {
        match read_records(bytes) {
            Ok(rows) => Cache::from_records(&rows, max_age, now),
            Err(e) => Err(e),
        }
    }
}

/// The text of a table of fields in comma-separated form. Writing into
/// memory never fails.
pub fn write_records(rows: &Vec<Vec<String>>) -> (r: Result<Vec<u8>, OpenringError>)
    ensures
        r matches Ok(bytes) && bytes@ == document(table_text(rows@)),
{
    let ghost table = table_text(rows@);
    let mut out: Vec<u8> = Vec::new();
    let mut i: usize = 0;
    while i < rows.len()
        invariant
            0 <= i <= rows.len(),
            table == table_text(rows@),
            out@ == document(table.subrange(0, i as int)),
        decreases rows.len() - i,
    {
        let ghost upto = table.subrange(0, i as int);
        let ghost next = table.subrange(0, i + 1);
        assert(next.drop_last() =~= upto);
        assert(next.last() == texts(rows@[i as int]@));
        match csv_line(&rows[i]) {
            Ok(mut line) => {
                out.append(&mut line);
            },
            Err(e) => {
                return Err(OpenringError::CsvError(csv_error_text(&e)));
            },
        }
        i = i + 1;
    }
    assert(table.subrange(0, i as int) =~= table);
    Ok(out)
}

/// The table of fields that a text in comma-separated form holds.
pub fn read_records(bytes: &[u8]) -> (r: Result<Vec<Vec<String>>, OpenringError>)
    ensures
        match csv_rows(bytes@) {
            Some(table) => r matches Ok(rows) && table_text(rows@) == table,
            None => r matches Err(e) && e is CsvError,
        },
{
    match csv_read(bytes) {
        Ok(rows) => Ok(rows),
        Err(e) => Err(OpenringError::CsvError(csv_error_text(&e))),
    }
}

/// Row `i` of the table writes the entry `e` for `url`, and `e` is fresh.
pub open spec fn fresh_row(
    table: Seq<Seq<Seq<char>>>,
    i: int,
    url: Seq<char>,
    e: EntryModel,
    now: Instant,
    max_age: Age,
) -> bool {
    0 <= i < table.len() && entry_of(table[i]) == Some((url, e)) && is_fresh(e, now, max_age)
}

/// Row `i` is the last row of the table that writes a fresh entry for `url`.
pub open spec fn last_fresh_row(
    table: Seq<Seq<Seq<char>>>,
    i: int,
    url: Seq<char>,
    e: EntryModel,
    now: Instant,
    max_age: Age,
) -> bool {
    &&& fresh_row(table, i, url, e, now, max_age)
    &&& forall|j: int, later: EntryModel|
        i < j ==> !#[trigger] fresh_row(table, j, url, later, now, max_age)
}

/// Loading keeps exactly the fresh entries: a URL has an entry afterwards if
/// and only if some row writes a fresh entry for it, and the entry it has is
/// the one of the last such row. Entries that are `max_age` old or older
/// are gone.
pub proof fn lemma_load_keeps_fresh(table: Seq<Seq<Seq<char>>>, now: Instant, max_age: Age)
    ensures
        forall|url: Seq<char>| #[trigger]
            kept(table, now, max_age).contains_key(url) <==> exists|i: int, e: EntryModel|
                fresh_row(table, i, url, e, now, max_age),
        forall|url: Seq<char>| #[trigger]
            kept(table, now, max_age).contains_key(url) ==> exists|i: int|
                last_fresh_row(table, i, url, kept(table, now, max_age)[url], now, max_age),
        forall|url: Seq<char>| #[trigger]
            kept(table, now, max_age).contains_key(url) ==> now.since_epoch() - kept(
                table,
                now,
                max_age,
            )[url].timestamp.since_epoch() < max_age.length(),
    decreases table.len(),
{
    let m = kept(table, now, max_age);
    if table.len() == 0 {
        assert forall|url: Seq<char>| #[trigger] m.contains_key(url) <==> exists|
            i: int,
            e: EntryModel,
        |
            fresh_row(table, i, url, e, now, max_age) by {}
    } else {
        let front = table.drop_last();
        let before = kept(front, now, max_age);
        let n = table.len() - 1;
        lemma_load_keeps_fresh(front, now, max_age);
        assert forall|i: int, url: Seq<char>, e: EntryModel| i < n implies (fresh_row(
            front,
            i,
            url,
            e,
            now,
            max_age,
        ) <==> #[trigger] fresh_row(table, i, url, e, now, max_age)) by {
            if 0 <= i < n {
                assert(front[i] == table[i]);
            }
        }
        let newest: Option<(Seq<char>, EntryModel)> = match entry_of(table.last()) {
            Some((u, e)) => if is_fresh(e, now, max_age) {
                Some((u, e))
            } else {
                None
            },
            None => None,
        };
        assert forall|url: Seq<char>| #[trigger] m.contains_key(url) implies exists|i: int|
            last_fresh_row(table, i, url, m[url], now, max_age) by {
            if newest is Some && newest.unwrap().0 == url {
                assert(fresh_row(table, n, url, newest.unwrap().1, now, max_age));
                assert(last_fresh_row(table, n, url, m[url], now, max_age));
            } else {
                assert(before.contains_key(url));
                assert(m[url] == before[url]);
                let i = choose|i: int| last_fresh_row(front, i, url, before[url], now, max_age);
                assert(fresh_row(table, i, url, m[url], now, max_age));
                assert forall|j: int, later: EntryModel| i < j implies !#[trigger] fresh_row(
                    table,
                    j,
                    url,
                    later,
                    now,
                    max_age,
                ) by {
                    if j < n {
                        assert(!fresh_row(front, j, url, later, now, max_age));
                    }
                }
                assert(last_fresh_row(table, i, url, m[url], now, max_age));
            }
        }
        assert forall|url: Seq<char>| #[trigger] m.contains_key(url) <==> exists|
            i: int,
            e: EntryModel,
        |
            fresh_row(table, i, url, e, now, max_age) by {
            if m.contains_key(url) {
                let i = choose|i: int| last_fresh_row(table, i, url, m[url], now, max_age);
                assert(fresh_row(table, i, url, m[url], now, max_age));
            }
            if exists|i: int, e: EntryModel| fresh_row(table, i, url, e, now, max_age) {
                let (i, e) = choose|i: int, e: EntryModel|
                    fresh_row(table, i, url, e, now, max_age);
                if i < n {
                    assert(fresh_row(front, i, url, e, now, max_age));
                    assert(before.contains_key(url));
                }
            }
        }
        assert forall|url: Seq<char>| #[trigger] m.contains_key(url) implies is_fresh(
            m[url],
            now,
            max_age,
        ) by {
            let i = choose|i: int| last_fresh_row(table, i, url, m[url], now, max_age);
            assert(fresh_row(table, i, url, m[url], now, max_age));
        }
    }
}

/// Storing and then loading gives the same cache back: where every entry is
/// fresh, the table that names each entry of a cache in one row loads as
/// that cache, every field of every entry as it was. The keys of a cache
/// are URLs in normal form.
pub proof fn lemma_store_then_load(
    table: Seq<Seq<Seq<char>>>,
    m: Map<Seq<char>, EntryModel>,
    now: Instant,
    max_age: Age,
)
    requires
        writes(table, m),
        forall|k: Seq<char>| m.contains_key(k) ==> is_normal_url(k),
        forall|k: Seq<char>| m.contains_key(k) ==> fits(#[trigger] m[k]),
        forall|k: Seq<char>| m.contains_key(k) ==> is_fresh(#[trigger] m[k], now, max_age),
    ensures
        loaded(table, now, max_age) == Some(m),
{
    assert forall|i: int| 0 <= i < table.len() implies #[trigger] entry_of(table[i]) == Some(
        (table[i][0], m[table[i][0]]),
    ) by {
        assert(table[i].len() == ROW_FIELDS);
        lemma_row_round_trip(table[i][0], m[table[i][0]]);
    }
    assert(all_rows_valid(table));
    let got = kept(table, now, max_age);
    lemma_load_keeps_fresh(table, now, max_age);
    assert forall|k: Seq<char>| got.contains_key(k) <==> m.contains_key(k) by {
        if got.contains_key(k) {
            let (i, e) = choose|i: int, e: EntryModel| fresh_row(table, i, k, e, now, max_age);
            assert(table[i].len() == ROW_FIELDS);
        }
        if m.contains_key(k) {
            let i = choose|i: int| 0 <= i < table.len() && (#[trigger] table[i])[0] == k;
            assert(fresh_row(table, i, k, m[k], now, max_age));
        }
    }
    assert forall|k: Seq<char>| got.contains_key(k) implies got[k] == m[k] by {
        let i = choose|i: int| last_fresh_row(table, i, k, got[k], now, max_age);
        assert(fresh_row(table, i, k, got[k], now, max_age));
        assert(table[i].len() == ROW_FIELDS);
    }
    assert(got =~= m);
}

} // verus!

//! A cache entry as one row of text fields, and back.
//!
//! A row has seven fields: the URL, the seconds and the nanoseconds of the
//! timestamp, the retry delay, the `Last-Modified` value, the `ETag` value
//! and the feed text. The URL is an absolute URL in normal form. An integer
//! is written in base ten. An absent value is the empty field; a text that
//! is present is written behind an `=` sign, so that the empty text and no
//! text at all stay apart.

use vstd::prelude::*;
use vstd::string::*;
use crate::entry::{CacheEntry, EntryModel, Instant};
use crate::scan::texts;
use crate::urls::{is_normal_url, lemma_normal_form, normal_form, url_key};
use crate::text::{
    format_i64, i64_value, integer_text, integer_value, lemma_integer_text_reads_back, parse_i64,
};

verus! {

/// The number of fields in a row.
pub const ROW_FIELDS: usize = 7;

/// The field for an optional text.
pub open spec fn optional_text_field(t: Option<Seq<char>>) -> Seq<char> {
    match t {
        Some(s) => seq!['='] + s,
        None => Seq::empty(),
    }
}

/// The optional text that a field writes; `None` where it writes none.
pub open spec fn optional_text_read(f: Seq<char>) -> Option<Option<Seq<char>>> {
    if f.len() == 0 {
        Some(None)
    } else if f[0] == '=' {
        Some(Some(f.subrange(1, f.len() as int)))
    } else {
        None
    }
}

/// The field for an optional integer.
pub open spec fn optional_integer_field(v: Option<int>) -> Seq<char> {
    match v {
        Some(n) => integer_text(n),
        None => Seq::empty(),
    }
}

/// The optional 64-bit integer that a field writes; `None` where it writes
/// none.
pub open spec fn optional_integer_read(f: Seq<char>) -> Option<Option<int>> {
    if f.len() == 0 {
        Some(None)
    } else {
        match i64_value(f) {
            Some(v) => Some(Some(v as int)),
            None => None,
        }
    }
}

/// The row for the entry `e` of `url`.
pub open spec fn row_of(url: Seq<char>, e: EntryModel) -> Seq<Seq<char>> {
    seq![
        url,
        integer_text(e.timestamp.secs as int),
        integer_text(e.timestamp.nanos as int),
        optional_integer_field(e.retry_after),
        optional_text_field(e.last_modified),
        optional_text_field(e.etag),
        optional_text_field(e.body),
    ]
}

/// The nanoseconds that a field writes: an integer from 0 that fits in 32
/// bits; `None` where it writes none.
pub open spec fn nanos_read(f: Seq<char>) -> Option<u32> {
    match i64_value(f) {
        Some(v) => if 0 <= v <= u32::MAX {
            Some(v as u32)
        } else {
            None
        },
        None => None,
    }
}

/// The URL and entry that a row writes; `None` where it writes none. The
/// URL is the normal form of the first field, which has to be an absolute
/// URL.
pub open spec fn entry_of(row: Seq<Seq<char>>) -> Option<(Seq<char>, EntryModel)> {
    if row.len() != ROW_FIELDS {
        None
    } else {
        match (
            normal_form(row[0]),
            i64_value(row[1]),
            nanos_read(row[2]),
            optional_integer_read(row[3]),
            (optional_text_read(row[4]), optional_text_read(row[5]), optional_text_read(row[6])),
        ) {
            (
                Some(url),
                Some(secs),
                Some(nanos),
                Some(retry_after),
                (Some(last_modified), Some(etag), Some(body)),
            ) => Some(
                (
                    url,
                    EntryModel {
                        timestamp: Instant { secs, nanos },
                        retry_after,
                        last_modified,
                        etag,
                        body,
                    },
                ),
            ),
            _ => None,
        }
    }
}

/// The retry delay of `e` fits in 64 bits, as that of every [`CacheEntry`]
/// does.
pub open spec fn fits(e: EntryModel) -> bool {
    e.retry_after matches Some(r) ==> i64::MIN <= r <= i64::MAX
}

/// Reading the field of an optional text gives the text back, absent or
/// present, empty or not.
pub proof fn lemma_optional_text_round_trip(t: Option<Seq<char>>)
    ensures
        optional_text_read(optional_text_field(t)) == Some(t),
{
    match t {
        Some(s) => {
            let f = seq!['='] + s;
            assert(f.subrange(1, f.len() as int) =~= s);
        },
        None => {},
    }
}

/// Reading the field of an optional integer gives the integer back.
pub proof fn lemma_optional_integer_round_trip(v: Option<int>)
    requires
        v matches Some(n) ==> i64::MIN <= n <= i64::MAX,
    ensures
        optional_integer_read(optional_integer_field(v)) == Some(v),
{
    match v {
        Some(n) => {
            lemma_integer_text_reads_back(n);
            assert(integer_value(integer_text(n)) is Some);
        },
        None => {},
    }
}

/// Reading the row of an entry gives the URL and every field of the entry
/// back exactly, for every URL in normal form.
pub proof fn lemma_row_round_trip(url: Seq<char>, e: EntryModel)
    requires
        is_normal_url(url),
        fits(e),
    ensures
        entry_of(row_of(url, e)) == Some((url, e)),
{
    lemma_normal_form(url);
    lemma_integer_text_reads_back(e.timestamp.secs as int);
    lemma_integer_text_reads_back(e.timestamp.nanos as int);
    lemma_optional_integer_round_trip(e.retry_after);
    lemma_optional_text_round_trip(e.last_modified);
    lemma_optional_text_round_trip(e.etag);
    lemma_optional_text_round_trip(e.body);
}

/// Writes an optional text as a field.
fn write_optional_text(t: &Option<String>) -> (f: String)
    ensures
        f@ == optional_text_field(
            match *t {
                Some(s) => Some(s@),
                None => None,
            },
        ),
{
    match t {
        Some(s) => {
            proof {
                reveal_strlit("=");
            }
            let mut f = String::from_str("=");
            f.append(s.as_str());
            assert(f@ =~= seq!['='] + s@);
            f
        },
        None => String::new(),
    }
}

/// Reads a field as an optional text.
fn read_optional_text(f: &str) -> (r: Option<Option<String>>)
    ensures
        match r {
            Some(Some(s)) => optional_text_read(f@) == Some(Some(s@)),
            Some(None) => optional_text_read(f@) == Some(None::<Seq<char>>),
            None => optional_text_read(f@) is None,
        },
{
    let n = f.unicode_len();
    if n == 0 {
        Some(None)
    } else if f.get_char(0) == '=' {
        Some(Some(String::from_str(f.substring_char(1, n))))
    } else {
        None
    }
}

/// Reads a field as an optional integer.
fn read_optional_integer(f: &str) -> (r: Option<Option<i64>>)
    ensures
        match r {
            Some(Some(v)) => optional_integer_read(f@) == Some(Some(v as int)),
            Some(None) => optional_integer_read(f@) == Some(None::<int>),
            None => optional_integer_read(f@) is None,
        },
{
    if f.unicode_len() == 0 {
        Some(None)
    } else {
        match parse_i64(f) {
            Some(v) => Some(Some(v)),
            None => None,
        }
    }
}

/// Writes the entry of `url` as a row.
pub fn encode_row(url: &str, entry: &CacheEntry) -> (row: Vec<String>)
    ensures
        texts(row@) == row_of(url@, entry@),
{
    let mut row: Vec<String> = Vec::new();
    row.push(String::from_str(url));
    row.push(format_i64(entry.timestamp.secs));
    row.push(format_i64(entry.timestamp.nanos as i64));
    row.push(
        match entry.retry_after {
            Some(r) => format_i64(r),
            None => String::new(),
        },
    );
    row.push(write_optional_text(&entry.last_modified));
    row.push(write_optional_text(&entry.etag));
    row.push(write_optional_text(&entry.body));
    assert(texts(row@) =~= row_of(url@, entry@));
    row
}

/// Reads a row as a URL and its entry. A row that no entry writes, and one
/// whose first field is no absolute URL, gives `None`.
pub fn decode_row(row: &Vec<String>) -> (r: Option<(String, CacheEntry)>)
    ensures
        match r {
            Some((url, entry)) => entry_of(texts(row@)) == Some((url@, entry@)),
            None => entry_of(texts(row@)) is None,
        },
{
    if row.len() != ROW_FIELDS {
        return None;
    }
    let ghost fields = texts(row@);
    assert(forall|i: int| 0 <= i < 7 ==> fields[i] == row@[i]@);
    let url = match url_key(row[0].as_str()) {
        Some(u) => u,
        None => {
            return None;
        },
    };
    let secs = match parse_i64(row[1].as_str()) {
        Some(v) => v,
        None => {
            return None;
        },
    };
    let nanos = match parse_i64(row[2].as_str()) {
        Some(v) => {
            if v < 0 || v > u32::MAX as i64 {
                return None;
            }
            v as u32
        },
        None => {
            return None;
        },
    };
    let retry_after = match read_optional_integer(row[3].as_str()) {
        Some(v) => v,
        None => {
            return None;
        },
    };
    let last_modified = match read_optional_text(row[4].as_str()) {
        Some(v) => v,
        None => {
            return None;
        },
    };
    let etag = match read_optional_text(row[5].as_str()) {
        Some(v) => v,
        None => {
            return None;
        },
    };
    let body = match read_optional_text(row[6].as_str()) {
        Some(v) => v,
        None => {
            return None;
        },
    };
    Some(
        (url, CacheEntry { timestamp: Instant { secs, nanos }, retry_after, last_modified, etag, body }),
    )
}

} // verus!

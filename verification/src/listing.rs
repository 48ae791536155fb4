//! The table of records that the operator selects from.
//!
//! Each row shows the number of a record, its package, its label and when
//! its last backup file was modified.  The caller reads the modification
//! times; the table is laid out here.

use crate::backup::{Backup, BackupView};
use crate::text::{
    chars_of, decimal, pad_left, pad_right, push_decimal, push_padded_left, push_padded_right,
    push_repeat, push_str, repeat, string_of, views,
};
use vstd::prelude::*;

verus! {

/// A point in time: seconds since the start of 1970 in UTC, and the
/// nanoseconds into that second.
#[derive(Clone, Copy, Debug, PartialEq, Eq, Structural)]
pub struct Timestamp {
    /// Whole seconds; negative before 1970.
    pub secs: i64,
    /// Nanoseconds into the second.
    pub nanos: u32,
}

/// What chrono writes for the time `secs` and `nanos` in UTC under the
/// format `%c`, if it holds such a time to be a date at all.
pub uninterp spec fn utc_text(secs: i64, nanos: u32) -> Option<Seq<char>>;

/// Calls `chrono::DateTime::from_timestamp(secs, nanos)` and, where that
/// gives a time, writes it with `format("%c")`.  Built without locales, the
/// crate computes both from the two numbers alone, and writing under `%c`
/// does not fail.  The contract gives the result its name and claims nothing
/// else of it.
#[verifier::external_body]
pub(crate) fn format_utc(secs: i64, nanos: u32) -> (text: Option<String>)
    ensures
        text is Some == utc_text(secs, nanos) is Some,
        text matches Some(t) ==> utc_text(secs, nanos) == Some(t@),
{
    match chrono::DateTime::from_timestamp(secs, nanos) {
        Some(time) => Some(time.format("%c").to_string()),
        None => None,
    }
}

/// What the last column shows: the time as it was written, or `Unknown`.
pub open spec fn time_shown(written: Option<Seq<char>>) -> Seq<char> {
    match written {
        Some(text) => text,
        None => "Unknown"@,
    }
}

/// What the last column shows for a modification time; `None` stands for a
/// time that could not be read.
pub open spec fn time_text(stamp: Option<Timestamp>) -> Seq<char> {
    match stamp {
        Some(t) => time_shown(utc_text(t.secs, t.nanos)),
        None => "Unknown"@,
    }
}

/// Writes [`time_shown`].
pub fn time_column(written: Option<String>) -> (text: String)
    ensures
        text@ == time_shown(
            match written {
                Some(t) => Some(t@),
                None => None,
            },
        ),
{
    match written {
        Some(text) => text,
        None => string_of(&chars_of("Unknown")),
    }
}

/// Writes [`time_text`].
pub fn modified_text(stamp: Option<Timestamp>) -> (text: String)
    ensures
        text@ == time_text(stamp),
{
    match stamp {
        Some(t) => time_column(format_utc(t.secs, t.nanos)),
        None => time_column(None),
    }
}

/// What to tell the operator when the modification time of `path` could
/// not be read for `reason`.
pub open spec fn stat_failure_text(path: Seq<char>, reason: Seq<char>) -> Seq<char> {
    "failed to stat '"@ + path + "': "@ + reason
}

/// Writes [`stat_failure_text`].
pub fn stat_failure(path: &str, reason: &str) -> (text: String)
    ensures
        text@ == stat_failure_text(path@, reason@),
{
    let mut out = chars_of("failed to stat '");
    push_str(&mut out, path);
    push_str(&mut out, "': ");
    push_str(&mut out, reason);
    string_of(&out)
}

/// The widths of the first three columns.
#[derive(Clone, Copy, Debug, PartialEq, Eq, Structural)]
pub struct Widths {
    /// The width of the numbers.
    pub number: usize,
    /// The width of the package names.
    pub package: usize,
    /// The width of the labels.
    pub file: usize,
}

/// The length of `s` in bytes of UTF-8.
pub open spec fn utf8_len(s: Seq<char>) -> nat {
    vstd::utf8::encode_utf8(s).len()
}

/// The larger of two numbers.
pub open spec fn larger(a: nat, b: nat) -> nat {
    if a >= b {
        a
    } else {
        b
    }
}

/// The width of the package column: that of its heading, `Package`, or of
/// the longest package name in bytes if that is longer.
pub open spec fn package_width(records: Seq<BackupView>) -> nat
    decreases records.len(),
{
    if records.len() == 0 {
        7
    } else {
        larger(package_width(records.drop_last()), utf8_len(records.last().package))
    }
}

/// The width of the label column: that of its heading, `File`, or of the
/// longest label in bytes if that is longer.
pub open spec fn file_width(records: Seq<BackupView>) -> nat
    decreases records.len(),
{
    if records.len() == 0 {
        4
    } else {
        larger(file_width(records.drop_last()), utf8_len(records.last().label()))
    }
}

/// The number whose length in digits is the width of the number column:
/// the index of the last record plus the number of its backup files, and 0
/// without records.
pub open spec fn widest_number(records: Seq<BackupView>) -> nat {
    if records.len() == 0 {
        0
    } else {
        (records.len() - 1 + records.last().pacfiles.len()) as nat
    }
}

/// The header of the table.
pub open spec fn header_text(number: nat, package: nat, file: nat) -> Seq<char> {
    repeat(' ', number) + "  "@ + pad_right("Package"@, package) + "  "@ + pad_right(
        "File"@,
        file,
    ) + "  "@ + "Modified"@
}

/// The row of the record with the number `index + 1`.
pub open spec fn row_text(
    index: nat,
    record: BackupView,
    time: Seq<char>,
    number: nat,
    package: nat,
    file: nat,
) -> Seq<char> {
    pad_left(decimal(index + 1), number, '0') + "  "@ + pad_right(record.package, package) + "  "@
        + pad_right(record.label(), file) + "  "@ + time
}

/// The modification time given for the record at `index`; none if the list
/// is too short.
pub open spec fn stamp_at(modified: Seq<Option<Timestamp>>, index: int) -> Option<Timestamp> {
    if 0 <= index < modified.len() {
        modified[index]
    } else {
        None
    }
}

/// The rows of the first `count` records.
pub open spec fn rows_text(
    records: Seq<BackupView>,
    modified: Seq<Option<Timestamp>>,
    count: nat,
    number: nat,
    package: nat,
    file: nat,
) -> Seq<Seq<char>>
    decreases count,
{
    if count == 0 {
        Seq::empty()
    } else {
        rows_text(records, modified, (count - 1) as nat, number, package, file).push(
            row_text(
                (count - 1) as nat,
                records[count - 1],
                time_text(stamp_at(modified, count - 1)),
                number,
                package,
                file,
            ),
        )
    }
}

/// The table, line by line.
#[derive(Clone, Debug, PartialEq, Eq)]
pub struct Listing {
    /// The widths that the table was laid out with.
    pub widths: Widths,
    /// The header.
    pub header: String,
    /// One row for each record, in order.
    pub rows: Vec<String>,
}

/// The widths of the columns for `backups`.
pub fn listing_widths(backups: &Vec<Backup>) -> (widths: Widths)
    ensures
        widths.number == decimal(widest_number(views(backups@))).len(),
        widths.package == package_width(views(backups@)),
        widths.file == file_width(views(backups@)),
{
    let ghost records = views(backups@);
    let mut package: usize = 7;
    let mut file: usize = 4;
    let mut widest: u128 = 0;
    let mut i: usize = 0;
    assert(records.take(0) == Seq::<BackupView>::empty());
    while i < backups.len()
        invariant
            i <= backups.len(),
            records == views(backups@),
            package == package_width(records.take(i as int)),
            file == file_width(records.take(i as int)),
            widest == widest_number(records.take(i as int)),
        decreases backups.len() - i,
    {
        proof {
            let upto = records.take(i + 1);
            assert(upto.drop_last() == records.take(i as int));
            assert(upto.last() == backups@[i as int]@);
        }
        let backup = &backups[i];
        let name = backup.package().as_str().as_bytes().len();
        if name > package {
            package = name;
        }
        let label = backup.format_pacfiles();
        let width = label.as_str().as_bytes().len();
        if width > file {
            file = width;
        }
        widest = i as u128 + backup.pacfiles().len() as u128;
        i += 1;
    }
    assert(records.take(backups@.len() as int) == records);
    let mut digits: Vec<char> = Vec::new();
    push_decimal(&mut digits, widest);
    Widths { number: digits.len(), package, file }
}

/// Writes [`header_text`].
pub fn format_header(widths: Widths) -> (text: String)
    ensures
        text@ == header_text(widths.number as nat, widths.package as nat, widths.file as nat),
{
    let mut out: Vec<char> = Vec::new();
    push_repeat(&mut out, ' ', widths.number);
    push_str(&mut out, "  ");
    push_padded_right(&mut out, &chars_of("Package"), widths.package);
    push_str(&mut out, "  ");
    push_padded_right(&mut out, &chars_of("File"), widths.file);
    push_str(&mut out, "  ");
    push_str(&mut out, "Modified");
    string_of(&out)
}

/// Writes [`row_text`] for the record at `index`, with `time` in the last
/// column.
pub fn format_row(index: usize, backup: &Backup, time: &str, widths: Widths) -> (text: String)
    ensures
        text@ == row_text(
            index as nat,
            backup@,
            time@,
            widths.number as nat,
            widths.package as nat,
            widths.file as nat,
        ),
{
    let mut digits: Vec<char> = Vec::new();
    push_decimal(&mut digits, index as u128 + 1);
    let mut out: Vec<char> = Vec::new();
    push_padded_left(&mut out, &digits, widths.number, '0');
    push_str(&mut out, "  ");
    push_padded_right(&mut out, &chars_of(backup.package().as_str()), widths.package);
    push_str(&mut out, "  ");
    let label = backup.format_pacfiles();
    push_padded_right(&mut out, &chars_of(label.as_str()), widths.file);
    push_str(&mut out, "  ");
    push_str(&mut out, time);
    string_of(&out)
}

/// Lays out the table of `backups`.  `modified` gives for each record, in
/// order, when its last backup file was modified, or `None` if that could
/// not be read.
pub fn list_backups(backups: &Vec<Backup>, modified: &Vec<Option<Timestamp>>) -> (listing: Listing)
    ensures
        listing.widths.number == decimal(widest_number(views(backups@))).len(),
        listing.widths.package == package_width(views(backups@)),
        listing.widths.file == file_width(views(backups@)),
        listing.header@ == header_text(
            listing.widths.number as nat,
            listing.widths.package as nat,
            listing.widths.file as nat,
        ),
        views(listing.rows@) == rows_text(
            views(backups@),
            modified@,
            backups@.len(),
            listing.widths.number as nat,
            listing.widths.package as nat,
            listing.widths.file as nat,
        ),
{
    let widths = listing_widths(backups);
    let header = format_header(widths);
    let mut rows: Vec<String> = Vec::new();
    let mut i: usize = 0;
    while i < backups.len()
        invariant
            i <= backups.len(),
            views(rows@) == rows_text(
                views(backups@),
                modified@,
                i as nat,
                widths.number as nat,
                widths.package as nat,
                widths.file as nat,
            ),
        decreases backups.len() - i,
    {
        let stamp = if i < modified.len() {
            modified[i]
        } else {
            None
        };
        let time = modified_text(stamp);
        let ghost before = views(rows@);
        let row = format_row(i, &backups[i], time.as_str(), widths);
        rows.push(row);
        assert(views(rows@) == before.push(row@));
        i += 1;
    }
    Listing { widths, header, rows }
}

} // verus!

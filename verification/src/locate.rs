//! Finding the backup files of tracked files among the entries of their
//! directories, and gathering them into records.
//!
//! Reading a directory is the caller's business.  What it read, or why it
//! could not, comes in as a [`Scan`].

use crate::backup::{Backup, BackupView, Kind};
use crate::config::Config;
use crate::natural::{sort_naturally, sorted_naturally};
use crate::text::{chars_of, push_all, push_str, starts_with_at, string_of, views};
use vstd::prelude::*;

verus! {

/// One entry of a directory, as it was read.
#[derive(Clone, Debug)]
pub enum Entry {
    /// An entry with its file name and its full path.
    Named { name: String, path: String },
    /// An entry that could not be read, and why.
    Unreadable { reason: String },
}

/// What became of listing the directory of a tracked file.
#[derive(Clone, Debug)]
pub enum Scan {
    /// The tracked path has no directory above it or no file name.
    NotAFile,
    /// The directory `dir` could not be listed, and why.
    Failed { dir: String, reason: String },
    /// The directory `dir` was listed; `name` is the tracked file's name.
    Listed { dir: String, name: String, entries: Vec<Entry> },
}

/// A tracked file with the scan of its directory.
#[derive(Clone, Debug)]
pub struct Scanned {
    /// The package that owns the file.
    pub package: String,
    /// The path of the file.
    pub file: String,
    /// The scan of the directory that holds the file.
    pub scan: Scan,
}

/// The backup files of one tracked file.
#[derive(Clone, Debug)]
pub struct Found {
    /// Those of kind [`Kind::Pacnew`], in natural order.
    pub pacnew: Vec<String>,
    /// Those of kind [`Kind::Pacsave`], in natural order.
    pub pacsave: Vec<String>,
    /// What to tell the operator about the scan.
    pub complaints: Vec<String>,
}

/// The records of a run.
#[derive(Debug)]
pub struct Gathered {
    /// The records, in the order of the tracked files; for one file the
    /// record of kind [`Kind::Pacnew`] comes first.
    pub backups: Vec<Backup>,
    /// What to tell the operator about the scans.
    pub complaints: Vec<String>,
}

/// The paths of the entries whose name begins with `prefix`, in the order
/// of the entries.
pub open spec fn matching(entries: Seq<Entry>, prefix: Seq<char>) -> Seq<Seq<char>>
    decreases entries.len(),
{
    if entries.len() == 0 {
        Seq::empty()
    } else {
        let init = matching(entries.drop_last(), prefix);
        match entries.last() {
            Entry::Named { name, path } => if prefix.is_prefix_of(name@) {
                init.push(path@)
            } else {
                init
            },
            Entry::Unreadable { .. } => init,
        }
    }
}

/// The backup files of kind `kind` that a scan shows, in natural order:
/// the entries of a listed directory whose name begins with the tracked
/// file's name and the kind's suffix.  A scan that listed nothing shows none.
pub open spec fn found_of(scan: Scan, kind: Kind) -> Seq<Seq<char>> {
    match scan {
        Scan::Listed { name, entries, .. } => sorted_naturally(
            matching(entries@, name@ + kind.suffix()),
        ),
        _ => Seq::empty(),
    }
}

/// The complaint about something in `dir` that could not be read.
pub open spec fn complaint(dir: Seq<char>, reason: Seq<char>) -> Seq<char> {
    dir + ": "@ + reason
}

/// The complaints about the entries that could not be read, in the order of
/// the entries.
pub open spec fn entry_complaints(dir: Seq<char>, entries: Seq<Entry>) -> Seq<Seq<char>>
    decreases entries.len(),
{
    if entries.len() == 0 {
        Seq::empty()
    } else {
        let init = entry_complaints(dir, entries.drop_last());
        match entries.last() {
            Entry::Unreadable { reason } => init.push(complaint(dir, reason@)),
            Entry::Named { .. } => init,
        }
    }
}

/// What to tell the operator about a scan: nothing unless `verbose`; then
/// the directory that could not be listed, or each entry that could not be
/// read.
pub open spec fn complaints_of(scan: Scan, verbose: bool) -> Seq<Seq<char>> {
    if !verbose {
        Seq::empty()
    } else {
        match scan {
            Scan::NotAFile => Seq::empty(),
            Scan::Failed { dir, reason } => seq![complaint(dir@, reason@)],
            Scan::Listed { dir, entries, .. } => entry_complaints(dir@, entries@),
        }
    }
}

/// The records that a tracked file gives: one of kind [`Kind::Pacnew`] if
/// the scan shows such backup files, then one of kind [`Kind::Pacsave`] if
/// it shows such.
pub open spec fn records_of(file: Scanned) -> Seq<BackupView> {
    let pacnew = found_of(file.scan, Kind::Pacnew);
    let pacsave = found_of(file.scan, Kind::Pacsave);
    let first = if pacnew.len() > 0 {
        seq![
            BackupView {
                package: file.package@,
                file: file.file@,
                pacfiles: pacnew,
                kind: Kind::Pacnew,
            },
        ]
    } else {
        Seq::empty()
    };
    let second = if pacsave.len() > 0 {
        seq![
            BackupView {
                package: file.package@,
                file: file.file@,
                pacfiles: pacsave,
                kind: Kind::Pacsave,
            },
        ]
    } else {
        Seq::empty()
    };
    first + second
}

/// The records of all tracked files, in the order of the files.
pub open spec fn gathered(files: Seq<Scanned>) -> Seq<BackupView>
    decreases files.len(),
{
    if files.len() == 0 {
        Seq::empty()
    } else {
        gathered(files.drop_last()) + records_of(files.last())
    }
}

/// The complaints about all scans, in the order of the files.
pub open spec fn gathered_complaints(files: Seq<Scanned>, verbose: bool) -> Seq<Seq<char>>
    decreases files.len(),
{
    if files.len() == 0 {
        Seq::empty()
    } else {
        gathered_complaints(files.drop_last(), verbose) + complaints_of(files.last().scan, verbose)
    }
}

/// The text of one complaint.
fn complain(dir: &String, reason: &String) -> (text: String)
    ensures
        text@ == complaint(dir@, reason@),
{
    let mut out = chars_of(dir.as_str());
    push_str(&mut out, ": ");
    push_all(&mut out, &chars_of(reason.as_str()));
    string_of(&out)
}

/// The paths of the entries whose name begins with `name` and the suffix
/// of `kind`, in natural order.
fn find_kind(name: &String, entries: &Vec<Entry>, kind: Kind) -> (paths: Vec<String>)
    ensures
        views(paths@) == sorted_naturally(matching(entries@, name@ + kind.suffix())),
{
    let mut prefix = chars_of(name.as_str());
    push_all(&mut prefix, &kind.suffix_chars());
    let mut paths: Vec<String> = Vec::new();
    let mut i: usize = 0;
    assert(entries@.take(0) == Seq::<Entry>::empty());
    while i < entries.len()
        invariant
            i <= entries.len(),
            prefix@ == name@ + kind.suffix(),
            views(paths@) == matching(entries@.take(i as int), prefix@),
        decreases entries.len() - i,
    {
        proof {
            let upto = entries@.take(i + 1);
            assert(upto.drop_last() == entries@.take(i as int));
            assert(upto.last() == entries@[i as int]);
        }
        let ghost before = views(paths@);
        match &entries[i] {
            Entry::Named { name: entry_name, path } => {
                let chars = chars_of(entry_name.as_str());
                assert(chars@.skip(0) == chars@);
                if starts_with_at(&chars, 0, &prefix) {
                    paths.push(path.clone());
                    assert(views(paths@) == before.push(path@));
                }
            },
            Entry::Unreadable { .. } => {},
        }
        i += 1;
    }
    assert(entries@.take(entries@.len() as int) == entries@);
    sort_naturally(paths)
}

/// The backup files that `scan` shows for its tracked file, and what to
/// tell the operator about the scan.
pub fn find_backups_for_file(config: &Config, scan: &Scan) -> (found: Found)
    ensures
        views(found.pacnew@) == found_of(*scan, Kind::Pacnew),
        views(found.pacsave@) == found_of(*scan, Kind::Pacsave),
        views(found.complaints@) == complaints_of(*scan, config.verbose),
{
    let mut complaints: Vec<String> = Vec::new();
    match scan {
        Scan::NotAFile => Found { pacnew: Vec::new(), pacsave: Vec::new(), complaints },
        Scan::Failed { dir, reason } => {
            if config.verbose {
                complaints.push(complain(dir, reason));
                assert(views(complaints@) == seq![complaint(dir@, reason@)]);
            }
            Found { pacnew: Vec::new(), pacsave: Vec::new(), complaints }
        },
        Scan::Listed { dir, name, entries } => {
            if config.verbose {
                let mut i: usize = 0;
                assert(entries@.take(0) == Seq::<Entry>::empty());
                while i < entries.len()
                    invariant
                        i <= entries.len(),
                        views(complaints@) == entry_complaints(dir@, entries@.take(i as int)),
                    decreases entries.len() - i,
                {
                    proof {
                        let upto = entries@.take(i + 1);
                        assert(upto.drop_last() == entries@.take(i as int));
                        assert(upto.last() == entries@[i as int]);
                    }
                    let ghost before = views(complaints@);
                    if let Entry::Unreadable { reason } = &entries[i] {
                        complaints.push(complain(dir, reason));
                        assert(views(complaints@) == before.push(complaint(dir@, reason@)));
                    }
                    i += 1;
                }
                assert(entries@.take(entries@.len() as int) == entries@);
            }
            Found {
                pacnew: find_kind(name, entries, Kind::Pacnew),
                pacsave: find_kind(name, entries, Kind::Pacsave),
                complaints,
            }
        },
    }
}

/// Appends the strings of `more` to `out`.
fn append_strings(out: &mut Vec<String>, more: Vec<String>)
    ensures
        views(final(out)@) == views(old(out)@) + views(more@),
{
    let ghost before = views(out@);
    assert(views(more@).take(0) == Seq::<Seq<char>>::empty());
    for s in it: more
        invariant
            it.seq() == more@,
            views(out@) == before + views(more@).take(it.index() as int),
    {
        let ghost upto = views(out@);
        out.push(s);
        proof {
            assert(views(out@) == upto.push(s@));
            assert(views(more@).take(it.index() + 1) == views(more@).take(it.index() as int).push(
                s@,
            ));
        }
    }
    assert(views(more@).take(more@.len() as int) == views(more@));
}

/// Gathers the records of all tracked files.
pub fn get_backups(config: &Config, files: &Vec<Scanned>) -> (all: Gathered)
    ensures
        views(all.backups@) == gathered(files@),
        views(all.complaints@) == gathered_complaints(files@, config.verbose),
{
    let mut backups: Vec<Backup> = Vec::new();
    let mut complaints: Vec<String> = Vec::new();
    let mut i: usize = 0;
    assert(files@.take(0) == Seq::<Scanned>::empty());
    while i < files.len()
        invariant
            i <= files.len(),
            views(backups@) == gathered(files@.take(i as int)),
            views(complaints@) == gathered_complaints(files@.take(i as int), config.verbose),
        decreases files.len() - i,
    {
        proof {
            let upto = files@.take(i + 1);
            assert(upto.drop_last() == files@.take(i as int));
            assert(upto.last() == files@[i as int]);
        }
        let file = &files[i];
        let found = find_backups_for_file(config, &file.scan);
        let ghost before = views(backups@);
        if let Some(backup) = Backup::new(
            file.package.clone(),
            file.file.clone(),
            found.pacnew,
            Kind::Pacnew,
        ) {
            backups.push(backup);
            assert(views(backups@) == before.push(backup@));
        }
        let ghost middle = views(backups@);
        if let Some(backup) = Backup::new(
            file.package.clone(),
            file.file.clone(),
            found.pacsave,
            Kind::Pacsave,
        ) {
            backups.push(backup);
            assert(views(backups@) == middle.push(backup@));
        }
        assert(views(backups@) == before + records_of(*file));
        append_strings(&mut complaints, found.complaints);
        i += 1;
    }
    assert(files@.take(files@.len() as int) == files@);
    Gathered { backups, complaints }
}

/// The records of two lists of files, one after the other, are the records
/// of the first list and then those of the second.
pub proof fn lemma_gathered_concat(first: Seq<Scanned>, second: Seq<Scanned>)
    ensures
        gathered(first + second) == gathered(first) + gathered(second),
    decreases second.len(),
{
    if second.len() == 0 {
        assert(first + second == first);
    } else {
        lemma_gathered_concat(first, second.drop_last());
        assert((first + second).drop_last() == first + second.drop_last());
        assert((first + second).last() == second.last());
    }
}

/// A file whose directory was not listed gives no record and takes none
/// away: the files before and after it give the records that they give
/// without it.
pub proof fn lemma_unlisted_gives_nothing(
    before: Seq<Scanned>,
    file: Scanned,
    after: Seq<Scanned>,
)
    requires
        !(file.scan is Listed),
    ensures
        records_of(file) == Seq::<BackupView>::empty(),
        gathered(before + seq![file] + after) == gathered(before) + gathered(after),
        gathered(before + seq![file] + after) == gathered(before + after),
{
    lemma_gathered_concat(before + seq![file], after);
    lemma_gathered_concat(before, seq![file]);
    lemma_gathered_concat(before, after);
    assert(seq![file].drop_last() == Seq::<Scanned>::empty());
    assert(gathered(seq![file]) == gathered(Seq::<Scanned>::empty()) + records_of(file));
}

} // verus!

//! A record: the backup files of one kind that belong to one tracked
//! configuration file, and the label under which the operator sees them.

use crate::text::{
    chars_of, count_leading, leading, push_all, push_str, skip_copies, slice_of, string_of,
    strip_all, views, Class,
};
use vstd::prelude::*;

verus! {

/// The two kinds of backup file.
#[derive(Clone, Copy, PartialEq, Eq, Structural, Debug)]
pub enum Kind {
    /// The locally changed version, moved aside when the package's version
    /// was installed.
    Pacsave,
    /// The package's new version, put beside the locally changed file.
    Pacnew,
}

impl Kind {
    /// What follows the tracked file's name in the name of a backup file of
    /// this kind.
    pub open spec fn suffix(self) -> Seq<char> {
        match self {
            Kind::Pacsave => ".pacsave"@,
            Kind::Pacnew => ".pacnew"@,
        }
    }

    /// The characters of [`Kind::suffix`].
    pub fn suffix_chars(self) -> (v: Vec<char>)
        ensures
            v@ == self.suffix(),
    {
        match self {
            Kind::Pacsave => chars_of(".pacsave"),
            Kind::Pacnew => chars_of(".pacnew"),
        }
    }
}

/// What a [`Backup`] holds, as plain texts.
pub struct BackupView {
    /// The package that owns the tracked file.
    pub package: Seq<char>,
    /// The path of the tracked file.
    pub file: Seq<char>,
    /// The paths of the backup files, in natural order.
    pub pacfiles: Seq<Seq<char>>,
    /// The kind that all of them share.
    pub kind: Kind,
}

/// What the label shows of one backup file: its path without the tracked
/// file's path in front, then without the kind's suffix in front, then
/// without leading dots.
pub open spec fn stem(file: Seq<char>, kind: Kind, pacfile: Seq<char>) -> Seq<char> {
    let rest = strip_all(strip_all(pacfile, file), kind.suffix());
    rest.skip(leading(rest, Class::Just('.')) as int)
}

/// The stems of `pacfiles` that are not empty, each followed by `", "`.
pub open spec fn stems_listed(file: Seq<char>, kind: Kind, pacfiles: Seq<Seq<char>>) -> Seq<char>
    decreases pacfiles.len(),
{
    if pacfiles.len() == 0 {
        Seq::empty()
    } else {
        let s = stem(file, kind, pacfiles.last());
        stems_listed(file, kind, pacfiles.drop_last()) + if s.len() == 0 {
            Seq::empty()
        } else {
            s + ", "@
        }
    }
}

impl BackupView {
    /// Whether the record holds a backup file at all.
    pub open spec fn wf(self) -> bool {
        self.pacfiles.len() > 0
    }

    /// The label of the record.  One backup file is shown by its path.
    /// Several are shown as the tracked file's path and, in braces, their
    /// stems: those before the last as [`stems_listed`] gives them, then the
    /// last with nothing behind it.
    pub open spec fn label(self) -> Seq<char> {
        if self.pacfiles.len() == 1 {
            self.pacfiles[0]
        } else {
            self.file + "{"@ + stems_listed(self.file, self.kind, self.pacfiles.drop_last()) + stem(
                self.file,
                self.kind,
                self.pacfiles.last(),
            ) + "}"@
        }
    }
}

/// The backup files of one kind that were found for one tracked file.
/// There is always at least one.
#[derive(Debug)]
pub struct Backup {
    package: String,
    file: String,
    pacfiles: Vec<String>,
    kind: Kind,
}

impl View for Backup {
    type V = BackupView;

    closed spec fn view(&self) -> BackupView {
        BackupView {
            package: self.package@,
            file: self.file@,
            pacfiles: views(self.pacfiles@),
            kind: self.kind,
        }
    }
}

impl Backup {
    #[verifier::type_invariant]
    spec fn has_pacfiles(self) -> bool {
        self.pacfiles@.len() > 0
    }

    /// Makes a record, unless `pacfiles` is empty.
    pub fn new(package: String, file: String, pacfiles: Vec<String>, kind: Kind) -> (r: Option<
        Backup,
    >)
        ensures
            r is None <==> pacfiles@.len() == 0,
            r matches Some(b) ==> b@ == (BackupView {
                package: package@,
                file: file@,
                pacfiles: views(pacfiles@),
                kind,
            }),
    {
        if pacfiles.len() == 0 {
            None
        } else {
            Some(Backup { package, file, pacfiles, kind })
        }
    }

    /// The package that owns the tracked file.
    pub fn package(&self) -> (r: &String)
        ensures
            r@ == self@.package,
    {
        &self.package
    }

    /// The path of the tracked file.
    pub fn file(&self) -> (r: &String)
        ensures
            r@ == self@.file,
    {
        &self.file
    }

    /// The paths of the backup files, in natural order.
    pub fn pacfiles(&self) -> (r: &Vec<String>)
        ensures
            views(r@) == self@.pacfiles,
            r@.len() > 0,
            self@.wf(),
    {
        proof {
            use_type_invariant(self);
        }
        &self.pacfiles
    }

    /// The kind of the backup files.
    pub fn kind(&self) -> (r: Kind)
        ensures
            r == self@.kind,
    {
        self.kind
    }

    /// Appends the stem of `pacfile` to `out` and tells whether it held
    /// anything.
    fn push_stem(&self, out: &mut Vec<char>, pacfile: &str) -> (shown: bool)
        ensures
            final(out)@ == old(out)@ + stem(self@.file, self@.kind, pacfile@),
            shown == (stem(self@.file, self@.kind, pacfile@).len() > 0),
    {
        let path = chars_of(pacfile);
        let file = chars_of(self.file.as_str());
        let suffix = self.kind.suffix_chars();
        proof {
            assert(path@.skip(0) == path@);
        }
        let a = skip_copies(&path, 0, &file);
        let b = skip_copies(&path, a, &suffix);
        let c = b + count_leading(&path, b, Class::Just('.'));
        proof {
            let rest = path@.skip(b as int);
            assert(rest.skip(c - b) == path@.skip(c as int));
            assert(path@.skip(c as int) == path@.subrange(c as int, path@.len() as int));
        }
        let shown = slice_of(&path, c, path.len());
        push_all(out, &shown);
        shown.len() > 0
    }

    /// The label of the record.
    pub fn format_pacfiles(&self) -> (label: String)
        ensures
            label@ == self@.label(),
    {
        proof {
            use_type_invariant(self);
        }
        if self.pacfiles.len() == 1 {
            return self.pacfiles[0].clone();
        }
        let mut out = chars_of(self.file.as_str());
        push_str(&mut out, "{");
        let ghost head = self@.file + "{"@;
        let ghost all = self@.pacfiles;
        let last = self.pacfiles.len() - 1;
        let mut i: usize = 0;
        while i < last
            invariant
                i <= last,
                last == self.pacfiles@.len() - 1,
                all == self@.pacfiles,
                head == self@.file + "{"@,
                out@ == head + stems_listed(self@.file, self@.kind, all.take(i as int)),
            decreases last - i,
        {
            let ghost before = out@;
            let shown = self.push_stem(&mut out, self.pacfiles[i].as_str());
            if shown {
                push_str(&mut out, ", ");
            }
            proof {
                let upto = all.take(i + 1);
                assert(upto.drop_last() == all.take(i as int));
                assert(upto.last() == self.pacfiles@[i as int]@);
            }
            i += 1;
        }
        proof {
            assert(all.take(last as int) == all.drop_last());
            assert(all.last() == self.pacfiles@[last as int]@);
        }
        self.push_stem(&mut out, self.pacfiles[last].as_str());
        push_str(&mut out, "}");
        string_of(&out)
    }
}

} // verus!

//! What an action on a record amounts to: the file operations that carry it
//! out, and the command that shows the record to the operator.

use crate::backup::{Backup, BackupView};
use crate::config::{Action, Config};
use crate::text::{chars_of, push_all, push_str, split_words, string_of, tokens, views};
use vstd::prelude::*;

verus! {

/// The action that a reply asks for, told by its first letter in either
/// case: `v`, `s`, `r`, `o` or `q`.  Any other reply, the empty one too,
/// skips.
pub open spec fn action_of(reply: Seq<char>) -> Action {
    if reply.len() == 0 {
        Action::Skip
    } else if reply[0] == 'v' || reply[0] == 'V' {
        Action::View
    } else if reply[0] == 'r' || reply[0] == 'R' {
        Action::Remove
    } else if reply[0] == 'o' || reply[0] == 'O' {
        Action::Overwrite
    } else if reply[0] == 'q' || reply[0] == 'Q' {
        Action::Quit
    } else {
        Action::Skip
    }
}

/// Reads the action that `reply` asks for.
pub fn parse_action(reply: &str) -> (action: Action)
    ensures
        action == action_of(reply@),
{
    let chars = chars_of(reply);
    if chars.len() == 0 {
        return Action::Skip;
    }
    let c = chars[0];
    if c == 'v' || c == 'V' {
        Action::View
    } else if c == 'r' || c == 'R' {
        Action::Remove
    } else if c == 'o' || c == 'O' {
        Action::Overwrite
    } else if c == 'q' || c == 'Q' {
        Action::Quit
    } else {
        Action::Skip
    }
}

/// One change to the file system.
#[derive(Clone, Debug, PartialEq, Eq)]
pub enum FileOp {
    /// Delete the file at `path`.
    Remove { path: String },
    /// Move the file at `from` to `to`, replacing what is there.
    Rename { from: String, to: String },
}

/// A [`FileOp`] over plain texts.
pub enum FileOpView {
    /// Delete the file at `path`.
    Remove { path: Seq<char> },
    /// Move the file at `from` to `to`, replacing what is there.
    Rename { from: Seq<char>, to: Seq<char> },
}

impl View for FileOp {
    type V = FileOpView;

    open spec fn view(&self) -> FileOpView {
        match self {
            FileOp::Remove { path } => FileOpView::Remove { path: path@ },
            FileOp::Rename { from, to } => FileOpView::Rename { from: from@, to: to@ },
        }
    }
}

impl FileOpView {
    /// What to tell the operator when the operation failed for `reason`.
    pub open spec fn failure_text(self, reason: Seq<char>) -> Seq<char> {
        match self {
            FileOpView::Remove { path } => "failed to remove '"@ + path + "': "@ + reason,
            FileOpView::Rename { from, to } => "failed to move '"@ + from + "' to '"@ + to + "': "@
                + reason,
        }
    }
}

impl FileOp {
    /// What to tell the operator when the operation failed for `reason`.
    pub fn failure(&self, reason: &str) -> (text: String)
        ensures
            text@ == self@.failure_text(reason@),
    {
        let mut out: Vec<char> = Vec::new();
        match self {
            FileOp::Remove { path } => {
                push_str(&mut out, "failed to remove '");
                push_str(&mut out, path.as_str());
            },
            FileOp::Rename { from, to } => {
                push_str(&mut out, "failed to move '");
                push_str(&mut out, from.as_str());
                push_str(&mut out, "' to '");
                push_str(&mut out, to.as_str());
            },
        }
        push_str(&mut out, "': ");
        push_str(&mut out, reason);
        string_of(&out)
    }
}

/// The deletion of each of `paths`, in their order.
pub open spec fn removals(paths: Seq<Seq<char>>) -> Seq<FileOpView> {
    paths.map_values(|path: Seq<char>| FileOpView::Remove { path })
}

/// A program and the arguments to start it with.
#[derive(Clone, Debug, PartialEq, Eq)]
pub struct Command {
    /// The program.
    pub program: String,
    /// Its arguments, in order.
    pub args: Vec<String>,
}

/// A [`Command`] over plain texts.
pub struct CommandView {
    /// The program.
    pub program: Seq<char>,
    /// Its arguments, in order.
    pub args: Seq<Seq<char>>,
}

impl View for Command {
    type V = CommandView;

    open spec fn view(&self) -> CommandView {
        CommandView { program: self.program@, args: views(self.args@) }
    }
}

/// The text of `user`, if there is one.
pub open spec fn user_text(user: Option<String>) -> Option<Seq<char>> {
    match user {
        Some(name) => Some(name@),
        None => None,
    }
}

impl BackupView {
    /// The file operations that carry out `action`, in the order in which
    /// they are to be tried.  Removing deletes every backup file.
    /// Overwriting first moves the last backup file onto the tracked file
    /// and then deletes the others.  The other actions touch no file.
    pub open spec fn plan(self, action: Action) -> Seq<FileOpView> {
        match action {
            Action::Remove => removals(self.pacfiles),
            Action::Overwrite => if self.pacfiles.len() == 0 {
                Seq::empty()
            } else {
                seq![FileOpView::Rename { from: self.pacfiles.last(), to: self.file }] + removals(
                    self.pacfiles.drop_last(),
                )
            },
            _ => Seq::empty(),
        }
    }

    /// The tracked file and then the backup files: what the diff program is
    /// given to show.
    pub open spec fn shown_files(self) -> Seq<Seq<char>> {
        seq![self.file] + self.pacfiles
    }

    /// The command that shows the record.  Without a user to edit as, or
    /// with direct editing asked for, it is the diff program: the first word
    /// of `diffprog` with its other words and the shown files as arguments;
    /// there is none if `diffprog` holds no word.  Otherwise it is `sudo`,
    /// told to edit the shown files as that user with `diffprog` as editor.
    pub open spec fn view_command(
        self,
        diffprog: Seq<char>,
        nosudoedit: bool,
        sudouser: Option<Seq<char>>,
    ) -> Option<CommandView> {
        if nosudoedit || sudouser is None {
            let words = tokens(diffprog);
            if words.len() == 0 {
                None
            } else {
                Some(CommandView { program: words[0], args: words.skip(1) + self.shown_files() })
            }
        } else {
            Some(
                CommandView {
                    program: "sudo"@,
                    args: seq![
                        "SUDO_EDITOR="@ + diffprog,
                        "-u"@,
                        sudouser->0,
                        "sudo"@,
                        "-e"@,
                    ] + self.shown_files(),
                },
            )
        }
    }
}

impl Backup {
    /// Appends the tracked file and the backup files to `args`.
    fn push_shown_files(&self, args: &mut Vec<String>)
        ensures
            views(final(args)@) == views(old(args)@) + self@.shown_files(),
    {
        let ghost before = views(args@);
        args.push(self.file().clone());
        let pacfiles = self.pacfiles();
        let mut i: usize = 0;
        assert(views(args@) == before + seq![self@.file] + self@.pacfiles.take(0));
        while i < pacfiles.len()
            invariant
                i <= pacfiles.len(),
                views(pacfiles@) == self@.pacfiles,
                views(args@) == before + seq![self@.file] + self@.pacfiles.take(i as int),
            decreases pacfiles.len() - i,
        {
            let ghost upto = views(args@);
            args.push(pacfiles[i].clone());
            proof {
                assert(views(args@) == upto.push(pacfiles@[i as int]@));
                assert(self@.pacfiles.take(i + 1) == self@.pacfiles.take(i as int).push(
                    self@.pacfiles[i as int],
                ));
            }
            i += 1;
        }
        proof {
            assert(self@.pacfiles.take(pacfiles@.len() as int) == self@.pacfiles);
            assert(before + seq![self@.file] + self@.pacfiles == before + self@.shown_files());
        }
    }

    /// The file operations that carry out `action` on the record.
    pub fn plan(&self, action: Action) -> (ops: Vec<FileOp>)
        ensures
            views(ops@) == self@.plan(action),
    {
        let mut ops: Vec<FileOp> = Vec::new();
        let pacfiles = self.pacfiles();
        let count: usize = match action {
            Action::Remove => pacfiles.len(),
            Action::Overwrite => {
                let last = pacfiles.len() - 1;
                ops.push(FileOp::Rename { from: pacfiles[last].clone(), to: self.file().clone() });
                last
            },
            _ => {
                assert(views(ops@) == self@.plan(action));
                return ops;
            },
        };
        let ghost head = views(ops@);
        let ghost all = self@.pacfiles;
        assert(views(ops@) == head + removals(all.take(0)));
        let mut i: usize = 0;
        while i < count
            invariant
                i <= count <= pacfiles.len(),
                views(pacfiles@) == all,
                views(ops@) == head + removals(all.take(i as int)),
            decreases count - i,
        {
            let ghost upto = views(ops@);
            ops.push(FileOp::Remove { path: pacfiles[i].clone() });
            proof {
                assert(views(ops@) == upto.push(FileOpView::Remove { path: all[i as int] }));
                assert(removals(all.take(i + 1)) == removals(all.take(i as int)).push(
                    FileOpView::Remove { path: all[i as int] },
                ));
            }
            i += 1;
        }
        proof {
            if action == Action::Remove {
                assert(all.take(count as int) == all);
                assert(head + removals(all) == removals(all));
            } else {
                assert(all.take(count as int) == all.drop_last());
                assert(head == seq![FileOpView::Rename { from: all.last(), to: self@.file }]);
            }
        }
        ops
    }

    /// The command that shows the record under `config`.
    pub fn view_command(&self, config: &Config) -> (command: Option<Command>)
        ensures
            command is Some == self@.view_command(
                config.diffprog@,
                config.nosudoedit,
                user_text(config.sudouser),
            ) is Some,
            command matches Some(c) ==> Some(c@) == self@.view_command(
                config.diffprog@,
                config.nosudoedit,
                user_text(config.sudouser),
            ),
    {
        let mut args: Vec<String> = Vec::new();
        let program: String;
        if !config.nosudoedit {
            if let Some(user) = &config.sudouser {
                let mut editor = chars_of("SUDO_EDITOR=");
                let diffprog = chars_of(config.diffprog.as_str());
                push_all(&mut editor, &diffprog);
                args.push(string_of(&editor));
                args.push(chars_to_string("-u"));
                args.push(user.clone());
                args.push(chars_to_string("sudo"));
                args.push(chars_to_string("-e"));
                proof {
                    assert(views(args@) == seq![
                        "SUDO_EDITOR="@ + config.diffprog@,
                        "-u"@,
                        user@,
                        "sudo"@,
                        "-e"@,
                    ]);
                }
                self.push_shown_files(&mut args);
                return Some(Command { program: chars_to_string("sudo"), args });
            }
        }
        let diffprog = chars_of(config.diffprog.as_str());
        let words = split_words(&diffprog);
        if words.len() == 0 {
            return None;
        }
        let ghost all = tokens(config.diffprog@);
        let mut i: usize = 1;
        assert(views(args@) == all.subrange(1, 1));
        while i < words.len()
            invariant
                1 <= i <= words.len(),
                views(words@) == all,
                views(args@) == all.subrange(1, i as int),
            decreases words.len() - i,
        {
            let ghost upto = views(args@);
            let word = string_of(&words[i]);
            args.push(word);
            proof {
                assert(views(args@) == upto.push(words@[i as int]@));
                assert(all.subrange(1, i + 1) == all.subrange(1, i as int).push(all[i as int]));
            }
            i += 1;
        }
        proof {
            assert(all.subrange(1, words@.len() as int) == all.skip(1));
            assert(words@[0]@ == all[0]);
        }
        self.push_shown_files(&mut args);
        Some(Command { program: string_of(&words[0]), args })
    }
}

/// A string holding the characters of `text`.
fn chars_to_string(text: &str) -> (s: String)
    ensures
        s@ == text@,
{
    string_of(&chars_of(text))
}

/// The files after one operation that succeeded.  `files` maps each path
/// that holds a file to the file's contents.
pub open spec fn after_op(files: Map<Seq<char>, Seq<u8>>, op: FileOpView) -> Map<
    Seq<char>,
    Seq<u8>,
> {
    match op {
        FileOpView::Remove { path } => files.remove(path),
        FileOpView::Rename { from, to } => if files.dom().contains(from) {
            files.remove(from).insert(to, files[from])
        } else {
            files
        },
    }
}

/// The files after `ops` were tried in order.  `done` tells of each
/// operation whether it succeeded; one that failed changed nothing.
pub open spec fn after_ops(files: Map<Seq<char>, Seq<u8>>, ops: Seq<FileOpView>, done: Seq<bool>)
    -> Map<Seq<char>, Seq<u8>>
    decreases ops.len(),
{
    if ops.len() == 0 {
        files
    } else {
        let before = after_ops(files, ops.drop_last(), done);
        if done[ops.len() - 1] {
            after_op(before, ops.last())
        } else {
            before
        }
    }
}

/// The state after the first `count` operations of an overwrite, for
/// [`lemma_overwrite`].
proof fn lemma_overwrite_upto(
    record: BackupView,
    files: Map<Seq<char>, Seq<u8>>,
    done: Seq<bool>,
    count: int,
)
    requires
        record.wf(),
        !record.pacfiles.contains(record.file),
        1 <= count <= record.pacfiles.len(),
    ensures
        ({
            let ops = record.plan(Action::Overwrite);
            let last = record.pacfiles.last();
            let after = after_ops(files, ops.take(count), done);
            &&& ops.len() == record.pacfiles.len()
            &&& done[0] && files.dom().contains(last) ==> after.dom().contains(record.file)
                && after[record.file] == files[last] && !after.dom().contains(last)
            &&& forall|i: int|
                0 <= i < count - 1 && done[i + 1] ==> !after.dom().contains(
                    #[trigger] record.pacfiles[i],
                )
        }),
    decreases count,
{
    let ops = record.plan(Action::Overwrite);
    let last = record.pacfiles.last();
    let rest = record.pacfiles.drop_last();
    let upto = ops.take(count);
    let after = after_ops(files, upto, done);
    assert(record.pacfiles.contains(last));
    assert(ops == seq![FileOpView::Rename { from: last, to: record.file }] + removals(rest));
    assert(ops.len() == record.pacfiles.len());
    if count == 1 {
        assert(upto.drop_last() == Seq::<FileOpView>::empty());
        assert(upto.last() == ops[0]);
        assert(after_ops(files, upto.drop_last(), done) == files);
        assert(upto.len() == 1);
        assert(after == if done[0] {
            after_op(files, ops[0])
        } else {
            files
        });
    } else {
        lemma_overwrite_upto(record, files, done, count - 1);
        let before = after_ops(files, ops.take(count - 1), done);
        assert(upto.drop_last() == ops.take(count - 1));
        assert(upto.len() == count);
        assert(upto.last() == ops[count - 1]);
        assert(ops[count - 1] == removals(rest)[count - 2]);
        assert(rest[count - 2] == record.pacfiles[count - 2]);
        let path = record.pacfiles[count - 2];
        assert(upto.last() == FileOpView::Remove { path });
        assert(record.pacfiles.contains(path));
        assert(after == if done[count - 1] {
            before.remove(path)
        } else {
            before
        });
        assert forall|i: int| 0 <= i < count - 1 && done[i + 1] implies !after.dom().contains(
            #[trigger] record.pacfiles[i],
        ) by {
            if i < count - 2 {
                assert(!before.dom().contains(record.pacfiles[i]));
            }
        }
    }
}

/// Overwriting does what it is for, whichever of its operations fail.
/// Take a record whose tracked file is none of its backup files, and try
/// the operations of its plan in order.  If the move succeeds and the last
/// backup file was there, the tracked file then holds what that backup file
/// held, and the backup file is gone.  Every other backup file whose
/// deletion succeeds is gone, whether or not the move succeeded.
pub proof fn lemma_overwrite(record: BackupView, files: Map<Seq<char>, Seq<u8>>, done: Seq<bool>)
    requires
        record.wf(),
        !record.pacfiles.contains(record.file),
    ensures
        ({
            let ops = record.plan(Action::Overwrite);
            let last = record.pacfiles.last();
            let after = after_ops(files, ops, done);
            &&& ops.len() == record.pacfiles.len()
            &&& ops[0] == FileOpView::Rename { from: last, to: record.file }
            &&& forall|i: int|
                0 <= i < record.pacfiles.len() - 1 ==> ops[i + 1] == FileOpView::Remove {
                    path: #[trigger] record.pacfiles[i],
                }
            &&& done[0] && files.dom().contains(last) ==> after.dom().contains(record.file)
                && after[record.file] == files[last] && !after.dom().contains(last)
            &&& forall|i: int|
                0 <= i < record.pacfiles.len() - 1 && done[i + 1] ==> !after.dom().contains(
                    #[trigger] record.pacfiles[i],
                )
        }),
{
    let ops = record.plan(Action::Overwrite);
    lemma_overwrite_upto(record, files, done, record.pacfiles.len() as int);
    assert(ops.take(record.pacfiles.len() as int) == ops);
}

/// The state after the first `count` operations of a removal, for
/// [`lemma_remove`].
proof fn lemma_remove_upto(
    record: BackupView,
    files: Map<Seq<char>, Seq<u8>>,
    done: Seq<bool>,
    count: int,
)
    requires
        0 <= count <= record.pacfiles.len(),
    ensures
        ({
            let ops = record.plan(Action::Remove);
            let after = after_ops(files, ops.take(count), done);
            &&& ops.len() == record.pacfiles.len()
            &&& after.dom().subset_of(files.dom())
            &&& forall|path: Seq<char>|
                after.dom().contains(path) ==> after[path] == #[trigger] files[path]
            &&& forall|path: Seq<char>|
                #![trigger after.dom().contains(path)]
                files.dom().contains(path) && !record.pacfiles.contains(path)
                    ==> after.dom().contains(path)
            &&& forall|i: int|
                0 <= i < count && done[i] ==> !after.dom().contains(#[trigger] record.pacfiles[i])
        }),
    decreases count,
{
    let ops = record.plan(Action::Remove);
    let upto = ops.take(count);
    if count > 0 {
        lemma_remove_upto(record, files, done, count - 1);
        assert(upto.drop_last() == ops.take(count - 1));
        assert(upto.last() == FileOpView::Remove { path: record.pacfiles[count - 1] });
        assert(record.pacfiles.contains(record.pacfiles[count - 1]));
    }
}

/// Removing deletes the backup files and nothing else.  Try the operations
/// of a record's removal in order.  Every backup file whose deletion
/// succeeds is gone.  Every file that is not one of the record's backup
/// files is still there, and no file has changed.
pub proof fn lemma_remove(record: BackupView, files: Map<Seq<char>, Seq<u8>>, done: Seq<bool>)
    ensures
        ({
            let after = after_ops(files, record.plan(Action::Remove), done);
            &&& forall|i: int|
                0 <= i < record.pacfiles.len() && done[i] ==> !after.dom().contains(
                    #[trigger] record.pacfiles[i],
                )
            &&& forall|path: Seq<char>|
                #![trigger after.dom().contains(path)]
                files.dom().contains(path) && !record.pacfiles.contains(path)
                    ==> after.dom().contains(path)
            &&& forall|path: Seq<char>|
                after.dom().contains(path) ==> files.dom().contains(path) && after[path]
                    == #[trigger] files[path]
        }),
{
    let ops = record.plan(Action::Remove);
    lemma_remove_upto(record, files, done, record.pacfiles.len() as int);
    assert(ops.take(record.pacfiles.len() as int) == ops);
}

/// Whether `op` names no file but those of `record`: it deletes one of the
/// backup files, or moves one of them onto the tracked file.
pub open spec fn names_files_of(op: FileOpView, record: BackupView) -> bool {
    match op {
        FileOpView::Remove { path } => record.pacfiles.contains(path),
        FileOpView::Rename { from, to } => record.pacfiles.contains(from) && to == record.file,
    }
}

/// An action on a record names no file but those of the record.
pub proof fn lemma_plan_names_own_files(record: BackupView, action: Action)
    ensures
        forall|i: int|
            0 <= i < record.plan(action).len() ==> names_files_of(
                #[trigger] record.plan(action)[i],
                record,
            ),
{
    let ops = record.plan(action);
    assert forall|i: int| 0 <= i < ops.len() implies names_files_of(#[trigger] ops[i], record) by {
        match action {
            Action::Remove => {
                assert(ops[i] == FileOpView::Remove { path: record.pacfiles[i] });
                assert(record.pacfiles.contains(record.pacfiles[i]));
            },
            Action::Overwrite => {
                if i == 0 {
                    assert(record.pacfiles.contains(record.pacfiles.last()));
                } else {
                    assert(ops[i] == removals(record.pacfiles.drop_last())[i - 1]);
                    assert(record.pacfiles.contains(record.pacfiles[i - 1]));
                }
            },
            _ => {},
        }
    }
}

/// To view, to skip and to quit touch no file.
pub proof fn lemma_other_actions_touch_nothing(record: BackupView, action: Action)
    requires
        action != Action::Remove,
        action != Action::Overwrite,
    ensures
        record.plan(action).len() == 0,
{
}

} // verus!

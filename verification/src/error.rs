//! What can go wrong in a run, and how it is told to the operator.

use crate::text::{chars_of, decimal, push_all, push_decimal, push_str, string_of, views};
use vstd::prelude::*;

verus! {

/// A failure, with the texts that describe it.
#[derive(Clone, Debug, PartialEq, Eq)]
pub enum Error {
    /// The package database could not be opened: the reason, the root
    /// directory and the path of the database.
    AlpmInit(String, String, String),
    /// The package database failed: the reason.
    Alpm(String),
    /// The configuration could not be read: the reason.
    Pacmanconf(String),
    /// Reading or writing failed: the reason.
    Io(String),
    /// A command ended without success: the program, its arguments, and its
    /// exit code unless a signal ended it.
    CommandNonZero(String, Vec<String>, Option<i32>),
    /// A command could not be run: the program, its arguments, the reason.
    CommandFailed(String, Vec<String>, String),
}

/// `items` one after the other with `between` between each two.
pub open spec fn joined(items: Seq<Seq<char>>, between: Seq<char>) -> Seq<char>
    decreases items.len(),
{
    if items.len() == 0 {
        Seq::empty()
    } else if items.len() == 1 {
        items[0]
    } else {
        joined(items.drop_last(), between) + between + items.last()
    }
}

/// `n` in decimal, with a minus sign if it is negative.
pub open spec fn signed_decimal(n: int) -> Seq<char> {
    if n < 0 {
        "-"@ + decimal((-n) as nat)
    } else {
        decimal(n as nat)
    }
}

/// A command as it is shown: the program, a blank, and the arguments with
/// blanks between them.
pub open spec fn command_line(program: Seq<char>, args: Seq<Seq<char>>) -> Seq<char> {
    program + " "@ + joined(args, " "@)
}

/// How a command ended: its exit code, or the words for a signal.
pub open spec fn exit_text(code: Option<i32>) -> Seq<char> {
    match code {
        Some(n) => signed_decimal(n as int),
        None => "terminated by signal"@,
    }
}

impl Error {
    /// The message of the failure.
    pub open spec fn text(self) -> Seq<char> {
        match self {
            Error::AlpmInit(reason, root, db) => "failed to initialize alpm with root=\""@ + root@
                + "\" dbpath=\""@ + db@ + "\": "@ + reason@,
            Error::Alpm(reason) => reason@,
            Error::Pacmanconf(reason) => reason@,
            Error::Io(reason) => reason@,
            Error::CommandNonZero(program, args, code) => "command failed: exited "@ + exit_text(
                code,
            ) + ": '"@ + command_line(program@, views(args@)) + "'"@,
            Error::CommandFailed(program, args, reason) => "command failed: '"@ + command_line(
                program@,
                views(args@),
            ) + "': "@ + reason@,
        }
    }

    /// Writes the message of the failure.
    pub fn message(&self) -> (message: String)
        ensures
            message@ == self.text(),
    {
        let mut out: Vec<char> = Vec::new();
        match self {
            Error::AlpmInit(reason, root, db) => {
                push_str(&mut out, "failed to initialize alpm with root=\"");
                push_str(&mut out, root.as_str());
                push_str(&mut out, "\" dbpath=\"");
                push_str(&mut out, db.as_str());
                push_str(&mut out, "\": ");
                push_str(&mut out, reason.as_str());
            },
            Error::Alpm(reason) => {
                push_str(&mut out, reason.as_str());
            },
            Error::Pacmanconf(reason) => {
                push_str(&mut out, reason.as_str());
            },
            Error::Io(reason) => {
                push_str(&mut out, reason.as_str());
            },
            Error::CommandNonZero(program, args, code) => {
                push_str(&mut out, "command failed: exited ");
                push_exit(&mut out, *code);
                push_str(&mut out, ": '");
                push_command_line(&mut out, program, args);
                push_str(&mut out, "'");
            },
            Error::CommandFailed(program, args, reason) => {
                push_str(&mut out, "command failed: '");
                push_command_line(&mut out, program, args);
                push_str(&mut out, "': ");
                push_str(&mut out, reason.as_str());
            },
        }
        assert(out@ == self.text());
        string_of(&out)
    }
}

/// Appends [`exit_text`] to `out`.
fn push_exit(out: &mut Vec<char>, code: Option<i32>)
    ensures
        final(out)@ == old(out)@ + exit_text(code),
{
    match code {
        Some(n) => {
            if n < 0 {
                push_str(out, "-");
                push_decimal(out, (-(n as i64)) as u128);
            } else {
                push_decimal(out, n as u128);
            }
        },
        None => {
            push_str(out, "terminated by signal");
        },
    }
}

/// Appends [`command_line`] to `out`.
fn push_command_line(out: &mut Vec<char>, program: &String, args: &Vec<String>)
    ensures
        final(out)@ == old(out)@ + command_line(program@, views(args@)),
{
    push_str(out, program.as_str());
    push_str(out, " ");
    let ghost head = out@;
    let ghost all = views(args@);
    let mut i: usize = 0;
    assert(all.take(0) == Seq::<Seq<char>>::empty());
    while i < args.len()
        invariant
            i <= args.len(),
            all == views(args@),
            out@ == head + joined(all.take(i as int), " "@),
        decreases args.len() - i,
    {
        proof {
            let upto = all.take(i + 1);
            assert(upto.drop_last() == all.take(i as int));
            assert(upto.last() == args@[i as int]@);
            if i == 0 {
                assert(upto[0] == args@[0]@);
            }
        }
        if i > 0 {
            push_str(out, " ");
        }
        push_all(out, &chars_of(args[i].as_str()));
        i += 1;
    }
    assert(all.take(args@.len() as int) == all);
}

} // verus!

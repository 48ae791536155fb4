//! A run, one step at a time.
//!
//! A [`Session`] holds the records and where the run stands.  It says what
//! is to be done next as a [`Directive`]; the caller does it, reads a reply
//! from the operator if the directive asks for one, and moves the session
//! on.  The session itself reads nothing and touches no file.

use crate::backup::{Backup, BackupView};
use crate::config::{Action, Config};
use crate::resolve::{
    action_of, parse_action, user_text, Command, CommandView, FileOp, FileOpView,
};
use crate::select::{filter_backups, kept, selection};
use crate::text::{
    chars_of, decimal, lowercased, pad_left, push_all, push_decimal, push_padded_left,
    push_str, string_of, views,
};
use vstd::prelude::*;

verus! {

/// Where a run stands.
#[derive(Clone, Copy, PartialEq, Eq, Structural, Debug)]
pub enum Phase {
    /// The operator is to choose the records to manage.
    Selecting,
    /// The backup files are to be printed, and nothing else done.
    Printing,
    /// The operator is to choose the action for the record at this index.
    Asking(usize),
    /// The record at this index is to be shown.
    Viewing(usize),
    /// The action is to be carried out on the record at this index.
    Applying(usize, Action),
    /// Nothing is left to do.
    Finished,
}

/// What the caller is to do next.
#[derive(Clone, Debug, PartialEq, Eq)]
pub enum Directive {
    /// List the records, ask which of them to manage, and reply with the
    /// answer.
    Select,
    /// Print these paths, one to a line.
    Print { paths: Vec<String> },
    /// Show the position and the label of a record, ask what to do with it,
    /// and reply with the answer.
    Ask { position: String, label: String },
    /// Run this command and wait for it, whatever its outcome.  Without a
    /// command there is no diff program to run.
    View { command: Option<Command> },
    /// Try each of these file operations, in order, whether or not the ones
    /// before it succeeded.
    Apply { ops: Vec<FileOp> },
    /// Stop.
    Stop,
}

/// A [`Directive`] over plain texts.
pub enum DirectiveView {
    /// List the records and ask which of them to manage.
    Select,
    /// Print these paths.
    Print { paths: Seq<Seq<char>> },
    /// Show a record and ask what to do with it.
    Ask { position: Seq<char>, label: Seq<char> },
    /// Run this command, if there is one.
    View { command: Option<CommandView> },
    /// Try these file operations in order.
    Apply { ops: Seq<FileOpView> },
    /// Stop.
    Stop,
}

impl View for Directive {
    type V = DirectiveView;

    open spec fn view(&self) -> DirectiveView {
        match self {
            Directive::Select => DirectiveView::Select,
            Directive::Print { paths } => DirectiveView::Print { paths: views(paths@) },
            Directive::Ask { position, label } => DirectiveView::Ask {
                position: position@,
                label: label@,
            },
            Directive::View { command } => DirectiveView::View {
                command: match command {
                    Some(c) => Some(c@),
                    None => None,
                },
            },
            Directive::Apply { ops } => DirectiveView::Apply { ops: views(ops@) },
            Directive::Stop => DirectiveView::Stop,
        }
    }
}

/// The position of a record among `total`, in brackets: its number, filled
/// up with zeros to the width of `total`, a slash, and `total`.
pub open spec fn position_text(number: nat, total: nat) -> Seq<char> {
    "["@ + pad_left(decimal(number), decimal(total).len(), '0') + "/"@ + decimal(total) + "]"@
}

/// Writes [`position_text`].
pub fn format_position(number: usize, total: usize) -> (text: String)
    ensures
        text@ == position_text(number as nat, total as nat),
{
    let mut whole: Vec<char> = Vec::new();
    push_decimal(&mut whole, total as u128);
    let mut digits: Vec<char> = Vec::new();
    push_decimal(&mut digits, number as u128);
    assert(whole@ == decimal(total as nat));
    assert(digits@ == decimal(number as nat));
    let mut out = chars_of("[");
    push_padded_left(&mut out, &digits, whole.len(), '0');
    push_str(&mut out, "/");
    push_all(&mut out, &whole);
    push_str(&mut out, "]");
    string_of(&out)
}

/// The backup files of all records, in order.
pub open spec fn all_pacfiles(records: Seq<BackupView>) -> Seq<Seq<char>>
    decreases records.len(),
{
    if records.len() == 0 {
        Seq::empty()
    } else {
        all_pacfiles(records.drop_last()) + records.last().pacfiles
    }
}

/// The phase in which the record at `index` is taken up.  Behind the last
/// record the run is finished.  With an action set for all records, that
/// action is taken without asking; to skip or to quit for all records
/// finishes the run at once.
pub open spec fn enter(index: int, total: int, preset: Option<Action>) -> Phase {
    if index >= total {
        Phase::Finished
    } else {
        match preset {
            None => Phase::Asking(index as usize),
            Some(Action::View) => Phase::Viewing(index as usize),
            Some(Action::Remove) => Phase::Applying(index as usize, Action::Remove),
            Some(Action::Overwrite) => Phase::Applying(index as usize, Action::Overwrite),
            Some(Action::Skip) => Phase::Finished,
            Some(Action::Quit) => Phase::Finished,
        }
    }
}

/// The phase in which the records are taken up, once it is settled which
/// they are: they are printed, or the first of them is entered.
pub open spec fn begin(total: int, config: Config) -> Phase {
    if config.output {
        Phase::Printing
    } else {
        enter(0, total, config.action)
    }
}

/// The phase in which a run starts: the operator selects first, unless
/// all records are to be managed or there is none.
pub open spec fn start(total: int, config: Config) -> Phase {
    if !config.all && total > 0 {
        Phase::Selecting
    } else {
        begin(total, config)
    }
}

/// The records after a reply: a selection keeps those that the reply, in
/// lower case, selects; in every other phase the records stay.
pub open spec fn records_after(phase: Phase, records: Seq<BackupView>, reply: Seq<char>) -> Seq<
    BackupView,
> {
    match phase {
        Phase::Selecting => kept(records, selection(records.len(), lowercased(reply))),
        _ => records,
    }
}

/// The phase after a reply.  `total` is the number of records after it.
/// A record is left behind once it has been skipped or acted on.  A record
/// that was shown is taken up again.  To quit finishes the run.
pub open spec fn phase_after(phase: Phase, total: int, config: Config, reply: Seq<char>) -> Phase {
    match phase {
        Phase::Selecting => begin(total, config),
        Phase::Printing => Phase::Finished,
        Phase::Asking(index) => match action_of(reply) {
            Action::View => Phase::Viewing(index),
            Action::Skip => enter(index + 1, total, config.action),
            Action::Remove => Phase::Applying(index, Action::Remove),
            Action::Overwrite => Phase::Applying(index, Action::Overwrite),
            Action::Quit => Phase::Finished,
        },
        Phase::Viewing(index) => enter(index as int, total, config.action),
        Phase::Applying(index, _) => enter(index + 1, total, config.action),
        Phase::Finished => Phase::Finished,
    }
}

/// What is to be done in a phase.
pub open spec fn directive_of(phase: Phase, records: Seq<BackupView>, config: Config)
    -> DirectiveView {
    match phase {
        Phase::Selecting => DirectiveView::Select,
        Phase::Printing => DirectiveView::Print { paths: all_pacfiles(records) },
        Phase::Asking(index) => DirectiveView::Ask {
            position: position_text((index + 1) as nat, records.len()),
            label: records[index as int].label(),
        },
        Phase::Viewing(index) => DirectiveView::View {
            command: records[index as int].view_command(
                config.diffprog@,
                config.nosudoedit,
                user_text(config.sudouser),
            ),
        },
        Phase::Applying(index, action) => DirectiveView::Apply {
            ops: records[index as int].plan(action),
        },
        Phase::Finished => DirectiveView::Stop,
    }
}

/// Whether `phase` speaks of a record that is there.
pub open spec fn phase_fits(phase: Phase, total: int) -> bool {
    match phase {
        Phase::Asking(index) => index < total,
        Phase::Viewing(index) => index < total,
        Phase::Applying(index, _) => index < total,
        _ => true,
    }
}

/// Keeping by a mask and taking views can be done in either order.
pub proof fn lemma_kept_views(items: Seq<Backup>, mask: Seq<bool>)
    ensures
        views(kept(items, mask)) == kept(views(items), mask),
    decreases items.len(),
{
    if items.len() > 0 {
        lemma_kept_views(items.drop_last(), mask);
        assert(views(items).drop_last() == views(items.drop_last()));
        assert(views(items).last() == items.last()@);
        if mask[items.len() - 1] {
            assert(views(kept(items.drop_last(), mask).push(items.last())) == views(
                kept(items.drop_last(), mask),
            ).push(items.last()@));
        }
    }
}

/// To quit ends the run for good.  When the operator quits at a record, the
/// run is finished and the records are as they were.  From then on every
/// directive is to stop, whatever is replied: no later record is asked about
/// and none of their files is named in an operation.
pub proof fn lemma_quit_is_final(
    index: usize,
    records: Seq<BackupView>,
    config: Config,
    reply: Seq<char>,
    later: Seq<char>,
)
    requires
        action_of(reply) == Action::Quit,
    ensures
        records_after(Phase::Asking(index), records, reply) == records,
        phase_after(Phase::Asking(index), records.len() as int, config, reply) == Phase::Finished,
        directive_of(Phase::Finished, records, config) == DirectiveView::Stop,
        records_after(Phase::Finished, records, later) == records,
        phase_after(Phase::Finished, records.len() as int, config, later) == Phase::Finished,
{
}

/// A step never goes back: the record taken up after a reply is the one
/// the phase stood at or the one behind it, and a finished run stays
/// finished.  So what was done to earlier records is not done again.
pub proof fn lemma_steps_go_forward(
    phase: Phase,
    total: int,
    config: Config,
    reply: Seq<char>,
)
    requires
        0 <= total <= usize::MAX,
        phase_fits(phase, total),
    ensures
        ({
            let next = phase_after(phase, total, config, reply);
            &&& phase_fits(next, total)
            &&& record_index(phase) matches Some(i) ==> (record_index(next) matches Some(j) ==> i
                <= j <= i + 1)
            &&& phase == Phase::Finished ==> next == Phase::Finished
        }),
{
}

/// The index of the record that a phase speaks of, if it speaks of one.
pub open spec fn record_index(phase: Phase) -> Option<int> {
    match phase {
        Phase::Asking(index) => Some(index as int),
        Phase::Viewing(index) => Some(index as int),
        Phase::Applying(index, _) => Some(index as int),
        _ => None,
    }
}

/// A run in progress.
#[derive(Debug)]
pub struct Session {
    config: Config,
    backups: Vec<Backup>,
    phase: Phase,
}

impl Session {
    #[verifier::type_invariant]
    spec fn fits(self) -> bool {
        phase_fits(self.phase, self.backups@.len() as int)
    }

    /// Where the run stands.
    pub closed spec fn phase(self) -> Phase {
        self.phase
    }

    /// The records of the run.
    pub closed spec fn records(self) -> Seq<BackupView> {
        views(self.backups@)
    }

    /// The options of the run.
    pub closed spec fn options(self) -> Config {
        self.config
    }

    /// Starts a run on `backups`.
    pub fn new(config: Config, backups: Vec<Backup>) -> (session: Session)
        ensures
            session.options() == config,
            session.records() == views(backups@),
            session.phase() == start(backups@.len() as int, config),
    {
        let phase = if !config.all && backups.len() > 0 {
            Phase::Selecting
        } else {
            begin_phase(backups.len(), &config)
        };
        Session { config, backups, phase }
    }

    /// Where the run stands.
    pub fn current(&self) -> (phase: Phase)
        ensures
            phase == self.phase(),
            phase_fits(phase, self.records().len() as int),
    {
        proof {
            use_type_invariant(self);
        }
        self.phase
    }

    /// The records of the run.
    pub fn backups(&self) -> (backups: &Vec<Backup>)
        ensures
            views(backups@) == self.records(),
    {
        &self.backups
    }

    /// Whether nothing is left to do.
    pub fn is_finished(&self) -> (finished: bool)
        ensures
            finished == (self.phase() == Phase::Finished),
    {
        match self.phase {
            Phase::Finished => true,
            _ => false,
        }
    }

    /// What the caller is to do next.
    pub fn directive(&self) -> (directive: Directive)
        ensures
            directive@ == directive_of(self.phase(), self.records(), self.options()),
    {
        proof {
            use_type_invariant(self);
        }
        let total = self.backups.len();
        match self.phase {
            Phase::Selecting => Directive::Select,
            Phase::Printing => Directive::Print { paths: pacfiles_of(&self.backups) },
            Phase::Asking(index) => Directive::Ask {
                position: format_position(index + 1, total),
                label: self.backups[index].format_pacfiles(),
            },
            Phase::Viewing(index) => Directive::View {
                command: self.backups[index].view_command(&self.config),
            },
            Phase::Applying(index, action) => Directive::Apply {
                ops: self.backups[index].plan(action),
            },
            Phase::Finished => Directive::Stop,
        }
    }

    /// Moves the run on, once the directive has been followed.  `reply` is
    /// what the operator answered; where the directive asked for no answer
    /// it is not looked at.
    pub fn advance(self, reply: &str) -> (next: Session)
        ensures
            next.options() == self.options(),
            next.records() == records_after(self.phase(), self.records(), reply@),
            next.phase() == phase_after(
                self.phase(),
                next.records().len() as int,
                self.options(),
                reply@,
            ),
    {
        proof {
            use_type_invariant(&self);
        }
        let Session { config, backups, phase } = self;
        let total = backups.len();
        match phase {
            Phase::Selecting => {
                let lower = reply.to_lowercase();
                proof {
                    lemma_kept_views(backups@, selection(backups@.len(), lower@));
                }
                let backups = filter_backups(backups, lower.as_str());
                let phase = begin_phase(backups.len(), &config);
                Session { config, backups, phase }
            },
            Phase::Printing => Session { config, backups, phase: Phase::Finished },
            Phase::Asking(index) => {
                let phase = match parse_action(reply) {
                    Action::View => Phase::Viewing(index),
                    Action::Skip => enter_phase(index + 1, total, &config),
                    Action::Remove => Phase::Applying(index, Action::Remove),
                    Action::Overwrite => Phase::Applying(index, Action::Overwrite),
                    Action::Quit => Phase::Finished,
                };
                Session { config, backups, phase }
            },
            Phase::Viewing(index) => {
                let phase = enter_phase(index, total, &config);
                Session { config, backups, phase }
            },
            Phase::Applying(index, _) => {
                let phase = enter_phase(index + 1, total, &config);
                Session { config, backups, phase }
            },
            Phase::Finished => Session { config, backups, phase: Phase::Finished },
        }
    }
}

/// Decides [`enter`].
fn enter_phase(index: usize, total: usize, config: &Config) -> (phase: Phase)
    ensures
        phase == enter(index as int, total as int, config.action),
        phase_fits(phase, total as int),
{
    if index >= total {
        return Phase::Finished;
    }
    match config.action {
        None => Phase::Asking(index),
        Some(Action::View) => Phase::Viewing(index),
        Some(Action::Remove) => Phase::Applying(index, Action::Remove),
        Some(Action::Overwrite) => Phase::Applying(index, Action::Overwrite),
        Some(Action::Skip) => Phase::Finished,
        Some(Action::Quit) => Phase::Finished,
    }
}

/// Decides [`begin`].
fn begin_phase(total: usize, config: &Config) -> (phase: Phase)
    ensures
        phase == begin(total as int, *config),
        phase_fits(phase, total as int),
{
    if config.output {
        Phase::Printing
    } else {
        enter_phase(0, total, config)
    }
}

/// The backup files of all of `backups`, in order.
fn pacfiles_of(backups: &Vec<Backup>) -> (paths: Vec<String>)
    ensures
        views(paths@) == all_pacfiles(views(backups@)),
{
    let mut paths: Vec<String> = Vec::new();
    let ghost records = views(backups@);
    let mut i: usize = 0;
    assert(records.take(0) == Seq::<BackupView>::empty());
    while i < backups.len()
        invariant
            i <= backups.len(),
            records == views(backups@),
            views(paths@) == all_pacfiles(records.take(i as int)),
        decreases backups.len() - i,
    {
        let pacfiles = backups[i].pacfiles();
        let ghost head = views(paths@);
        let mut j: usize = 0;
        assert(views(pacfiles@).take(0) == Seq::<Seq<char>>::empty());
        while j < pacfiles.len()
            invariant
                j <= pacfiles.len(),
                views(paths@) == head + views(pacfiles@).take(j as int),
            decreases pacfiles.len() - j,
        {
            let ghost upto = views(paths@);
            paths.push(pacfiles[j].clone());
            proof {
                assert(views(paths@) == upto.push(pacfiles@[j as int]@));
                assert(views(pacfiles@).take(j + 1) == views(pacfiles@).take(j as int).push(
                    pacfiles@[j as int]@,
                ));
            }
            j += 1;
        }
        proof {
            assert(views(pacfiles@).take(pacfiles@.len() as int) == views(pacfiles@));
            let upto = records.take(i + 1);
            assert(upto.drop_last() == records.take(i as int));
            assert(upto.last() == backups@[i as int]@);
        }
        i += 1;
    }
    assert(records.take(backups@.len() as int) == records);
    paths
}

} // verus!

//! The command dispatcher: an invocation's commands become the steps that
//! the program carries out against the player, in argument order.

use vstd::prelude::*;
use crate::api::{clamped_volume, Player};
use crate::args::{classify, parse_tokens, takes_value, Args, Command};
use crate::text::all_digits;
use crate::error::Error;

verus! {

/// One step of an invocation.
#[derive(Debug, Clone, PartialEq, Eq)]
pub enum Step {
    /// Offer the catalog and start the player on the chosen target.
    Select,
    /// Start the player on this target.
    Start(String),
    /// Jump to this percentage of the current entry.
    Seek(i64),
    /// Set the volume to this level, already within `[0, 100]`.
    SetVolume(u64),
    Kill,
    Next,
    Prev,
    Toggle,
    LoopPlaylist,
    LoopSingle,
    Random,
    PrintVolume,
    Download,
    Running,
    Print,
    Percentage,
    GetLink,
    Thumbnail(String),
    Help,
    /// Report this token as not understood and go on.
    Skip(String),
}

/// The step that carries out one command.
pub open spec fn step_of(c: Command) -> Step {
    match c {
        Command::Link(t) => Step::Start(t),
        Command::Seek(n) => Step::Seek(n),
        Command::Volume(v) => Step::SetVolume(clamped_volume(v as int) as u64),
        Command::Help => Step::Help,
        Command::Kill => Step::Kill,
        Command::Next => Step::Next,
        Command::Prev => Step::Prev,
        Command::Toggle => Step::Toggle,
        Command::LoopPlaylist => Step::LoopPlaylist,
        Command::LoopSingle => Step::LoopSingle,
        Command::Random => Step::Random,
        Command::Download => Step::Download,
        Command::Print => Step::Print,
        Command::Running => Step::Running,
        Command::PrintVolume => Step::PrintVolume,
        Command::Percentage => Step::Percentage,
        Command::GetLink => Step::GetLink,
        Command::Thumbnail(p) => Step::Thumbnail(p),
        Command::Unrecognized(t) => Step::Skip(t),
    }
}

/// The steps of an invocation: interactive selection when there are no
/// commands, and otherwise one step per command, in order.
pub open spec fn plan_of(cmds: Seq<Command>) -> Seq<Step> {
    if cmds.len() == 0 {
        seq![Step::Select]
    } else {
        cmds.map_values(|c: Command| step_of(c))
    }
}

/// The session's target after the commands: the last link among them,
/// or `current` when there is none.
pub open spec fn last_target(cmds: Seq<Command>, current: Option<String>) -> Option<String>
    decreases cmds.len(),
{
    if cmds.len() == 0 {
        current
    } else {
        match cmds.last() {
            Command::Link(t) => Some(t),
            _ => last_target(cmds.drop_last(), current),
        }
    }
}

/// The steps that talk to the player over its control connection and
/// cannot run without one. Showing the title or the percentage falls back
/// to a default value instead.
pub open spec fn needs_connection(s: Step) -> bool {
    match s {
        Step::Seek(_) | Step::SetVolume(_) | Step::Next | Step::Prev | Step::Toggle
        | Step::LoopPlaylist | Step::LoopSingle | Step::Random | Step::PrintVolume
        | Step::Download | Step::Running | Step::GetLink | Step::Thumbnail(_) => true,
        _ => false,
    }
}

impl Step {
    /// Tells whether the step needs the control connection.
    pub fn needs_connection(&self) -> (r: bool)
        ensures
            r == needs_connection(*self),
    {
        match self {
            Step::Seek(_) | Step::SetVolume(_) | Step::Next | Step::Prev | Step::Toggle
            | Step::LoopPlaylist | Step::LoopSingle | Step::Random | Step::PrintVolume
            | Step::Download | Step::Running | Step::GetLink | Step::Thumbnail(_) => true,
            _ => false,
        }
    }
}

/// Builds the step of one command.
fn step_for(c: &Command) -> (r: Step)
    ensures
        r == step_of(*c),
{
    match c {
        Command::Link(t) => Step::Start(t.clone()),
        Command::Seek(n) => Step::Seek(*n),
        Command::Volume(v) => Step::SetVolume(Player::volume(*v)),
        Command::Help => Step::Help,
        Command::Kill => Step::Kill,
        Command::Next => Step::Next,
        Command::Prev => Step::Prev,
        Command::Toggle => Step::Toggle,
        Command::LoopPlaylist => Step::LoopPlaylist,
        Command::LoopSingle => Step::LoopSingle,
        Command::Random => Step::Random,
        Command::Download => Step::Download,
        Command::Print => Step::Print,
        Command::Running => Step::Running,
        Command::PrintVolume => Step::PrintVolume,
        Command::Percentage => Step::Percentage,
        Command::GetLink => Step::GetLink,
        Command::Thumbnail(p) => Step::Thumbnail(p.clone()),
        Command::Unrecognized(t) => Step::Skip(t.clone()),
    }
}

impl Args {
    /// The steps of this invocation. Each link also becomes the session's
    /// target, so the last one is the target that is saved.
    pub fn plan(&self, player: &mut Player) -> (r: Vec<Step>)
        ensures
            r@ == plan_of(self.commands@),
            final(player).data.url == last_target(self.commands@, old(player).data.url),
            final(player).data.mpv_args == old(player).data.mpv_args,
            final(player).data.running == old(player).data.running,
            final(player).data.logging_enabled == old(player).data.logging_enabled,
            final(player).data.elapsed_seconds == old(player).data.elapsed_seconds,
            final(player).socket == old(player).socket,
            final(player).connected == old(player).connected,
    {
        let n = self.commands.len();
        let mut steps: Vec<Step> = Vec::new();
        if n == 0 {
            steps.push(Step::Select);
            assert(steps@ =~= plan_of(self.commands@));
            return steps;
        }
        let ghost start = *player;
        let mut i: usize = 0;
        assert(self.commands@.take(0) =~= Seq::<Command>::empty());
        while i < n
            invariant
                n == self.commands@.len(),
                i <= n,
                steps@ == self.commands@.take(i as int).map_values(|c: Command| step_of(c)),
                player.data.url == last_target(self.commands@.take(i as int), start.data.url),
                player.data.mpv_args == start.data.mpv_args,
                player.data.running == start.data.running,
                player.data.logging_enabled == start.data.logging_enabled,
                player.data.elapsed_seconds == start.data.elapsed_seconds,
                player.socket == start.socket,
                player.connected == start.connected,
            decreases n - i,
        {
            let c = &self.commands[i];
            proof {
                let t = self.commands@.take(i + 1);
                assert(t.drop_last() =~= self.commands@.take(i as int));
                assert(t.last() == self.commands@[i as int]);
            }
            steps.push(step_for(c));
            match c {
                Command::Link(t) => {
                    player.data.url = Some(t.clone());
                },
                _ => {},
            }
            assert(steps@ =~= self.commands@.take(i + 1).map_values(|c: Command| step_of(c)));
            i = i + 1;
        }
        assert(self.commands@.take(n as int) =~= self.commands@);
        steps
    }
}

/// Copies a step.
fn copy_step(s: &Step) -> (r: Step)
    ensures
        r == *s,
{
    match s {
        Step::Select => Step::Select,
        Step::Start(t) => Step::Start(t.clone()),
        Step::Seek(n) => Step::Seek(*n),
        Step::SetVolume(v) => Step::SetVolume(*v),
        Step::Kill => Step::Kill,
        Step::Next => Step::Next,
        Step::Prev => Step::Prev,
        Step::Toggle => Step::Toggle,
        Step::LoopPlaylist => Step::LoopPlaylist,
        Step::LoopSingle => Step::LoopSingle,
        Step::Random => Step::Random,
        Step::PrintVolume => Step::PrintVolume,
        Step::Download => Step::Download,
        Step::Running => Step::Running,
        Step::Print => Step::Print,
        Step::Percentage => Step::Percentage,
        Step::GetLink => Step::GetLink,
        Step::Thumbnail(p) => Step::Thumbnail(p.clone()),
        Step::Help => Step::Help,
        Step::Skip(t) => Step::Skip(t.clone()),
    }
}

/// The progress of carrying out a plan: the steps run one at a time, in
/// order, and the first step that fails ends the run.
#[derive(Debug, Clone, PartialEq, Eq)]
pub struct Run {
    pub steps: Vec<Step>,
    /// How many steps have been carried out.
    pub done: usize,
    /// The error of the step that failed, if one did.
    pub failure: Option<Error>,
}

impl Run {
    /// No step is left to carry out: one has failed, or all have run.
    pub open spec fn finished(&self) -> bool {
        self.failure is Some || self.done >= self.steps@.len()
    }

    /// A run of `steps` that has not begun.
    pub fn new(steps: Vec<Step>) -> (r: Run)
        ensures
            r.steps == steps,
            r.done == 0,
            r.failure is None,
    {
        Run { steps, done: 0, failure: None }
    }

    /// The step to carry out next; none once a step has failed or all have
    /// run.
    pub fn next_step(&self) -> (r: Option<Step>)
        ensures
            self.finished() ==> r is None,
            !self.finished() ==> r == Some(self.steps@[self.done as int]),
    {
        if self.failure.is_some() || self.done >= self.steps.len() {
            None
        } else {
            Some(copy_step(&self.steps[self.done]))
        }
    }

    /// Records how the step that `next_step` handed out went.
    pub fn record(&mut self, outcome: Result<(), Error>)
        requires
            !old(self).finished(),
        ensures
            final(self).steps == old(self).steps,
            final(self).done == old(self).done + 1,
            final(self).failure == match outcome {
                Ok(_) => None,
                Err(e) => Some(e),
            },
    {
        let n = self.steps.len();
        assert(self.done < n);
        self.done = self.done + 1;
        match outcome {
            Ok(_) => {},
            Err(e) => {
                self.failure = Some(e);
            },
        }
    }

    /// How the run ended: the error of the step that failed, or success.
    pub fn outcome(self) -> (r: Result<(), Error>)
        ensures
            r == match self.failure {
                Some(e) => Err(e),
                None => Ok(()),
            },
    {
        match self.failure {
            Some(e) => Err(e),
            None => Ok(()),
        }
    }
}

impl Player {
    /// Lets a step run, or refuses it when it needs the control connection
    /// and none is open.
    pub fn allow(&self, step: &Step) -> (r: Result<(), Error>)
        ensures
            r is Ok <==> (!needs_connection(*step) || self.connected),
            r is Err ==> (r matches Err(Error::ExecuteErr(m)) && m@ == "no connection to the player"@),
    {
        if step.needs_connection() && !self.connected {
            Err(Error::ExecuteErr(String::from_str("no connection to the player")))
        } else {
            Ok(())
        }
    }
}

/// Every volume step carries a level within `[0, 100]`, whatever volume
/// the command asked for; a level already within the range is kept.
pub proof fn lemma_volume_step_in_range(v: i64)
    ensures
        step_of(Command::Volume(v)) matches Step::SetVolume(level) && 0 <= level <= 100,
        0 <= v <= 100 ==> step_of(Command::Volume(v)) == Step::SetVolume(v as u64),
{
}

/// A lone token of target shape plans exactly one step: starting the
/// player on that target.
pub proof fn lemma_lone_target_starts(tok: String)
    requires
        classify(tok) == Command::Link(tok),
        !takes_value(tok@),
    ensures
        plan_of(parse_tokens(seq![tok])) == seq![Step::Start(tok)],
{
    let toks = seq![tok];
    assert(toks[0] == tok);
    assert(toks.drop_first() =~= Seq::<String>::empty());
    assert(parse_tokens(Seq::<String>::empty()) == Seq::<Command>::empty());
    assert(parse_tokens(toks) =~= seq![Command::Link(tok)]);
    assert(plan_of(parse_tokens(toks)) =~= seq![Step::Start(tok)]);
}

/// A bare number plans no start: it is skipped as not understood.
pub proof fn lemma_number_never_starts(tok: String)
    requires
        all_digits(tok@),
    ensures
        plan_of(parse_tokens(seq![tok])) == seq![Step::Skip(tok)],
{
    let toks = seq![tok];
    assert(toks[0] == tok);
    assert(toks.drop_first() =~= Seq::<String>::empty());
    assert(parse_tokens(Seq::<String>::empty()) == Seq::<Command>::empty());
    assert(parse_tokens(toks) =~= seq![Command::Unrecognized(tok)]);
    assert(plan_of(parse_tokens(toks)) =~= seq![Step::Skip(tok)]);
}

} // verus!

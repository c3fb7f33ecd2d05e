//! The interactive boundary, as values.
//!
//! Every confirmation the walk issues yields one of yes / no / abort, and
//! every free-text prompt yields a string or the same abort signal. A
//! [`ReplyScript`] holds such replies as a sequence and hands them out one
//! at a time, which makes a whole interactive session a plain value the
//! walk can be verified against. A missing reply, or one of the wrong
//! shape, counts as the user declining to answer, that is, as abort.
//!
//! The small decision functions here ([`must_prompt`], [`gate_decision`],
//! [`chosen_name`]) are the per-gate logic itself; the walk uses them
//! through the script, and an interactive front end can use them directly
//! with answers gathered from a console.

use vstd::prelude::*;
use crate::policy::Action;

verus! {

/// Result of one three-way confirmation: affirmative, negative, or the
/// user declined to answer and the whole walk must stop.
#[derive(Clone, Copy, Debug, PartialEq, Eq, Structural)]
pub enum Confirmation {
    Yes,
    No,
    Abort,
}

/// What one gate of the walk decided: go ahead with the action, skip it
/// and continue with the next entry, or tear the whole walk down.
#[derive(Clone, Copy, Debug, PartialEq, Eq, Structural)]
pub enum Decision {
    Proceed,
    Skip,
    Abort,
}

/// One recorded reply to a prompt.
#[derive(Clone, Debug)]
pub enum Reply {
    /// Answer to a three-way confirmation.
    Confirm(Confirmation),
    /// Text entered at a rename prompt.
    Entered(String),
    /// The user abandoned a rename prompt.
    Cancelled,
}

/// Whether a gate running under `mode` must ask the user first.
pub open spec fn spec_must_prompt(mode: Action) -> bool {
    mode is Ask
}

/// What a gate decides under `mode`, given the confirmation `answer`;
/// the answer only matters when the mode says to ask.
pub open spec fn spec_gate_decision(mode: Action, answer: Confirmation) -> Decision {
    match mode {
        Action::Always => Decision::Proceed,
        Action::Never => Decision::Skip,
        Action::Ask => match answer {
            Confirmation::Yes => Decision::Proceed,
            Confirmation::No => Decision::Skip,
            Confirmation::Abort => Decision::Abort,
        },
    }
}

/// The name a rename prompt settles on: what the user entered, or the
/// original name when the entry was left empty, so a final name is never
/// empty when the original was not.
pub open spec fn spec_chosen_name(entered: Seq<char>, original: Seq<char>) -> Seq<char> {
    if entered.len() == 0 {
        original
    } else {
        entered
    }
}

/// A gate running under `mode` must ask the user first exactly when the
/// mode says to ask.
pub fn must_prompt(mode: Action) -> (b: bool)
    ensures
        b == spec_must_prompt(mode),
{
    matches!(mode, Action::Ask)
}

/// Decide one gate from its mode and a confirmation answer. Under
/// `Always` and `Never` the answer is ignored.
pub fn gate_decision(mode: Action, answer: Confirmation) -> (d: Decision)
    ensures
        d == spec_gate_decision(mode, answer),
{
    match mode {
        Action::Always => Decision::Proceed,
        Action::Never => Decision::Skip,
        Action::Ask => match answer {
            Confirmation::Yes => Decision::Proceed,
            Confirmation::No => Decision::Skip,
            Confirmation::Abort => Decision::Abort,
        },
    }
}

/// Settle a rename: the entered text, or the original name when the
/// entered text is empty.
pub fn chosen_name(entered: String, original: &String) -> (name: String)
    ensures
        name@ == spec_chosen_name(entered@, original@),
{
    if entered.as_str().is_empty() {
        original.clone()
    } else {
        entered
    }
}

/// The confirmation the script holds at `pos`: a missing or mismatched
/// reply counts as abort.
pub open spec fn confirm_at(items: Seq<Reply>, pos: int) -> Confirmation {
    if 0 <= pos < items.len() {
        match items[pos] {
            Reply::Confirm(c) => c,
            _ => Confirmation::Abort,
        }
    } else {
        Confirmation::Abort
    }
}

/// The text the script holds at `pos`, or `None` for an abandoned
/// prompt, a mismatched reply, or an exhausted script.
pub open spec fn entered_at(items: Seq<Reply>, pos: int) -> Option<Seq<char>> {
    if 0 <= pos < items.len() {
        match items[pos] {
            Reply::Entered(s) => Some(s@),
            _ => None,
        }
    } else {
        None
    }
}

/// Where the script stands after one reply is consumed at `pos`; an
/// exhausted script stays where it is.
pub open spec fn next_pos(items: Seq<Reply>, pos: int) -> int {
    if 0 <= pos < items.len() {
        pos + 1
    } else {
        pos
    }
}

/// A gate's decision together with the script position after it ran:
/// only a gate whose mode says to ask consumes a reply.
pub open spec fn spec_gate_script(mode: Action, items: Seq<Reply>, pos: int) -> (Decision, int) {
    if spec_must_prompt(mode) {
        (spec_gate_decision(mode, confirm_at(items, pos)), next_pos(items, pos))
    } else {
        (spec_gate_decision(mode, Confirmation::Abort), pos)
    }
}

/// A fixed sequence of prompt replies, consumed front to back.
#[derive(Debug)]
pub struct ReplyScript {
    /// The replies, in the order the prompts will consume them.
    pub items: Vec<Reply>,
    /// How many replies have been consumed.
    pub pos: usize,
}

impl ReplyScript {
    /// A script that starts at its first reply.
    pub fn new(items: Vec<Reply>) -> (s: ReplyScript)
        ensures
            s.items == items,
            s.pos == 0,
    {
        ReplyScript { items, pos: 0 }
    }

    /// Consume one reply as the answer to a confirmation.
    pub fn next_confirmation(&mut self) -> (c: Confirmation)
        ensures
            final(self).items == old(self).items,
            final(self).pos as int == next_pos(old(self).items@, old(self).pos as int),
            c == confirm_at(old(self).items@, old(self).pos as int),
    {
        if self.pos < self.items.len() {
            let c = match self.items[self.pos] {
                Reply::Confirm(c) => c,
                _ => Confirmation::Abort,
            };
            self.pos = self.pos + 1;
            c
        } else {
            Confirmation::Abort
        }
    }

    /// Consume one reply as the answer to a free-text prompt; `None`
    /// stands for the abort signal.
    pub fn next_text(&mut self) -> (t: Option<String>)
        ensures
            final(self).items == old(self).items,
            final(self).pos as int == next_pos(old(self).items@, old(self).pos as int),
            match t {
                Some(s) => entered_at(old(self).items@, old(self).pos as int) == Some(s@),
                None => entered_at(old(self).items@, old(self).pos as int) is None,
            },
    {
        if self.pos < self.items.len() {
            let t = match &self.items[self.pos] {
                Reply::Entered(s) => Some(s.clone()),
                _ => None,
            };
            self.pos = self.pos + 1;
            t
        } else {
            None
        }
    }

    /// Run one gate against the script: prompt only when the mode says
    /// to ask, and decide from the answer.
    pub fn gate(&mut self, mode: Action) -> (d: Decision)
        ensures
            final(self).items == old(self).items,
            (d, final(self).pos as int) == spec_gate_script(
                mode,
                old(self).items@,
                old(self).pos as int,
            ),
    {
        if must_prompt(mode) {
            let c = self.next_confirmation();
            gate_decision(mode, c)
        } else {
            gate_decision(mode, Confirmation::Abort)
        }
    }
}

} // verus!

//! The per-branch review loop as a state machine.
//!
//! The surrounding program reads one byte at a time from standard input and
//! calls [`review_step`] with the current state and the byte (or `None` at
//! end of input). The step returns the next state and, at most, one effect
//! to carry out: print the tip commit's details, print the help text, ask
//! for a deletion confirmation, delete the current branch, report an aborted
//! deletion, or re-prompt after an invalid confirmation answer. All echoing
//! and styling of output belongs to the caller.

use vstd::prelude::*;
use crate::git::HandlerError;

verus! {

/// A single-character command at the per-branch prompt. Any character
/// outside the recognized set means `Help`, never an error.
#[derive(Clone, Copy, Debug, PartialEq, Eq, Structural)]
pub enum Action {
    Show,
    Keep,
    Delete,
    Quit,
    Help,
}

/// A single-character answer to the deletion confirmation. Any character
/// outside the recognized set means `Invalid`, never an error.
#[derive(Clone, Copy, Debug, PartialEq, Eq, Structural)]
pub enum Validate {
    Accept,
    Refuse,
    Invalid,
}

impl Action {
    /// The command selected by one character: `s`, `k`, `d` and `q` are the
    /// four letter commands, and everything else shows the help.
    pub open spec fn of_char(c: char) -> Action {
        if c == 'k' {
            Action::Keep
        } else if c == 'q' {
            Action::Quit
        } else if c == 's' {
            Action::Show
        } else if c == 'd' {
            Action::Delete
        } else {
            Action::Help
        }
    }

    /// Map a command character to its action; never fails.
    pub fn try_from(value: char) -> (r: Result<Action, HandlerError>)
        ensures
            r matches Ok(a) && a == Action::of_char(value),
    {
        match value {
            'k' => Ok(Action::Keep),
            'q' => Ok(Action::Quit),
            's' => Ok(Action::Show),
            'd' => Ok(Action::Delete),
            _ => Ok(Action::Help),
        }
    }
}

impl Validate {
    /// The answer selected by one character: `y` accepts, `n` refuses, and
    /// everything else is invalid and asks again.
    pub open spec fn of_char(c: char) -> Validate {
        if c == 'y' {
            Validate::Accept
        } else if c == 'n' {
            Validate::Refuse
        } else {
            Validate::Invalid
        }
    }

    /// Map a confirmation character to its meaning; never fails.
    pub fn try_from(value: char) -> (r: Result<Validate, HandlerError>)
        ensures
            r matches Ok(v) && v == Validate::of_char(value),
    {
        match value {
            'y' => Ok(Validate::Accept),
            'n' => Ok(Validate::Refuse),
            _ => Ok(Validate::Invalid),
        }
    }
}

/// Where the review loop stands: at the command prompt of the branch at
/// `index`, at the deletion confirmation of that branch, or finished.
#[derive(Clone, Copy, Debug, PartialEq, Eq, Structural)]
pub enum ReviewState {
    AwaitCommand { index: usize },
    AwaitConfirmation { index: usize },
    Done,
}

/// What the caller is asked to do after a step, beside echoing the input:
/// at most one of these per step.
#[derive(Clone, Copy, Debug, PartialEq, Eq, Structural)]
pub enum Effect {
    /// Print the tip commit's id and message of the current branch.
    ShowDetails,
    /// Print the static list of the five one-letter commands.
    ShowHelp,
    /// Print the deletion confirmation prompt for the current branch.
    AskConfirm,
    /// Delete the branch at `index` from the repository, exactly once; a
    /// failure of the deletion call is fatal to the whole program.
    DeleteBranch { index: usize },
    /// Report that the deletion was aborted.
    ReportAborted,
    /// Report that a confirmation answer must be `y` or `n`.
    ReportInvalid,
}

/// A state is meaningful for a snapshot of `len` branches when its branch
/// index lies inside the snapshot.
pub open spec fn state_valid(s: ReviewState, len: usize) -> bool {
    match s {
        ReviewState::AwaitCommand { index } => index < len,
        ReviewState::AwaitConfirmation { index } => index < len,
        ReviewState::Done => true,
    }
}

/// The state after leaving the branch at `index`: the command prompt of the
/// next branch, or `Done` past the last one.
pub open spec fn spec_advance(index: usize, len: usize) -> ReviewState {
    if index + 1 < len {
        ReviewState::AwaitCommand { index: (index + 1) as usize }
    } else {
        ReviewState::Done
    }
}

/// The transition relation of the review loop. End of input (`None`) at the
/// command prompt ends the loop like `Quit`; end of input at a confirmation
/// abandons the deletion and moves to the next branch.
pub open spec fn spec_step(s: ReviewState, len: usize, input: Option<char>) -> (ReviewState, Option<
    Effect,
>) {
    match s {
        ReviewState::Done => (ReviewState::Done, Option::<Effect>::None),
        ReviewState::AwaitCommand { index } => match input {
            Option::None => (ReviewState::Done, Option::<Effect>::None),
            Option::Some(c) => match Action::of_char(c) {
                Action::Quit => (ReviewState::Done, Option::<Effect>::None),
                Action::Show => (s, Option::Some(Effect::ShowDetails)),
                Action::Keep => (spec_advance(index, len), Option::<Effect>::None),
                Action::Delete => (
                    ReviewState::AwaitConfirmation { index },
                    Option::Some(Effect::AskConfirm),
                ),
                Action::Help => (s, Option::Some(Effect::ShowHelp)),
            },
        },
        ReviewState::AwaitConfirmation { index } => match input {
            Option::None => (spec_advance(index, len), Option::<Effect>::None),
            Option::Some(c) => match Validate::of_char(c) {
                Validate::Accept => (
                    spec_advance(index, len),
                    Option::Some(Effect::DeleteBranch { index }),
                ),
                Validate::Refuse => (spec_advance(index, len), Option::Some(Effect::ReportAborted)),
                Validate::Invalid => (s, Option::Some(Effect::ReportInvalid)),
            },
        },
    }
}

/// One step of the review loop: exactly the transition relation.
pub fn review_step(state: ReviewState, len: usize, input: Option<char>) -> (r: (
    ReviewState,
    Option<Effect>,
))
    requires
        state_valid(state, len),
    ensures
        r == spec_step(state, len, input),
        state_valid(r.0, len),
{
    match state {
        ReviewState::Done => (ReviewState::Done, None),
        ReviewState::AwaitCommand { index } => match input {
            None => (ReviewState::Done, None),
            Some(c) => {
                let action = match Action::try_from(c) {
                    Ok(a) => a,
                    Err(_) => Action::Help,
                };
                match action {
                    Action::Quit => (ReviewState::Done, None),
                    Action::Show => (state, Some(Effect::ShowDetails)),
                    Action::Keep => (advance(index, len), None),
                    Action::Delete => (
                        ReviewState::AwaitConfirmation { index },
                        Some(Effect::AskConfirm),
                    ),
                    Action::Help => (state, Some(Effect::ShowHelp)),
                }
            },
        },
        ReviewState::AwaitConfirmation { index } => match input {
            None => (advance(index, len), None),
            Some(c) => {
                let validation = match Validate::try_from(c) {
                    Ok(v) => v,
                    Err(_) => Validate::Invalid,
                };
                match validation {
                    Validate::Accept => (advance(index, len), Some(Effect::DeleteBranch { index })),
                    Validate::Refuse => (advance(index, len), Some(Effect::ReportAborted)),
                    Validate::Invalid => (state, Some(Effect::ReportInvalid)),
                }
            },
        },
    }
}

/// Leave the branch at `index`: the next branch's prompt, or `Done`.
fn advance(index: usize, len: usize) -> (r: ReviewState)
    requires
        index < len,
    ensures
        r == spec_advance(index, len),
{
    if index + 1 < len {
        ReviewState::AwaitCommand { index: index + 1 }
    } else {
        ReviewState::Done
    }
}

/// The state the loop starts in: the first branch's prompt, or `Done` for
/// an empty snapshot.
pub open spec fn spec_initial(len: usize) -> ReviewState {
    if len == 0 {
        ReviewState::Done
    } else {
        ReviewState::AwaitCommand { index: 0 }
    }
}

/// The effect of one step, as a sequence of length zero or one.
pub open spec fn effect_seq(e: Option<Effect>) -> Seq<Effect> {
    match e {
        Option::Some(x) => seq![x],
        Option::None => Seq::empty(),
    }
}

/// The effects of running the loop from `s` over the given input
/// characters, in order; the inputs after a terminated loop are ignored,
/// and steps at or after end of input emit no effect.
pub open spec fn spec_run_effects(s: ReviewState, len: usize, inputs: Seq<char>) -> Seq<Effect>
    decreases inputs.len(),
{
    if s is Done || inputs.len() == 0 {
        Seq::empty()
    } else {
        let (s2, e) = spec_step(s, len, Option::Some(inputs[0]));
        effect_seq(e) + spec_run_effects(s2, len, inputs.drop_first())
    }
}

/// The branch the state stands at, with `Done` counted past the end.
pub open spec fn state_index(s: ReviewState, len: usize) -> int {
    match s {
        ReviewState::AwaitCommand { index } => index as int,
        ReviewState::AwaitConfirmation { index } => index as int,
        ReviewState::Done => len as int,
    }
}

/// How often the effects ask for the deletion of the branch at `target`.
pub open spec fn delete_count(es: Seq<Effect>, target: usize) -> nat
    decreases es.len(),
{
    if es.len() == 0 {
        0
    } else {
        (if es[0] == (Effect::DeleteBranch { index: target }) {
            1nat
        } else {
            0nat
        }) + delete_count(es.drop_first(), target)
    }
}

/// Law: any command character outside `s`, `k`, `d` and `q` selects the
/// Help action at the command prompt — never an error: the loop stays on
/// the same branch and only shows the help.
pub proof fn lemma_unknown_command_shows_help(s: ReviewState, len: usize, c: char)
    requires
        s matches ReviewState::AwaitCommand { .. },
        state_valid(s, len),
        c != 's' && c != 'k' && c != 'd' && c != 'q',
    ensures
        Action::of_char(c) is Help,
        spec_step(s, len, Option::Some(c)) == (s, Option::Some(Effect::ShowHelp)),
{
}

/// Law: any confirmation character outside `y` and `n` re-enters the
/// confirmation of the same branch, asking again, with no other effect.
pub proof fn lemma_invalid_confirmation_reprompts(s: ReviewState, len: usize, c: char)
    requires
        s matches ReviewState::AwaitConfirmation { .. },
        state_valid(s, len),
        c != 'y' && c != 'n',
    ensures
        Validate::of_char(c) is Invalid,
        spec_step(s, len, Option::Some(c)) == (s, Option::Some(Effect::ReportInvalid)),
{
}

/// Law: refusing a deletion with `n` never asks for the deletion: the step
/// reports the abort and advances to the next branch.
pub proof fn lemma_refusal_never_deletes(s: ReviewState, len: usize)
    requires
        s matches ReviewState::AwaitConfirmation { .. },
        state_valid(s, len),
    ensures
        spec_step(s, len, Option::Some('n')) == (
            spec_advance(s->AwaitConfirmation_index, len),
            Option::Some(Effect::ReportAborted),
        ),
{
}

/// Law: accepting a deletion with `y` asks for the deletion of the current
/// branch, exactly once in the step, and advances to the next branch.
pub proof fn lemma_accept_deletes_and_advances(s: ReviewState, len: usize)
    requires
        s matches ReviewState::AwaitConfirmation { .. },
        state_valid(s, len),
    ensures
        spec_step(s, len, Option::Some('y')) == (
            spec_advance(s->AwaitConfirmation_index, len),
            Option::Some(Effect::DeleteBranch { index: s->AwaitConfirmation_index }),
        ),
{
}

/// Law: a deletion effect arises only from the confirmation of that very
/// branch, on an accepting `y`, and the step then advances past the branch.
pub proof fn lemma_delete_only_on_accept(
    s: ReviewState,
    len: usize,
    input: Option<char>,
    target: usize,
)
    requires
        state_valid(s, len),
    ensures
        spec_step(s, len, input).1 == Option::Some(Effect::DeleteBranch { index: target }) ==> {
            &&& s == (ReviewState::AwaitConfirmation { index: target })
            &&& input == Option::Some('y')
            &&& spec_step(s, len, input).0 == spec_advance(target, len)
        },
{
}

/// A step never moves back to an earlier branch, and stays meaningful.
proof fn lemma_step_monotone(s: ReviewState, len: usize, input: Option<char>)
    requires
        state_valid(s, len),
    ensures
        state_valid(spec_step(s, len, input).0, len),
        state_index(spec_step(s, len, input).0, len) >= state_index(s, len),
{
}

/// Law: over a whole run of the loop, the deletion of a given branch is
/// asked for at most once; and never once the loop has moved past it.
pub proof fn lemma_run_deletes_at_most_once(
    s: ReviewState,
    len: usize,
    inputs: Seq<char>,
    target: usize,
)
    requires
        state_valid(s, len),
    ensures
        delete_count(spec_run_effects(s, len, inputs), target) <= 1,
        state_index(s, len) > target ==> delete_count(spec_run_effects(s, len, inputs), target)
            == 0,
    decreases inputs.len(),
{
    if s is Done || inputs.len() == 0 {
        // the run is empty and asks for nothing
    } else {
        let c = inputs[0];
        let s2 = spec_step(s, len, Option::Some(c)).0;
        let e = spec_step(s, len, Option::Some(c)).1;
        let rest = spec_run_effects(s2, len, inputs.drop_first());
        lemma_step_monotone(s, len, Option::Some(c));
        lemma_run_deletes_at_most_once(s2, len, inputs.drop_first(), target);
        match e {
            Option::None => {
                assert(Seq::<Effect>::empty() + rest =~= rest);
            },
            Option::Some(x) => {
                let all = seq![x] + rest;
                assert(spec_run_effects(s, len, inputs) == all);
                assert(all[0] == x);
                assert(all.drop_first() =~= rest);
                assert(delete_count(all, target) == (if x == (Effect::DeleteBranch {
                    index: target,
                }) {
                    1nat
                } else {
                    0nat
                }) + delete_count(rest, target));
                if x == (Effect::DeleteBranch { index: target }) {
                    lemma_delete_only_on_accept(s, len, Option::Some(c), target);
                    assert(state_index(s2, len) > target);
                }
            },
        }
    }
}

/// Run the whole review loop over a finite input stream: feed the
/// characters in order, then end of input. The collected effects are those
/// of the transition relation, and the loop always terminates.
pub fn run_review(len: usize, inputs: &Vec<char>) -> (r: (Vec<Effect>, ReviewState))
    ensures
        r.0@ == spec_run_effects(spec_initial(len), len, inputs@),
        r.1 is Done,
{
    let mut state = if len == 0 {
        ReviewState::Done
    } else {
        ReviewState::AwaitCommand { index: 0 }
    };
    let mut effects: Vec<Effect> = Vec::new();
    let mut i: usize = 0;
    proof {
        assert(state == spec_initial(len));
        assert(inputs@.skip(0) =~= inputs@);
        assert(Seq::<Effect>::empty() + spec_run_effects(state, len, inputs@) =~= spec_run_effects(
            state,
            len,
            inputs@,
        ));
    }
    while i < inputs.len()
        invariant
            i <= inputs@.len(),
            state_valid(state, len),
            effects@ + spec_run_effects(state, len, inputs@.skip(i as int)) == spec_run_effects(
                spec_initial(len),
                len,
                inputs@,
            ),
        decreases inputs@.len() - i,
    {
        let c = inputs[i];
        let ghost pre = state;
        let (s2, e) = review_step(state, len, Some(c));
        state = s2;
        proof {
            assert(inputs@.skip(i as int)[0] == c);
            assert(inputs@.skip(i as int).drop_first() =~= inputs@.skip(i as int + 1));
            if !(pre is Done) {
                assert(spec_run_effects(pre, len, inputs@.skip(i as int)) == effect_seq(
                    spec_step(pre, len, Option::Some(c)).1,
                ) + spec_run_effects(state, len, inputs@.skip(i as int + 1)));
            } else {
                assert(spec_run_effects(state, len, inputs@.skip(i as int + 1)) == Seq::<
                    Effect,
                >::empty());
            }
        }
        match e {
            Some(x) => {
                let ghost old_effects = effects@;
                effects.push(x);
                proof {
                    assert(old_effects + (seq![x] + spec_run_effects(
                        state,
                        len,
                        inputs@.skip(i as int + 1),
                    )) =~= old_effects.push(x) + spec_run_effects(
                        state,
                        len,
                        inputs@.skip(i as int + 1),
                    ));
                }
            },
            None => {
                proof {
                    assert(Seq::<Effect>::empty() + spec_run_effects(
                        state,
                        len,
                        inputs@.skip(i as int + 1),
                    ) =~= spec_run_effects(state, len, inputs@.skip(i as int + 1)));
                }
            },
        }
        i = i + 1;
    }
    proof {
        assert(inputs@.skip(i as int) =~= Seq::<char>::empty());
        assert(effects@ + Seq::<Effect>::empty() =~= effects@);
    }
    let (s2, _) = review_step(state, len, None);
    let (s3, _) = review_step(s2, len, None);
    (effects, s3)
}

} // verus!

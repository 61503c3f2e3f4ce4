use branch_review::git::HandlerError;
use branch_review::review::run_review;
use branch_review::review::review_step;
use branch_review::review::Action;
use branch_review::review::Effect;
use branch_review::review::ReviewState;
use branch_review::review::Validate;

#[test]
fn action_letters_map_to_commands() {
    assert_eq!(Action::try_from('s'), Ok::<Action, HandlerError>(Action::Show));
    assert_eq!(Action::try_from('k'), Ok::<Action, HandlerError>(Action::Keep));
    assert_eq!(Action::try_from('d'), Ok::<Action, HandlerError>(Action::Delete));
    assert_eq!(Action::try_from('q'), Ok::<Action, HandlerError>(Action::Quit));
}

#[test]
fn unknown_command_characters_mean_help() {
    for c in ['x', '?', ' ', 'S', 'K', 'D', 'Q', '7', '\n'] {
        assert_eq!(Action::try_from(c), Ok::<Action, HandlerError>(Action::Help));
    }
}

#[test]
fn confirmation_letters_map_to_answers() {
    assert_eq!(Validate::try_from('y'), Ok::<Validate, HandlerError>(Validate::Accept));
    assert_eq!(Validate::try_from('n'), Ok::<Validate, HandlerError>(Validate::Refuse));
}

#[test]
fn unknown_confirmation_characters_are_invalid() {
    for c in ['x', 'Y', 'N', ' ', 'q', '\r'] {
        assert_eq!(Validate::try_from(c), Ok::<Validate, HandlerError>(Validate::Invalid));
    }
}

#[test]
fn show_stays_on_the_same_branch() {
    let s = ReviewState::AwaitCommand { index: 0 };
    let (next, effect) = review_step(s, 1, Some('s'));
    assert_eq!(next, ReviewState::AwaitCommand { index: 0 });
    assert_eq!(effect, Some(Effect::ShowDetails));
}

#[test]
fn keep_advances_to_the_next_branch() {
    let s = ReviewState::AwaitCommand { index: 0 };
    let (next, effect) = review_step(s, 2, Some('k'));
    assert_eq!(next, ReviewState::AwaitCommand { index: 1 });
    assert_eq!(effect, None);
}

#[test]
fn keep_on_the_last_branch_ends_the_loop() {
    let s = ReviewState::AwaitCommand { index: 1 };
    let (next, effect) = review_step(s, 2, Some('k'));
    assert_eq!(next, ReviewState::Done);
    assert_eq!(effect, None);
}

#[test]
fn quit_ends_the_loop_at_once() {
    let s = ReviewState::AwaitCommand { index: 0 };
    let (next, effect) = review_step(s, 5, Some('q'));
    assert_eq!(next, ReviewState::Done);
    assert_eq!(effect, None);
}

#[test]
fn delete_enters_the_confirmation() {
    let s = ReviewState::AwaitCommand { index: 2 };
    let (next, effect) = review_step(s, 5, Some('d'));
    assert_eq!(next, ReviewState::AwaitConfirmation { index: 2 });
    assert_eq!(effect, Some(Effect::AskConfirm));
}

#[test]
fn unknown_command_shows_help_and_stays() {
    let s = ReviewState::AwaitCommand { index: 0 };
    let (next, effect) = review_step(s, 1, Some('z'));
    assert_eq!(next, s);
    assert_eq!(effect, Some(Effect::ShowHelp));
}

#[test]
fn invalid_confirmation_reprompts_same_branch() {
    let s = ReviewState::AwaitConfirmation { index: 0 };
    let (next, effect) = review_step(s, 2, Some('x'));
    assert_eq!(next, ReviewState::AwaitConfirmation { index: 0 });
    assert_eq!(effect, Some(Effect::ReportInvalid));
}

#[test]
fn refusal_aborts_without_deleting_and_advances() {
    let s = ReviewState::AwaitConfirmation { index: 0 };
    let (next, effect) = review_step(s, 2, Some('n'));
    assert_eq!(next, ReviewState::AwaitCommand { index: 1 });
    assert_eq!(effect, Some(Effect::ReportAborted));
    assert!(!matches!(effect, Some(Effect::DeleteBranch { .. })));
}

#[test]
fn acceptance_deletes_the_branch_and_advances() {
    let s = ReviewState::AwaitConfirmation { index: 0 };
    let (next, effect) = review_step(s, 2, Some('y'));
    assert_eq!(next, ReviewState::AwaitCommand { index: 1 });
    assert_eq!(effect, Some(Effect::DeleteBranch { index: 0 }));
}

#[test]
fn end_of_input_at_the_prompt_ends_the_loop() {
    let s = ReviewState::AwaitCommand { index: 0 };
    let (next, effect) = review_step(s, 3, None);
    assert_eq!(next, ReviewState::Done);
    assert_eq!(effect, None);
}

#[test]
fn end_of_input_at_a_confirmation_abandons_the_deletion() {
    let s = ReviewState::AwaitConfirmation { index: 0 };
    let (next, effect) = review_step(s, 2, None);
    assert_eq!(next, ReviewState::AwaitCommand { index: 1 });
    assert_eq!(effect, None);
}

#[test]
fn keep_then_confirmed_delete_then_quit() {
    // Two branches: the first is kept, the second deleted after an accepted
    // confirmation; the trailing quit falls past the end of the snapshot.
    let inputs = vec!['k', 'd', 'y', 'q'];
    let (effects, last) = run_review(2, &inputs);
    assert_eq!(effects, vec![Effect::AskConfirm, Effect::DeleteBranch { index: 1 }]);
    assert_eq!(last, ReviewState::Done);
}

#[test]
fn show_then_keep_on_a_single_branch() {
    let inputs = vec!['s', 'k'];
    let (effects, last) = run_review(1, &inputs);
    assert_eq!(effects, vec![Effect::ShowDetails]);
    assert_eq!(last, ReviewState::Done);
}

#[test]
fn empty_input_terminates_at_once_with_no_effect() {
    let inputs: Vec<char> = vec![];
    let (effects, last) = run_review(3, &inputs);
    assert_eq!(effects, Vec::<Effect>::new());
    assert_eq!(last, ReviewState::Done);
}

#[test]
fn invalid_then_refused_confirmation_advances() {
    let inputs = vec!['d', 'x', 'n'];
    let (effects, last) = run_review(2, &inputs);
    assert_eq!(
        effects,
        vec![Effect::AskConfirm, Effect::ReportInvalid, Effect::ReportAborted]
    );
    assert_eq!(last, ReviewState::Done);
}

#[test]
fn a_branch_is_deleted_at_most_once_per_run() {
    // After the accepted deletion of the only branch the loop is done and
    // the repeated request is ignored.
    let inputs = vec!['d', 'y', 'd', 'y'];
    let (effects, last) = run_review(1, &inputs);
    assert_eq!(effects, vec![Effect::AskConfirm, Effect::DeleteBranch { index: 0 }]);
    assert_eq!(last, ReviewState::Done);
}

#[test]
fn empty_snapshot_ignores_all_input() {
    let inputs = vec!['d', 'y', 's'];
    let (effects, last) = run_review(0, &inputs);
    assert_eq!(effects, Vec::<Effect>::new());
    assert_eq!(last, ReviewState::Done);
}

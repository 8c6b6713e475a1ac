use quiz_browser::error::Error;
use quiz_browser::ui::{handle_input, initial_state, render_selection, wants_exit, BrowserInput,
    UIState};

#[test]
fn browser_starts_on_the_first_module() {
    assert_eq!(initial_state(), UIState::ModuleBrowser { selected_item: 0 });
}

#[test]
fn up_at_the_top_changes_nothing() {
    let (next, redraw) = handle_input(initial_state(), 5, BrowserInput::Up);
    assert_eq!(next, UIState::ModuleBrowser { selected_item: 0 });
    assert!(!redraw);
}

#[test]
fn down_at_the_bottom_changes_nothing() {
    let start = UIState::ModuleBrowser { selected_item: 4 };
    let (next, redraw) = handle_input(start, 5, BrowserInput::Down);
    assert_eq!(next, UIState::ModuleBrowser { selected_item: 4 });
    assert!(!redraw);
}

#[test]
fn down_then_up_returns_with_two_redraws() {
    let start = UIState::ModuleBrowser { selected_item: 2 };
    let (mid, redraw1) = handle_input(start, 5, BrowserInput::Down);
    assert_eq!(mid, UIState::ModuleBrowser { selected_item: 3 });
    assert!(redraw1);
    let (back, redraw2) = handle_input(mid, 5, BrowserInput::Up);
    assert_eq!(back, UIState::ModuleBrowser { selected_item: 2 });
    assert!(redraw2);
}

#[test]
fn no_modules_means_no_movement() {
    let (after_down, redraw_down) = handle_input(initial_state(), 0, BrowserInput::Down);
    assert_eq!(after_down, UIState::ModuleBrowser { selected_item: 0 });
    assert!(!redraw_down);
    let (after_up, redraw_up) = handle_input(initial_state(), 0, BrowserInput::Up);
    assert_eq!(after_up, UIState::ModuleBrowser { selected_item: 0 });
    assert!(!redraw_up);
}

#[test]
fn irrelevant_inputs_change_nothing() {
    let start = UIState::ModuleBrowser { selected_item: 2 };
    let (next, redraw) = handle_input(start, 5, BrowserInput::Irrelevant);
    assert_eq!(next, start);
    assert!(!redraw);
}

#[test]
fn quit_is_the_only_exit_input() {
    assert!(wants_exit(BrowserInput::Quit));
    assert!(!wants_exit(BrowserInput::Up));
    assert!(!wants_exit(BrowserInput::Down));
    assert!(!wants_exit(BrowserInput::Irrelevant));
}

#[test]
fn module_browser_renders_its_selection() {
    let r = render_selection(&UIState::ModuleBrowser { selected_item: 3 });
    assert!(matches!(r, Ok(3)));
}

#[test]
fn placeholder_views_are_unrecognized_states() {
    assert!(matches!(render_selection(&UIState::QuizSetup), Err(Error::UnrecognizedState)));
    assert!(matches!(render_selection(&UIState::QuizScore), Err(Error::UnrecognizedState)));
    assert!(matches!(render_selection(&UIState::Quiz), Err(Error::UnrecognizedState)));
}

#[test]
fn error_messages_describe_their_kind() {
    assert_eq!(Error::UnrecognizedState.message(), "unrecognised state");
    let e = Error::MalformedVersion { detail: "1.2".to_string() };
    assert_eq!(e.message(), "malformed version: 1.2");
    let io = Error::IOFailure { detail: "no such directory".to_string() };
    assert_eq!(io.message(), "input failure: no such directory");
    let doc = Error::MalformedDocument { detail: "broken".to_string() };
    assert_eq!(doc.message(), "malformed document: broken");
}

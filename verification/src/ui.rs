use vstd::prelude::*;
use crate::error::Error;

verus! {

/// The views the browser can be in. Only the module browser is implemented;
/// the quiz views are placeholder tags with no renderer yet, and reaching
/// one is a fatal condition.
#[derive(Debug, Clone, Copy, PartialEq, Eq, Structural)]
pub enum UIState {
    ModuleBrowser { selected_item: u16 },
    QuizSetup,
    QuizScore,
    Quiz,
}

/// The inputs the browser reacts to. Everything else a terminal can send —
/// focus changes, resizes, pastes, mouse movement, other keys — is
/// `Irrelevant` and changes nothing.
#[derive(Debug, Clone, Copy, PartialEq, Eq, Structural)]
pub enum BrowserInput {
    Up,
    Down,
    Quit,
    Irrelevant,
}

/// The largest selectable index for `count` modules, clamped to what the
/// selection field can hold; 0 when there is nothing to select.
pub open spec fn spec_limit(count: int) -> int {
    if count <= 0 {
        0
    } else if count - 1 < u16::MAX {
        count - 1
    } else {
        u16::MAX as int
    }
}

/// One browser transition. `Down` moves the selection toward the last
/// module and `Up` toward the first, both saturating at the edges; the flag
/// says whether the selection actually changed, which is exactly what
/// forces a redraw. `Quit` and irrelevant inputs change nothing, and the
/// placeholder views react to nothing.
pub open spec fn spec_step(s: UIState, count: int, input: BrowserInput) -> (UIState, bool) {
    match s {
        UIState::ModuleBrowser { selected_item } => {
            let sel = selected_item as int;
            match input {
                BrowserInput::Down => {
                    let ns = if sel + 1 <= spec_limit(count) {
                        sel + 1
                    } else {
                        spec_limit(count)
                    };
                    (UIState::ModuleBrowser { selected_item: ns as u16 }, ns != sel)
                },
                BrowserInput::Up => {
                    let ns = if sel >= 1 {
                        sel - 1
                    } else {
                        0
                    };
                    (UIState::ModuleBrowser { selected_item: ns as u16 }, ns != sel)
                },
                _ => (s, false),
            }
        },
        _ => (s, false),
    }
}

/// The state the browser starts in: the module browser with the first
/// module selected.
pub fn initial_state() -> (r: UIState)
    ensures
        r == (UIState::ModuleBrowser { selected_item: 0u16 }),
{
    UIState::ModuleBrowser { selected_item: 0 }
}

/// Apply one input to the browser state over `module_count` modules,
/// returning the next state and whether a redraw is due.
pub fn handle_input(state: UIState, module_count: usize, input: BrowserInput) -> (r: (
    UIState,
    bool,
))
    ensures
        r == spec_step(state, module_count as int, input),
{
    match state {
        UIState::ModuleBrowser { selected_item } => {
            match input {
                BrowserInput::Down => {
                    let limit: u16 = if module_count == 0 {
                        0
                    } else if module_count - 1 < u16::MAX as usize {
                        (module_count - 1) as u16
                    } else {
                        u16::MAX
                    };
                    let ns: u16 = if selected_item < limit {
                        selected_item + 1
                    } else {
                        limit
                    };
                    (UIState::ModuleBrowser { selected_item: ns }, ns != selected_item)
                },
                BrowserInput::Up => {
                    let ns: u16 = if selected_item >= 1 {
                        selected_item - 1
                    } else {
                        0
                    };
                    (UIState::ModuleBrowser { selected_item: ns }, ns != selected_item)
                },
                _ => (state, false),
            }
        },
        _ => (state, false),
    }
}

/// Whether this input ends the browser loop.
pub fn wants_exit(input: BrowserInput) -> (r: bool)
    ensures
        r == (input is Quit),
{
    input == BrowserInput::Quit
}

/// The renderer decision: only the module browser view has a renderer, and
/// it draws the selected index; any other view is the fatal unrecognized
/// state.
pub fn render_selection(state: &UIState) -> (r: Result<u16, Error>)
    ensures
        match r {
            Ok(sel) => *state == (UIState::ModuleBrowser { selected_item: sel }),
            Err(e) => !(*state is ModuleBrowser) && e is UnrecognizedState,
        },
{
    match state {
        UIState::ModuleBrowser { selected_item } => Ok(*selected_item),
        _ => Err(Error::UnrecognizedState),
    }
}

/// A selection within range stays within range, whatever input arrives.
pub proof fn lemma_selection_stays_in_range(s: UIState, count: int, input: BrowserInput)
    requires
        s matches UIState::ModuleBrowser { selected_item } ==> selected_item as int <= spec_limit(
            count,
        ),
    ensures
        spec_step(s, count, input).0 matches UIState::ModuleBrowser { selected_item: ns }
            ==> ns as int <= spec_limit(count),
{
}

/// Away from the edges, moving down and back up returns the selection to
/// where it started, and each of the two moves forces its own redraw.
pub proof fn lemma_down_up_round_trip(sel: u16, count: int)
    requires
        sel as int + 1 <= spec_limit(count),
    ensures
        ({
            let s0 = UIState::ModuleBrowser { selected_item: sel };
            let (s1, redraw1) = spec_step(s0, count, BrowserInput::Down);
            let (s2, redraw2) = spec_step(s1, count, BrowserInput::Up);
            s2 == s0 && redraw1 && redraw2
        }),
{
}

} // verus!

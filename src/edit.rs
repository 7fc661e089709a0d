use vstd::prelude::*;
use crate::grid::{
    cell, index_of, next_generation, update_life, GameMap, CELLS, HEIGHT, WIDTH,
};

verus! {

/// Side of a cell on screen, in pixels.
pub const CELL_SIZE: usize = 10;

/// The interaction state: the cell under the pointer, whether the pointer
/// button is held, and whether the editing mode (automaton frozen, cells
/// toggled by the pointer) is on.
#[derive(PartialEq, Eq, Structural, Clone, Copy, Debug, Default)]
pub struct AppState {
    pub x: usize,
    pub y: usize,
    pub down: bool,
    pub editing: bool,
}

impl AppState {
    /// The pointer stands on a cell of the grid.
    pub open spec fn wf(&self) -> bool {
        self.x < WIDTH && self.y < HEIGHT
    }
}

/// An input event, as far as the interaction cares about it.
#[derive(PartialEq, Eq, Structural, Clone, Copy, Debug)]
pub enum Input {
    /// The pointer moved to the pixel at column `px`, row `py` (whole pixels,
    /// rounded down; a position left of or above the window counts as 0).
    CursorMoved { px: usize, py: usize },
    /// The key that switches the editing mode was pressed or released.
    EditKey { pressed: bool },
    /// The pointer button was pressed or released.
    PointerButton { pressed: bool },
    /// Any other event.
    Other,
}

/// The state an input leads to, or `None` for an input that changes nothing.
pub open spec fn state_after_input(app: AppState, inp: Input) -> Option<AppState> {
    match inp {
        Input::CursorMoved { px, py } => Some(
            AppState {
                x: ((px / CELL_SIZE) % WIDTH) as usize,
                y: ((py / CELL_SIZE) % HEIGHT) as usize,
                ..app
            },
        ),
        Input::EditKey { pressed } => if pressed {
            Some(AppState { editing: !app.editing, ..app })
        } else {
            None
        },
        Input::PointerButton { pressed } => Some(AppState { down: pressed, ..app }),
        Input::Other => None,
    }
}

/// Maps an input to the new interaction state: a pointer move selects the
/// cell under it (wrapping at the grid's edges), a press of the edit key
/// switches the mode, the pointer button sets `down`; `None` otherwise.
pub fn get_new_state_from_input(app: AppState, inp: Input) -> (r: Option<AppState>)
    ensures
        r == state_after_input(app, inp),
        app.wf() ==> (r matches Some(s) ==> s.wf()),
{
    match inp {
        Input::CursorMoved { px, py } => Some(
            AppState { x: (px / CELL_SIZE) % WIDTH, y: (py / CELL_SIZE) % HEIGHT, ..app },
        ),
        Input::EditKey { pressed } => {
            if pressed {
                Some(AppState { editing: !app.editing, ..app })
            } else {
                None
            }
        },
        Input::PointerButton { pressed } => Some(AppState { down: pressed, ..app }),
        Input::Other => None,
    }
}

/// `g` with the cell at `(x, y)` flipped.
pub open spec fn toggled(g: Seq<bool>, x: int, y: int) -> Seq<bool> {
    g.update(index_of(x, y), !cell(g, x, y))
}

/// Flips the cell under the pointer when the button is held; leaves `map`
/// as it is otherwise.
pub fn edit_life(map: &mut GameMap, state: AppState)
    requires
        old(map).wf(),
        state.wf(),
    ensures
        final(map)@ == if state.down {
            toggled(old(map)@, state.x as int, state.y as int)
        } else {
            old(map)@
        },
{
    if state.down {
        let alive = map.get((state.x, state.y));
        map.set((state.x, state.y), !alive);
    }
}

/// The state after an input: the new one, or the old one where the input
/// changes nothing.
pub open spec fn input_state(app: AppState, inp: Input) -> AppState {
    match state_after_input(app, inp) {
        Some(s) => s,
        None => app,
    }
}

/// The grid after an input: in editing mode, the press of the pointer button
/// (held before: no; after: yes) flips the cell under the pointer; nothing
/// else changes the grid.
pub open spec fn input_grid(g: Seq<bool>, app: AppState, inp: Input) -> Seq<bool> {
    let s = input_state(app, inp);
    if app.editing && !app.down && s.down {
        toggled(g, s.x as int, s.y as int)
    } else {
        g
    }
}

/// The grid after a frame: one generation on, unless editing freezes it.
pub open spec fn frame_grid(g: Seq<bool>, app: AppState) -> Seq<bool> {
    if app.editing {
        g
    } else {
        next_generation(g)
    }
}

/// Handles one input event: returns the new interaction state and, on a
/// press of the pointer button in editing mode, flips the cell under the
/// pointer once.
pub fn handle_input(map: &mut GameMap, state: AppState, inp: Input) -> (r: AppState)
    requires
        old(map).wf(),
        state.wf(),
    ensures
        r == input_state(state, inp),
        r.wf(),
        final(map)@ == input_grid(old(map)@, state, inp),
{
    match get_new_state_from_input(state, inp) {
        Some(new_state) => {
            if state.editing && !state.down && new_state.down {
                edit_life(map, new_state);
            }
            new_state
        },
        None => state,
    }
}

/// Handles one frame: advances `map` by one generation, through
/// `scratchpad`, unless editing freezes the automaton.
pub fn advance_frame(map: &mut GameMap, scratchpad: &mut GameMap, state: AppState)
    requires
        old(map).wf(),
        old(scratchpad).wf(),
    ensures
        final(map)@ == frame_grid(old(map)@, state),
        final(scratchpad)@ == if state.editing {
            old(scratchpad)@
        } else {
            old(map)@
        },
{
    if !state.editing {
        update_life(map, scratchpad);
    }
}

/// The grid after `n` frames in the interaction state `app`.
pub open spec fn run_frames(g: Seq<bool>, app: AppState, n: nat) -> Seq<bool>
    decreases n,
{
    if n == 0 {
        g
    } else {
        frame_grid(run_frames(g, app, (n - 1) as nat), app)
    }
}

/// The grid and state after the inputs `inps`, one after the other.
pub open spec fn run_inputs(g: Seq<bool>, app: AppState, inps: Seq<Input>) -> (Seq<bool>, AppState)
    decreases inps.len(),
{
    if inps.len() == 0 {
        (g, app)
    } else {
        let (g1, s1) = run_inputs(g, app, inps.drop_last());
        (input_grid(g1, s1, inps.last()), input_state(s1, inps.last()))
    }
}

proof fn lemma_frames_frozen(g: Seq<bool>, app: AppState, n: nat)
    requires
        app.editing,
    ensures
        run_frames(g, app, n) == g,
    decreases n,
{
    if n > 0 {
        lemma_frames_frozen(g, app, (n - 1) as nat);
    }
}

proof fn lemma_held_inputs_keep_grid(g: Seq<bool>, app: AppState, inps: Seq<Input>)
    requires
        app.down,
        forall|i: int| 0 <= i < inps.len() ==> inps[i] != (Input::PointerButton { pressed: false }),
    ensures
        run_inputs(g, app, inps).0 == g,
        run_inputs(g, app, inps).1.down,
    decreases inps.len(),
{
    if inps.len() > 0 {
        lemma_held_inputs_keep_grid(g, app, inps.drop_last());
    }
}

/// In editing mode, pressing the pointer button flips exactly the cell under
/// the pointer, and only once: any number of frames that follow leave the
/// grid as it is, and so do any inputs that follow until the button is
/// released.
pub proof fn law_press_toggles_once(
    g: Seq<bool>,
    app: AppState,
    frames: nat,
    held: Seq<Input>,
)
    requires
        g.len() == CELLS,
        app.wf(),
        app.editing,
        !app.down,
        forall|i: int| 0 <= i < held.len() ==> held[i] != (Input::PointerButton { pressed: false }),
    ensures
        ({
            let press = Input::PointerButton { pressed: true };
            let s1 = input_state(app, press);
            let g1 = input_grid(g, app, press);
            &&& g1 == toggled(g, app.x as int, app.y as int)
            &&& s1 == AppState { down: true, ..app }
            &&& run_frames(g1, s1, frames) == g1
            &&& run_inputs(g1, s1, held).0 == g1
        }),
{
    let press = Input::PointerButton { pressed: true };
    let s1 = input_state(app, press);
    lemma_frames_frozen(input_grid(g, app, press), s1, frames);
    lemma_held_inputs_keep_grid(input_grid(g, app, press), s1, held);
}

} // verus!

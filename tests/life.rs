use life::edit::{
    advance_frame, edit_life, get_new_state_from_input, handle_input, AppState, Input,
};
use life::grid::{
    does_cell_live, fill_map, is_cell_alive, update_life, GameMap, HEIGHT, WIDTH,
};

fn grid_of(cells: &[(usize, usize)]) -> GameMap {
    let mut map = GameMap::new();
    for &c in cells {
        map.set(c, true);
    }
    map
}

fn alive_cells(map: &GameMap) -> Vec<(usize, usize)> {
    let mut out = Vec::new();
    for y in 0..HEIGHT {
        for x in 0..WIDTH {
            if map.get((x, y)) {
                out.push((x, y));
            }
        }
    }
    out.sort();
    out
}

fn step(map: &mut GameMap) {
    let mut scratch = GameMap::new();
    update_life(map, &mut scratch);
}

fn sorted(mut v: Vec<(usize, usize)>) -> Vec<(usize, usize)> {
    v.sort();
    v
}

#[test]
fn new_grid_is_all_dead() {
    assert!(alive_cells(&GameMap::new()).is_empty());
}

#[test]
fn set_changes_only_that_cell() {
    let mut map = GameMap::new();
    map.set((5, 7), true);
    assert!(map.get((5, 7)));
    assert!(is_cell_alive(&map, 5, 7));
    assert_eq!(alive_cells(&map), vec![(5, 7)]);
    map.set((5, 7), false);
    assert!(alive_cells(&map).is_empty());
}

#[test]
fn dead_grid_stays_dead() {
    let mut map = GameMap::new();
    step(&mut map);
    assert!(alive_cells(&map).is_empty());
}

#[test]
fn isolated_cell_dies() {
    let mut map = grid_of(&[(20, 20)]);
    assert!(!does_cell_live(&map, (20, 20)));
    step(&mut map);
    assert!(alive_cells(&map).is_empty());
}

#[test]
fn l_tromino_fills_corner() {
    let mut map = grid_of(&[(10, 10), (11, 10), (10, 11)]);
    assert!(!map.get((11, 11)));
    assert!(does_cell_live(&map, (11, 11)));
    step(&mut map);
    assert_eq!(alive_cells(&map), vec![(10, 10), (10, 11), (11, 10), (11, 11)]);
}

#[test]
fn l_tromino_fills_corner_across_edges() {
    let mut map = grid_of(&[(63, 47), (0, 47), (63, 0)]);
    step(&mut map);
    assert!(map.get((0, 0)));
    assert_eq!(alive_cells(&map), vec![(0, 0), (0, 47), (63, 0), (63, 47)]);
}

#[test]
fn rule_boundaries() {
    // one neighbour: a live cell starves
    let map = grid_of(&[(5, 5), (6, 5)]);
    assert!(!does_cell_live(&map, (5, 5)));
    // two neighbours: a live cell survives, a dead one stays dead
    let map = grid_of(&[(5, 5), (4, 5), (6, 5)]);
    assert!(does_cell_live(&map, (5, 5)));
    assert!(!does_cell_live(&map, (5, 7)));
    let map = grid_of(&[(4, 5), (6, 5)]);
    assert!(!does_cell_live(&map, (5, 5)));
    // three neighbours: a live cell survives
    let map = grid_of(&[(5, 5), (4, 5), (6, 5), (5, 4)]);
    assert!(does_cell_live(&map, (5, 5)));
    // four neighbours: a live cell dies of overpopulation, a dead one stays dead
    let map = grid_of(&[(5, 5), (4, 5), (6, 5), (5, 4), (5, 6)]);
    assert!(!does_cell_live(&map, (5, 5)));
    let map = grid_of(&[(4, 5), (6, 5), (5, 4), (5, 6)]);
    assert!(!does_cell_live(&map, (5, 5)));
    // eight neighbours
    let map = grid_of(&[(4, 4), (5, 4), (6, 4), (4, 5), (6, 5), (4, 6), (5, 6), (6, 6)]);
    assert!(!does_cell_live(&map, (5, 5)));
}

#[test]
fn block_is_stable() {
    let cells = [(30, 20), (31, 20), (30, 21), (31, 21)];
    let mut map = grid_of(&cells);
    step(&mut map);
    assert_eq!(alive_cells(&map), sorted(cells.to_vec()));
    step(&mut map);
    assert_eq!(alive_cells(&map), sorted(cells.to_vec()));
}

#[test]
fn block_across_corner_is_stable() {
    let cells = [(63, 47), (0, 47), (63, 0), (0, 0)];
    let mut map = grid_of(&cells);
    step(&mut map);
    assert_eq!(alive_cells(&map), sorted(cells.to_vec()));
}

#[test]
fn wrap_counts_last_column() {
    // (0, 5) is born only if (63, 5) counts as its neighbour
    let map = grid_of(&[(63, 5), (1, 4), (1, 6)]);
    assert!(does_cell_live(&map, (0, 5)));
    let map = grid_of(&[(1, 4), (1, 6)]);
    assert!(!does_cell_live(&map, (0, 5)));
}

#[test]
fn wrap_counts_last_row() {
    // (5, 0) is born only if (5, 47) counts as its neighbour
    let map = grid_of(&[(5, 47), (4, 1), (6, 1)]);
    assert!(does_cell_live(&map, (5, 0)));
    let map = grid_of(&[(4, 1), (6, 1)]);
    assert!(!does_cell_live(&map, (5, 0)));
}

#[test]
fn seeding_is_deterministic() {
    let a = fill_map();
    let b = fill_map();
    assert_eq!(alive_cells(&a), alive_cells(&b));
    assert_eq!(
        alive_cells(&a),
        sorted(vec![
            (1, 2),
            (2, 3),
            (0, 4),
            (1, 4),
            (2, 4),
            (1, 8),
            (2, 9),
            (0, 10),
            (1, 10),
            (2, 10),
            (30, 3),
            (31, 3),
            (32, 3),
        ])
    );
}

#[test]
fn glider_after_one_step() {
    let mut map = grid_of(&[(1, 2), (2, 3), (0, 4), (1, 4), (2, 4)]);
    step(&mut map);
    assert_eq!(alive_cells(&map), vec![(0, 3), (1, 4), (1, 5), (2, 3), (2, 4)]);
}

#[test]
fn seed_after_one_step() {
    let mut map = fill_map();
    step(&mut map);
    assert_eq!(
        alive_cells(&map),
        vec![
            (0, 3),
            (0, 9),
            (1, 4),
            (1, 5),
            (1, 10),
            (1, 11),
            (2, 3),
            (2, 4),
            (2, 9),
            (2, 10),
            (31, 2),
            (31, 3),
            (31, 4),
        ]
    );
}

#[test]
fn scratchpad_receives_previous_generation() {
    let mut map = grid_of(&[(30, 3), (31, 3), (32, 3)]);
    let mut scratch = grid_of(&[(7, 7)]);
    update_life(&mut map, &mut scratch);
    assert_eq!(alive_cells(&scratch), vec![(30, 3), (31, 3), (32, 3)]);
    assert_eq!(alive_cells(&map), vec![(31, 2), (31, 3), (31, 4)]);
}

#[test]
fn cursor_move_selects_cell() {
    let app = AppState::default();
    let s = get_new_state_from_input(app, Input::CursorMoved { px: 105, py: 37 }).unwrap();
    assert_eq!(s, AppState { x: 10, y: 3, down: false, editing: false });
    // positions past the last cell wrap around
    let s = get_new_state_from_input(app, Input::CursorMoved { px: 650, py: 490 }).unwrap();
    assert_eq!((s.x, s.y), (1, 1));
    let s = get_new_state_from_input(app, Input::CursorMoved { px: 639, py: 479 }).unwrap();
    assert_eq!((s.x, s.y), (63, 47));
}

#[test]
fn buttons_change_state() {
    let app = AppState { x: 3, y: 4, down: false, editing: false };
    let s = get_new_state_from_input(app, Input::EditKey { pressed: true }).unwrap();
    assert_eq!(s, AppState { editing: true, ..app });
    assert_eq!(get_new_state_from_input(app, Input::EditKey { pressed: false }), None);
    let s = get_new_state_from_input(app, Input::PointerButton { pressed: true }).unwrap();
    assert_eq!(s, AppState { down: true, ..app });
    let held = AppState { down: true, ..app };
    let s = get_new_state_from_input(held, Input::PointerButton { pressed: false }).unwrap();
    assert_eq!(s, app);
    assert_eq!(get_new_state_from_input(app, Input::Other), None);
}

#[test]
fn edit_life_toggles_when_down() {
    let mut map = grid_of(&[(3, 4)]);
    edit_life(&mut map, AppState { x: 3, y: 4, down: false, editing: true });
    assert_eq!(alive_cells(&map), vec![(3, 4)]);
    edit_life(&mut map, AppState { x: 3, y: 4, down: true, editing: true });
    assert!(alive_cells(&map).is_empty());
    edit_life(&mut map, AppState { x: 9, y: 1, down: true, editing: true });
    assert_eq!(alive_cells(&map), vec![(9, 1)]);
}

#[test]
fn press_toggles_once_while_held() {
    let mut map = fill_map();
    let mut scratch = GameMap::new();
    let mut state = AppState::default();
    state = handle_input(&mut map, state, Input::EditKey { pressed: true });
    state = handle_input(&mut map, state, Input::CursorMoved { px: 405, py: 205 });
    assert_eq!((state.x, state.y, state.editing), (40, 20, true));
    let before = alive_cells(&map);
    state = handle_input(&mut map, state, Input::PointerButton { pressed: true });
    assert!(state.down);
    let mut expected = before.clone();
    expected.push((40, 20));
    expected.sort();
    assert_eq!(alive_cells(&map), expected);
    for _ in 0..5 {
        advance_frame(&mut map, &mut scratch, state);
    }
    state = handle_input(&mut map, state, Input::PointerButton { pressed: true });
    state = handle_input(&mut map, state, Input::Other);
    state = handle_input(&mut map, state, Input::CursorMoved { px: 415, py: 205 });
    assert_eq!(alive_cells(&map), expected);
    // a release and a new press toggle the cell now under the pointer
    state = handle_input(&mut map, state, Input::PointerButton { pressed: false });
    assert_eq!(alive_cells(&map), expected);
    handle_input(&mut map, state, Input::PointerButton { pressed: true });
    expected.push((41, 20));
    expected.sort();
    assert_eq!(alive_cells(&map), expected);
}

#[test]
fn press_outside_editing_changes_nothing() {
    let mut map = fill_map();
    let state = handle_input(&mut map, AppState::default(), Input::PointerButton { pressed: true });
    assert!(state.down);
    assert_eq!(alive_cells(&map), alive_cells(&fill_map()));
}

#[test]
fn frames_step_unless_editing() {
    let mut map = grid_of(&[(30, 3), (31, 3), (32, 3)]);
    let mut scratch = GameMap::new();
    let editing = AppState { editing: true, ..AppState::default() };
    advance_frame(&mut map, &mut scratch, editing);
    assert_eq!(alive_cells(&map), vec![(30, 3), (31, 3), (32, 3)]);
    advance_frame(&mut map, &mut scratch, AppState::default());
    assert_eq!(alive_cells(&map), vec![(31, 2), (31, 3), (31, 4)]);
}

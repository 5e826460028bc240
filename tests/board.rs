use picross::board::{
    cell_click, cell_placement, index_cells, new_gridline, resolve_press, spawn_cells,
    spawn_grid, Board, CellClick, Orientation, MAJOR_LINE_THICKNESS, MINOR_LINE_THICKNESS,
};
use picross::cell_index::CellIndex;
use picross::geometry::{Coordinates, GridConfig};
use picross::menu::{button_response, AppState, ButtonInteraction, ButtonLook};
use picross::solution::Solution;

fn scenario() -> GridConfig {
    GridConfig::new(32, 10, 0, 0).unwrap()
}

fn full_index(cfg: &GridConfig) -> CellIndex {
    let mut index = CellIndex::new();
    for p in spawn_cells(cfg) {
        let c = p.coordinates;
        index.insert(c, 1000 + c.y as u64 * 100 + c.x as u64);
    }
    index
}

#[test]
fn index_insert_then_lookup() {
    let mut index = CellIndex::new();
    assert_eq!(index.lookup(Coordinates::new(1, 1)), None);
    index.insert(Coordinates::new(3, 4), 77);
    assert_eq!(index.lookup(Coordinates::new(3, 4)), Some(77));
    assert_eq!(index.lookup(Coordinates::new(4, 3)), None);
    index.insert(Coordinates::new(3, 4), 78);
    assert_eq!(index.lookup(Coordinates::new(3, 4)), Some(78));
}

#[test]
fn index_moving_a_cell_clears_its_old_place() {
    let mut index = CellIndex::new();
    index.insert(Coordinates::new(1, 1), 5);
    index.insert(Coordinates::new(2, 1), 5);
    assert_eq!(index.lookup(Coordinates::new(1, 1)), None);
    assert_eq!(index.lookup(Coordinates::new(2, 1)), Some(5));
    index.remove_cell(5);
    assert_eq!(index.lookup(Coordinates::new(2, 1)), None);
    index.remove_cell(5);
    assert_eq!(index.lookup(Coordinates::new(2, 1)), None);
}

#[test]
fn index_edge_coordinates() {
    let mut index = CellIndex::new();
    index.insert(Coordinates::new(255, 0), 1);
    index.insert(Coordinates::new(0, 255), 2);
    index.insert(Coordinates::new(255, 255), u64::MAX);
    assert_eq!(index.lookup(Coordinates::new(255, 0)), Some(1));
    assert_eq!(index.lookup(Coordinates::new(0, 255)), Some(2));
    assert_eq!(index.lookup(Coordinates::new(255, 255)), Some(u64::MAX));
    assert_eq!(index.lookup(Coordinates::new(0, 0)), None);
}

#[test]
fn click_scenario() {
    let cfg = scenario();
    let index = full_index(&cfg);
    assert_eq!(resolve_press(&cfg, &index, -144, -144), Some(1101));
    assert_eq!(resolve_press(&cfg, &index, 144, 144), Some(2010));
    assert_eq!(resolve_press(&cfg, &index, -161, 0), None);
    assert_eq!(
        cell_click(&cfg, &index, true, Some((-144, -144))),
        Some(CellClick { selected_cell: Some(1101) })
    );
    assert_eq!(
        cell_click(&cfg, &index, true, Some((-161, 0))),
        Some(CellClick { selected_cell: None })
    );
}

#[test]
fn click_without_press_or_cursor_gives_no_event() {
    let cfg = scenario();
    let index = full_index(&cfg);
    assert_eq!(cell_click(&cfg, &index, false, Some((0, 0))), None);
    assert_eq!(cell_click(&cfg, &index, true, None), None);
}

#[test]
fn click_outside_grid_selects_nothing() {
    let cfg = scenario();
    let index = full_index(&cfg);
    for (px, py) in [(-161, 0), (0, -161), (161, 0), (0, 161), (1000, 1000), (-200, -200)] {
        assert_eq!(resolve_press(&cfg, &index, px, py), None);
    }
    assert_eq!(resolve_press(&cfg, &index, -160, -160), Some(1101));
    assert_eq!(resolve_press(&cfg, &index, 159, 159), Some(2010));
}

#[test]
fn click_on_unindexed_cell_selects_nothing() {
    let cfg = scenario();
    let index = CellIndex::new();
    assert_eq!(resolve_press(&cfg, &index, 0, 0), None);
}

#[test]
fn index_cells_follows_moves() {
    let cfg = scenario();
    let mut index = CellIndex::new();
    index_cells(&cfg, &mut index, &vec![(9, -144, -144), (10, 144, 144)]);
    assert_eq!(index.lookup(Coordinates::new(1, 1)), Some(9));
    assert_eq!(index.lookup(Coordinates::new(10, 10)), Some(10));
    // cell 9 moves one cell right, cell 10 leaves the grid
    index_cells(&cfg, &mut index, &vec![(9, -112, -144), (10, 500, 0)]);
    assert_eq!(index.lookup(Coordinates::new(1, 1)), None);
    assert_eq!(index.lookup(Coordinates::new(2, 1)), Some(9));
    assert_eq!(index.lookup(Coordinates::new(10, 10)), None);
    index_cells(&cfg, &mut index, &vec![]);
    assert_eq!(index.lookup(Coordinates::new(2, 1)), Some(9));
}

#[test]
fn grid_lines_scenario() {
    let cfg = scenario();
    let lines = spawn_grid(&cfg);
    assert_eq!(lines.len(), 22);
    let h0 = lines[0];
    assert_eq!(h0.orientation, Orientation::Horizontal);
    assert_eq!((h0.x, h0.y, h0.width, h0.height), (0, -160, 324, 4));
    let v1 = lines[3];
    assert_eq!(v1.orientation, Orientation::Vertical);
    assert_eq!((v1.x, v1.y, v1.width, v1.height), (-128, 0, 2, 322));
    let v10 = lines[21];
    assert_eq!((v10.x, v10.y, v10.width, v10.height), (160, 0, 4, 324));
    assert_eq!(new_gridline(&cfg, Orientation::Horizontal, 5).height, MAJOR_LINE_THICKNESS as i32);
    assert_eq!(new_gridline(&cfg, Orientation::Horizontal, 4).height, MINOR_LINE_THICKNESS as i32);
}

#[test]
fn cells_scenario() {
    let cfg = scenario();
    let cells = spawn_cells(&cfg);
    assert_eq!(cells.len(), 100);
    assert_eq!(cells[0], cell_placement(&cfg, 1, 1));
    assert_eq!((cells[0].x, cells[0].y, cells[0].size), (-144, -144, 32));
    assert_eq!(cells[0].coordinates, Coordinates::new(1, 1));
    // row-major: the second entry is column 2 of row 1
    assert_eq!(cells[1].coordinates, Coordinates::new(2, 1));
    assert_eq!((cells[1].x, cells[1].y), (-112, -144));
    assert_eq!(cells[99].coordinates, Coordinates::new(10, 10));
    assert_eq!((cells[99].x, cells[99].y), (144, 144));
    assert!(!cells[0].base_style);
    assert!(cells[5].base_style);
    assert!(cells[50].base_style);
    assert!(!cells[55].base_style);
}

#[test]
fn board_end_to_end() {
    let cfg = scenario();
    let solution = Solution::new((2, 2), vec![vec![0, 1], vec![1, 0]]);
    let mut board = Board::new(cfg, solution);
    for p in spawn_cells(&cfg) {
        let c = p.coordinates;
        board.place_cell(c, c.y as u64 * 100 + c.x as u64);
    }
    let click = board.click(true, Some((-112, -144))).unwrap();
    assert_eq!(click.selected_cell, Some(102));
    assert!(board.solution_at(Coordinates::new(2, 1)));
    assert!(!board.solution_at(Coordinates::new(1, 1)));
    assert!(board.solution_at(Coordinates::new(1, 2)));
    assert!(!board.solution_at(Coordinates::new(0, 1)));
    assert!(!board.solution_at(Coordinates::new(3, 1)));
    board.cells_moved(&vec![(102, 144, 144)]);
    assert_eq!(board.click(true, Some((-112, -144))).unwrap().selected_cell, None);
    assert_eq!(board.click(true, Some((144, 144))).unwrap().selected_cell, Some(102));
}

#[test]
fn play_button_starts_puzzle() {
    let r = button_response(ButtonInteraction::Clicked);
    assert_eq!(r.look, ButtonLook::Clicked);
    assert!(r.despawn);
    assert_eq!(r.next_state, Some(AppState::Puzzle));
    let r = button_response(ButtonInteraction::Hovered);
    assert_eq!((r.look, r.despawn, r.next_state), (ButtonLook::Hovered, false, None));
    let r = button_response(ButtonInteraction::Idle);
    assert_eq!((r.look, r.despawn, r.next_state), (ButtonLook::Normal, false, None));
}

use life::cell::Cell;
use life::rules::next_state;
use life::state::{Key, State};
use life::torus::mod_floor;

fn board(width: usize, height: usize, alive: &[(usize, usize)]) -> State {
    let mut cells = vec![false; width * height];
    for &(x, y) in alive {
        cells[y * width + x] = true;
    }
    State::from_cells(width, height, cells).unwrap()
}

fn alive_cells(s: &State) -> Vec<(usize, usize)> {
    let mut out = Vec::new();
    for y in 0..s.height() {
        for x in 0..s.width() {
            if s.is_alive(x, y) {
                out.push((x, y));
            }
        }
    }
    out
}

#[test]
fn mod_floor_wraps_both_ways() {
    assert_eq!(mod_floor(-1, 60), 59);
    assert_eq!(mod_floor(60, 60), 0);
    assert_eq!(mod_floor(61, 60), 1);
    assert_eq!(mod_floor(5, 3), 2);
    assert_eq!(mod_floor(-7, 3), 2);
    assert_eq!(mod_floor(-6, 3), 0);
    assert_eq!(mod_floor(0, 1), 0);
    assert_eq!(mod_floor(i32::MIN, 7), 5);
    assert_eq!(mod_floor(i32::MAX, i32::MAX as usize), 0);
}

#[test]
fn new_cell_is_dead_at_origin() {
    let c = Cell::new();
    assert_eq!((c.x, c.y, c.n), (0, 0, 0));
    assert!(!c.alive);
    assert!(!c.alive_next);
}

#[test]
fn rule_for_every_count() {
    for count in 0u8..=8 {
        assert_eq!(next_state(true, count), count == 2 || count == 3, "alive, {}", count);
        assert_eq!(next_state(false, count), count == 3, "dead, {}", count);
    }
}

#[test]
fn dead_three_by_three_stays_dead() {
    let mut s = board(3, 3, &[]);
    s.tick();
    assert_eq!(s.cells(), vec![false; 9]);
    assert_eq!(s.next_cells(), vec![false; 9]);
}

#[test]
fn blinker_has_period_two() {
    let horizontal = vec![(1, 2), (2, 2), (3, 2)];
    let vertical = vec![(2, 1), (2, 2), (2, 3)];
    let mut s = board(5, 5, &horizontal);
    s.tick();
    assert_eq!(alive_cells(&s), vertical);
    s.tick();
    assert_eq!(alive_cells(&s), horizontal);
}

#[test]
fn neighbour_counts_drive_survival_and_birth() {
    // a 2x2 block is still
    let block = vec![(1, 1), (2, 1), (1, 2), (2, 2)];
    let mut s = board(6, 6, &block);
    assert_eq!(s.count_neighbours(1, 1), 3);
    assert_eq!(s.count_neighbours(0, 0), 1);
    s.tick();
    assert_eq!(alive_cells(&s), block);

    // a lone cell dies; a crowded centre dies
    let mut s = board(5, 5, &[(2, 2)]);
    s.tick();
    assert!(alive_cells(&s).is_empty());
    let plus = vec![(2, 1), (1, 2), (2, 2), (3, 2), (2, 3)];
    let mut s = board(5, 5, &plus);
    assert_eq!(s.count_neighbours(2, 2), 4);
    s.tick();
    assert!(!s.is_alive(2, 2));
}

#[test]
fn origin_counts_wrapped_neighbours() {
    let s = board(4, 4, &[(3, 3), (3, 0), (0, 3)]);
    assert_eq!(s.count_neighbours(0, 0), 3);
    let s = board(4, 4, &[(3, 3), (3, 0), (0, 3), (1, 3), (3, 1), (1, 1), (0, 1), (1, 0)]);
    assert_eq!(s.count_neighbours(0, 0), 8);
    let s = board(4, 4, &[(0, 0)]);
    assert_eq!(s.count_neighbours(3, 3), 1);
    assert_eq!(s.count_neighbours(2, 2), 0);
    let mut s = board(4, 4, &[(3, 3), (3, 0), (0, 3)]);
    s.tick();
    assert!(s.is_alive(0, 0));
}

#[test]
fn single_cell_board_sees_itself() {
    let s = board(1, 1, &[(0, 0)]);
    assert_eq!(s.count_neighbours(0, 0), 8);
    let mut s = board(1, 1, &[(0, 0)]);
    s.tick();
    assert!(!s.is_alive(0, 0));
}

#[test]
fn randomize_fills_both_buffers() {
    let mut s = board(7, 5, &[(1, 1)]);
    s.set_paused(false);
    s.randomize();
    assert_eq!(s.cells(), s.next_cells());
    assert_eq!(s.cells().len(), 35);
    assert_eq!((s.width(), s.height(), s.is_paused()), (7, 5, false));
}

#[test]
fn new_board_is_paused_and_consistent() {
    let s = State::new(60, 60);
    assert!(s.is_paused());
    assert_eq!(s.cells().len(), 3600);
    assert_eq!(s.cells(), s.next_cells());
}

#[test]
fn load_cells_sets_both_buffers() {
    let mut s = board(2, 2, &[]);
    s.load_cells(&vec![true, false, false, true]);
    assert_eq!(s.cells(), vec![true, false, false, true]);
    assert_eq!(s.next_cells(), vec![true, false, false, true]);
}

#[test]
fn toggle_flips_exactly_one_cell() {
    let mut s = board(4, 3, &[(0, 0), (2, 1)]);
    assert!(s.toggle_cell(3, 2));
    assert_eq!(alive_cells(&s), vec![(0, 0), (2, 1), (3, 2)]);
    assert!(s.toggle_cell(2, 1));
    assert_eq!(alive_cells(&s), vec![(0, 0), (3, 2)]);
    assert!(!s.toggle_cell(4, 0));
    assert!(!s.toggle_cell(0, 3));
    assert_eq!(alive_cells(&s), vec![(0, 0), (3, 2)]);
}

#[test]
fn click_maps_pixels_to_cells() {
    let mut s = board(60, 60, &[]);
    assert!(s.click(37, 18, 18, 18));
    assert_eq!(alive_cells(&s), vec![(2, 1)]);
    assert!(s.click(36, 35, 18, 18));
    assert!(alive_cells(&s).is_empty());
    assert!(!s.click(1080, 0, 18, 18));
    assert!(alive_cells(&s).is_empty());
}

#[test]
fn keys_pause_randomize_and_quit() {
    let mut s = board(3, 3, &[(0, 0)]);
    assert!(s.is_paused());
    assert!(!s.key_down_event(Key::Pause));
    assert!(!s.is_paused());
    assert!(!s.key_down_event(Key::Other));
    assert_eq!(alive_cells(&s), vec![(0, 0)]);
    assert!(s.key_down_event(Key::Quit));
    assert!(!s.key_down_event(Key::Randomize));
    assert_eq!(s.cells(), s.next_cells());
    assert!(!s.is_paused());
}

#[test]
fn update_runs_only_when_unpaused() {
    let horizontal = vec![(1, 2), (2, 2), (3, 2)];
    let mut s = board(5, 5, &horizontal);
    s.update();
    assert_eq!(alive_cells(&s), horizontal);
    s.set_paused(false);
    s.update();
    assert_eq!(alive_cells(&s), vec![(2, 1), (2, 2), (2, 3)]);
}

#[test]
fn from_cells_rejects_bad_sizes() {
    assert!(State::from_cells(0, 3, vec![]).is_none());
    assert!(State::from_cells(3, 0, vec![]).is_none());
    assert!(State::from_cells(2, 2, vec![false; 3]).is_none());
    assert!(State::from_cells(2, 2, vec![false; 5]).is_none());
    assert!(State::from_cells(usize::MAX, 1, vec![]).is_none());
    let s = State::from_cells(3, 2, vec![false, true, false, false, false, true]).unwrap();
    assert_eq!((s.width(), s.height()), (3, 2));
    assert!(s.is_alive(1, 0));
    assert!(s.is_alive(2, 1));
    assert!(s.is_paused());
}

use rs2048::board::Bd;
use rs2048::moves::Dir;

#[test]
fn uniform_board_is_movable_in_all_directions() {
    let mut b = Bd::gen(4);
    for i in 0..4 {
        for j in 0..4 {
            b.set(i, j, 2);
        }
    }
    let vm = b.valid_moves();
    assert!(vm.left);
    assert!(vm.right);
    assert!(vm.up);
    assert!(vm.down);
    assert!(b.valid(Dir::Left));
    assert!(b.valid(Dir::Right));
    assert!(b.valid(Dir::Up));
    assert!(b.valid(Dir::Down));
}

#[test]
fn empty_board_has_no_valid_moves() {
    let b = Bd::gen(4);
    let vm = b.valid_moves();
    assert!(!vm.left);
    assert!(!vm.right);
    assert!(!vm.up);
    assert!(!vm.down);
}

#[test]
fn single_tile_board_cannot_move() {
    let mut b = Bd::gen(1);
    b.set(0, 0, 2);
    let vm = b.valid_moves();
    assert!(!vm.left);
    assert!(!vm.right);
    assert!(!vm.up);
    assert!(!vm.down);
}

#[test]
fn pair_in_top_row_of_empty_grid() {
    // Top row is [2, 2, 0, 0], everything else empty.
    let mut b = Bd::gen(4);
    b.set(0, 0, 2);
    b.set(0, 1, 2);
    // The equal pair merges leftward.
    assert!(b.valid(Dir::Left));
    // Read reversed, the row is [0, 0, 2, 2]: a tile follows an empty cell.
    assert!(b.valid(Dir::Right));
    // Each occupied column reads [2, 0, 0, 0] top to bottom: no pair has a
    // non-empty current cell, so nothing moves up.
    assert!(!b.valid(Dir::Up));
    // Read bottom to top the same column is [0, 0, 0, 2]: each lone tile can
    // slide down into the empty rows below it.
    assert!(b.valid(Dir::Down));
}

#[test]
fn pair_in_bottom_row_of_empty_grid() {
    // Bottom row is [2, 2, 0, 0], everything else empty.
    let mut b = Bd::gen(4);
    b.set(3, 0, 2);
    b.set(3, 1, 2);
    assert!(b.valid(Dir::Left));
    assert!(b.valid(Dir::Right));
    // The tiles sit at the bottom of their columns: they can slide up through
    // the empty cells above, but not further down.
    assert!(b.valid(Dir::Up));
    assert!(!b.valid(Dir::Down));
}

#[test]
fn empty_then_tile_triggers_leftward_validity() {
    // Top row is [4, 2, 0, 8]: no equal neighbors, but the 8 follows an
    // empty cell, so a leftward slide compacts it.
    let mut b = Bd::gen(4);
    b.set(0, 0, 4);
    b.set(0, 1, 2);
    b.set(0, 3, 8);
    assert!(b.valid(Dir::Left));
}

#[test]
fn tiles_packed_left_move_only_toward_empty_space() {
    // Top row is [2, 4, 0, 0]: unequal tiles already packed to the left.
    let mut b = Bd::gen(4);
    b.set(0, 0, 2);
    b.set(0, 1, 4);
    let vm = b.valid_moves();
    assert!(!vm.left);
    assert!(vm.right);
    assert!(!vm.up);
    assert!(vm.down);
}

#[test]
fn gridlocked_board_has_no_valid_moves() {
    // A full 2x2 board with four distinct tiles: nothing slides, nothing
    // merges, in any direction.
    let mut b = Bd::gen(2);
    b.set(0, 0, 2);
    b.set(0, 1, 4);
    b.set(1, 0, 8);
    b.set(1, 1, 16);
    let vm = b.valid_moves();
    assert!(!vm.left);
    assert!(!vm.right);
    assert!(!vm.up);
    assert!(!vm.down);
}

#[test]
fn valid_moves_is_pure_and_repeatable() {
    let mut b = Bd::gen(4);
    b.set(0, 0, 4);
    b.set(0, 1, 2);
    b.set(0, 3, 8);
    b.set(2, 2, 2);
    let mut before: Vec<u32> = Vec::new();
    for i in 0..4 {
        for j in 0..4 {
            before.push(b.get(i, j));
        }
    }
    let vm1 = b.valid_moves();
    let vm2 = b.valid_moves();
    assert_eq!(vm1, vm2);
    let mut after: Vec<u32> = Vec::new();
    for i in 0..4 {
        for j in 0..4 {
            after.push(b.get(i, j));
        }
    }
    assert_eq!(before, after);
    assert_eq!(b.get_score(), 0);
}

#[test]
fn apply_move_returns_the_board_unchanged() {
    let mut b = Bd::gen(2);
    b.set(0, 0, 2);
    b.set(1, 1, 4);
    let b2 = b._apply_move(Dir::Left);
    assert_eq!(b2.row_count(), 2);
    assert_eq!(b2.get(0, 0), 2);
    assert_eq!(b2.get(0, 1), 0);
    assert_eq!(b2.get(1, 0), 0);
    assert_eq!(b2.get(1, 1), 4);
    assert_eq!(b2.get_score(), 0);
}

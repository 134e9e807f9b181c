use frame_core::dispatch::{
    covering_groups, covers_exactly, dispatch_groups, uncovered_border, WORKGROUP_SIZE,
};

#[test]
fn groups_for_the_fixed_window() {
    assert_eq!(dispatch_groups(800, 600), (50, 37, 1));
}

#[test]
fn groups_round_down() {
    assert_eq!(dispatch_groups(16, 16), (1, 1, 1));
    assert_eq!(dispatch_groups(15, 31), (0, 1, 1));
    assert_eq!(dispatch_groups(17, 32), (1, 2, 1));
    assert_eq!(dispatch_groups(1, 1), (0, 0, 1));
    assert_eq!(dispatch_groups(1920, 1080), (120, 67, 1));
}

#[test]
fn groups_at_the_limits() {
    assert_eq!(dispatch_groups(0, 0), (0, 0, 1));
    assert_eq!(dispatch_groups(u32::MAX, u32::MAX), (268_435_455, 268_435_455, 1));
}

#[test]
fn groups_equal_floor_division_for_many_sizes() {
    let mut width: u32 = 1;
    while width < 2000 {
        let mut height: u32 = 1;
        while height < 2000 {
            assert_eq!(dispatch_groups(width, height), (width / 16, height / 16, 1));
            height += 37;
        }
        width += 41;
    }
}

#[test]
fn border_of_the_fixed_window() {
    assert_eq!(uncovered_border(800, 600), (0, 8));
    assert!(!covers_exactly(800, 600));
}

#[test]
fn border_is_what_the_groups_leave() {
    let sizes = [(800u32, 600u32), (640, 480), (33, 47), (16, 16), (5, 5)];
    for (width, height) in sizes {
        let (gx, gy, gz) = dispatch_groups(width, height);
        let (bx, by) = uncovered_border(width, height);
        assert_eq!(gz, 1);
        assert_eq!(gx * WORKGROUP_SIZE + bx, width);
        assert_eq!(gy * WORKGROUP_SIZE + by, height);
        assert!(bx < WORKGROUP_SIZE && by < WORKGROUP_SIZE);
        assert_eq!(covers_exactly(width, height), bx == 0 && by == 0);
    }
}

#[test]
fn multiples_of_the_tile_are_covered() {
    assert!(covers_exactly(640, 480));
    assert!(covers_exactly(16, 16));
    assert!(covers_exactly(0, 0));
    assert!(!covers_exactly(640, 481));
    assert!(!covers_exactly(641, 480));
}

#[test]
fn covering_grid_rounds_up() {
    assert_eq!(covering_groups(800, 600), (50, 38, 1));
    assert_eq!(covering_groups(640, 480), (40, 30, 1));
    assert_eq!(covering_groups(1, 17), (1, 2, 1));
    assert_eq!(covering_groups(0, 0), (0, 0, 1));
    assert_eq!(covering_groups(u32::MAX, 16), (268_435_456, 1, 1));
    for (width, height) in [(800u32, 600u32), (640, 480), (33, 47), (16, 16), (5, 5)] {
        let whole = dispatch_groups(width, height);
        let covering = covering_groups(width, height);
        assert_eq!(covering == whole, covers_exactly(width, height));
    }
}

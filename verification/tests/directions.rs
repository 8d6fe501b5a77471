use factory_grid::direction::Direction;
use factory_grid::grid::{link, step};

#[test]
fn directions_are_numbered_east_west_north_south() {
    assert_eq!(Direction::East.index(), 0);
    assert_eq!(Direction::West.index(), 1);
    assert_eq!(Direction::North.index(), 2);
    assert_eq!(Direction::South.index(), 3);
    assert_eq!(Direction::from_index(0), Direction::East);
    assert_eq!(Direction::from_index(1), Direction::West);
    assert_eq!(Direction::from_index(2), Direction::North);
    assert_eq!(Direction::from_index(3), Direction::South);
}

#[test]
fn opposite_turns_around() {
    assert_eq!(Direction::East.opposite(), Direction::West);
    assert_eq!(Direction::West.opposite(), Direction::East);
    assert_eq!(Direction::North.opposite(), Direction::South);
    assert_eq!(Direction::South.opposite(), Direction::North);
}

#[test]
fn deltas_are_unit_moves() {
    assert_eq!(Direction::East.delta(), (1, 0));
    assert_eq!(Direction::West.delta(), (-1, 0));
    assert_eq!(Direction::North.delta(), (0, 1));
    assert_eq!(Direction::South.delta(), (0, -1));
}

#[test]
fn step_inside_the_grid() {
    assert_eq!(step(5, 2, 2, Direction::East), Some((3, 2)));
    assert_eq!(step(5, 2, 2, Direction::West), Some((1, 2)));
    assert_eq!(step(5, 2, 2, Direction::North), Some((2, 3)));
    assert_eq!(step(5, 2, 2, Direction::South), Some((2, 1)));
}

#[test]
fn step_off_the_edge_is_none() {
    assert_eq!(step(5, 4, 2, Direction::East), None);
    assert_eq!(step(5, 0, 2, Direction::West), None);
    assert_eq!(step(5, 2, 4, Direction::North), None);
    assert_eq!(step(5, 2, 0, Direction::South), None);
    assert_eq!(step(1, 0, 0, Direction::East), None);
    assert_eq!(step(1, 0, 0, Direction::South), None);
}

#[test]
fn link_is_the_index_of_the_step() {
    assert_eq!(link(5, 2, 2, Direction::East), Some(17));
    assert_eq!(link(5, 2, 2, Direction::West), Some(7));
    assert_eq!(link(5, 2, 2, Direction::North), Some(13));
    assert_eq!(link(5, 2, 2, Direction::South), Some(11));
    assert_eq!(link(5, 0, 0, Direction::West), None);
    assert_eq!(link(5, 4, 4, Direction::North), None);
}

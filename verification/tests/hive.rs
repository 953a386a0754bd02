use hexboard::grid::{Coord, Grid};
use hexboard::hive::hivegrid::HiveGrid;
use hexboard::hive::pieces::{Bug, Color, HivePiece};

fn ant(color: Color) -> HivePiece {
    HivePiece::new(color, Bug::Ant)
}

#[test]
fn new_hive_grid_is_empty() {
    let mut grid = HiveGrid::new();
    assert_eq!(0, grid.num_pieces());
    assert_eq!(0, grid.height());
    assert_eq!(0, grid.width());
    assert_eq!((0, 0), grid.min());
    assert_eq!((0, 0), grid.max());
}

#[test]
fn hive_grid_hands_on_to_the_grid() {
    let mut grid = HiveGrid::new();
    grid.add(Coord::new(1, 8), ant(Color::White));
    grid.add(Coord::new(3, 16), HivePiece::new(Color::Black, Bug::QueenBee));
    grid.add(Coord::new(2, 18), HivePiece::new(Color::Black, Bug::Spider));
    grid.remove(Coord::new(3, 16));
    assert_eq!(2, grid.num_pieces());
    assert_eq!(11, grid.height());
    assert_eq!(2, grid.width());
    assert_eq!((1, 8), grid.min());
    assert_eq!((2, 18), grid.max());
    assert_eq!(Some(&ant(Color::White)), grid.at(Coord::new(1, 8)));
    assert_eq!(None, grid.at(Coord::new(3, 16)));
    assert!(grid.occupied(Coord::new(2, 18)));
    assert!(!grid.occupied(Coord::new(3, 16)));
    assert_eq!(
        vec![
            Coord::new(3, 0),
            Coord::new(4, 0),
            Coord::new(2, 1),
            Coord::new(4, 1),
            Coord::new(2, 2),
            Coord::new(3, 2)
        ],
        grid.adjacents(Coord::new(3, 1))
    );
}

#[test]
fn adjacent_occupied_and_empty_split_the_neighbours() {
    let mut grid = HiveGrid::new();
    grid.add(Coord::new(3, 1), HivePiece::new(Color::White, Bug::QueenBee));
    grid.add(Coord::new(4, 0), ant(Color::Black));
    grid.add(Coord::new(2, 2), HivePiece::new(Color::White, Bug::Grasshopper));
    grid.add(Coord::new(3, 2), HivePiece::new(Color::Black, Bug::Spider));
    grid.add(Coord::new(9, 9), ant(Color::White));

    assert_eq!(
        vec![Coord::new(4, 0), Coord::new(2, 2), Coord::new(3, 2)],
        grid.adjacent_occupied(Coord::new(3, 1))
    );
    assert_eq!(
        vec![Coord::new(3, 0), Coord::new(2, 1), Coord::new(4, 1)],
        grid.adjacent_empty(Coord::new(3, 1))
    );
}

#[test]
fn adjacent_queries_on_an_empty_board() {
    let grid = HiveGrid::new();
    assert_eq!(Vec::<Coord>::new(), grid.adjacent_occupied(Coord::new(0, 0)));
    assert_eq!(
        vec![
            Coord::new(0, -1),
            Coord::new(1, -1),
            Coord::new(-1, 0),
            Coord::new(1, 0),
            Coord::new(-1, 1),
            Coord::new(0, 1)
        ],
        grid.adjacent_empty(Coord::new(0, 0))
    );
}

#[test]
fn adjacent_queries_on_a_surrounded_cell() {
    let mut grid = HiveGrid::new();
    let around = grid.adjacents(Coord::new(0, 0));
    for c in around.iter() {
        grid.add(*c, ant(Color::Black));
    }
    assert_eq!(around, grid.adjacent_occupied(Coord::new(0, 0)));
    assert_eq!(Vec::<Coord>::new(), grid.adjacent_empty(Coord::new(0, 0)));
}

#[test]
fn adjacent_queries_at_the_rim_see_the_cell_itself() {
    let mut grid = HiveGrid::new();
    let m = i16::MAX;
    grid.add(Coord::new(m, m), ant(Color::White));
    assert_eq!(
        vec![Coord::new(m, m), Coord::new(m, m)],
        grid.adjacent_occupied(Coord::new(m, m))
    );
    assert_eq!(
        vec![
            Coord::new(m, m - 1),
            Coord::new(m, m - 1),
            Coord::new(m - 1, m),
            Coord::new(m - 1, m)
        ],
        grid.adjacent_empty(Coord::new(m, m))
    );
}

#[test]
fn beetle_climbs_onto_an_occupied_cell() {
    let mut grid = HiveGrid::new();
    let cell = Coord::new(2, 2);
    grid.add(cell, HivePiece::new(Color::White, Bug::QueenBee));
    grid.add(Coord::new(3, 2), ant(Color::Black));

    let under = grid.at(cell).unwrap().clone();
    let beetle = HivePiece::beetle_on(Color::Black, under.clone());
    grid.add(cell, beetle.clone());

    assert_eq!(2, grid.num_pieces());
    assert_eq!(Some(&beetle), grid.at(cell));
    assert_ne!(Some(&under), grid.at(cell));
    assert_eq!(Some(&under), grid.at(cell).unwrap().beneath());
    assert_eq!(Color::Black, grid.at(cell).unwrap().color);
    assert_eq!(
        HivePiece::new(
            Color::Black,
            Bug::Beetle(Box::new(HivePiece::new(Color::White, Bug::QueenBee)))
        ),
        *grid.at(cell).unwrap()
    );
    assert_eq!(Some(&ant(Color::Black)), grid.at(Coord::new(3, 2)));
}

#[test]
fn beetles_stack_to_any_depth() {
    let bottom = HivePiece::new(Color::White, Bug::Spider);
    let middle = HivePiece::beetle_on(Color::Black, bottom.clone());
    let top = HivePiece::beetle_on(Color::White, middle.clone());
    assert_eq!(Some(&middle), top.beneath());
    assert_eq!(Some(&bottom), top.beneath().unwrap().beneath());
    assert_eq!(None, bottom.beneath());
    assert_ne!(top, middle);
    assert_ne!(middle, bottom);
}

#[test]
fn pieces_compare_by_owner_kind_and_what_lies_beneath() {
    let kinds = [Bug::Ant, Bug::Grasshopper, Bug::QueenBee, Bug::Spider];
    for (i, a) in kinds.iter().enumerate() {
        for (j, b) in kinds.iter().enumerate() {
            assert_eq!(i == j, a == b);
            assert_eq!(
                i == j,
                HivePiece::new(Color::White, a.clone()) == HivePiece::new(Color::White, b.clone())
            );
            assert_ne!(
                HivePiece::new(Color::White, a.clone()),
                HivePiece::new(Color::Black, b.clone())
            );
        }
    }
    let on_ant = Bug::Beetle(Box::new(ant(Color::White)));
    let on_other_ant = Bug::Beetle(Box::new(ant(Color::Black)));
    assert_eq!(on_ant, on_ant.clone());
    assert_ne!(on_ant, on_other_ant);
    assert_ne!(on_ant, Bug::Ant);
    assert_ne!(Bug::Ant, on_ant);
    assert_ne!(Color::Black, Color::White);
}

#[test]
fn clone_copies_the_whole_stack() {
    let top = HivePiece::beetle_on(
        Color::White,
        HivePiece::beetle_on(Color::Black, HivePiece::new(Color::White, Bug::Grasshopper)),
    );
    let copy = top.clone();
    assert_eq!(top, copy);
    assert_eq!(Color::White, copy.color);
    assert_eq!(
        Some(&HivePiece::new(Color::White, Bug::Grasshopper)),
        copy.beneath().unwrap().beneath()
    );
}

#[test]
fn new_piece_keeps_owner_and_kind() {
    let p = HivePiece::new(Color::Black, Bug::QueenBee);
    assert_eq!(Color::Black, p.color);
    assert_eq!(Bug::QueenBee, p.bug);
    assert_eq!(None, p.beneath());
}

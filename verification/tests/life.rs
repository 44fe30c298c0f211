use winter::game_of_life::{
    Attribute, Builder, Cell, CellActionDirection, SetupKind,
};

fn board(width: usize, height: usize, kind: SetupKind) -> winter::game_of_life::Context {
    Builder::create()
        .add(Attribute::BoardSize(width, height))
        .add(Attribute::BoardSetup(kind))
        .build()
        .unwrap()
}

#[test]
fn cell_liveness() {
    assert!(Cell::Alive.is_alive());
    assert!(!Cell::Alive.is_dead());
    assert!(Cell::Dead.is_dead());
    assert!(!Cell::Dead.is_alive());
}

#[test]
fn direction_from_small_numbers() {
    assert_eq!(CellActionDirection::from_u32(0), Some(CellActionDirection::Left));
    assert_eq!(CellActionDirection::from_u32(1), Some(CellActionDirection::Right));
    assert_eq!(CellActionDirection::from_u32(2), Some(CellActionDirection::Up));
    assert_eq!(CellActionDirection::from_u32(3), Some(CellActionDirection::Down));
    assert_eq!(CellActionDirection::from_u32(4), Some(CellActionDirection::LeftUp));
    assert_eq!(CellActionDirection::from_u32(5), Some(CellActionDirection::LeftDown));
    assert_eq!(CellActionDirection::from_u32(6), Some(CellActionDirection::RightUp));
    assert_eq!(CellActionDirection::from_u32(7), Some(CellActionDirection::RightDown));
    assert_eq!(CellActionDirection::from_u32(8), None);
    assert_eq!(CellActionDirection::from_u32(255), None);
}

#[test]
fn build_without_a_size_is_an_absence() {
    assert!(Builder::create().build().is_none());
    assert!(Builder::create().add(Attribute::BoardSetup(SetupKind::Bar)).build().is_none());
}

#[test]
fn build_with_a_zero_dimension_is_an_absence() {
    assert!(Builder::create().add(Attribute::BoardSize(0, 5)).build().is_none());
    assert!(Builder::create().add(Attribute::BoardSize(5, 0)).build().is_none());
}

#[test]
fn build_too_small_for_the_pattern_is_an_absence() {
    assert!(
        Builder::create()
            .add(Attribute::BoardSize(2, 2))
            .add(Attribute::BoardSetup(SetupKind::Bar))
            .build()
            .is_none()
    );
}

#[test]
fn build_bar_lights_three_cells() {
    let ctx = board(5, 5, SetupKind::Bar);
    assert_eq!(ctx.board_size, (5, 5));
    assert_eq!(ctx.cnt, 0);
    let mut alive = Vec::new();
    for y in 0..5 {
        for x in 0..5 {
            if ctx.get_value(x, y).is_alive() {
                alive.push((x, y));
            }
        }
    }
    assert_eq!(alive, vec![(3, 1), (3, 2), (3, 3)]);
}

#[test]
fn build_random_fills_the_board() {
    let ctx = board(6, 4, SetupKind::Random);
    assert_eq!(ctx.get_data().len(), 24);
}

#[test]
fn tick_turns_the_bar() {
    // a vertical three-cell bar is a blinker: one tick turns it horizontal
    let mut ctx = board(6, 6, SetupKind::Bar);
    ctx.tick();
    assert_eq!(ctx.cnt, 1);
    let mut alive = Vec::new();
    for y in 0..6 {
        for x in 0..6 {
            if ctx.get_value(x, y).is_alive() {
                alive.push((x, y));
            }
        }
    }
    assert_eq!(alive, vec![(2, 2), (3, 2), (4, 2)]);
    // and a second tick turns it back
    ctx.tick();
    let mut alive = Vec::new();
    for y in 0..6 {
        for x in 0..6 {
            if ctx.get_value(x, y).is_alive() {
                alive.push((x, y));
            }
        }
    }
    assert_eq!(alive, vec![(3, 1), (3, 2), (3, 3)]);
}

#[test]
fn tick_keeps_a_block_still() {
    let mut ctx = board(6, 6, SetupKind::Block);
    let before: Vec<Cell> = ctx.get_data().clone();
    ctx.tick();
    assert_eq!(ctx.get_data(), &before);
    assert_eq!(ctx.cnt, 1);
}

#[test]
fn tick_records_births_and_deaths() {
    let mut ctx = board(6, 6, SetupKind::Bar);
    ctx.tick();
    // the bar's ends die, the side cells are born
    let killed = ctx.get_killed().clone();
    let born = ctx.get_born().clone();
    let top = ctx.get_index(3, 1);
    let bottom = ctx.get_index(3, 3);
    let left = ctx.get_index(2, 2);
    let right = ctx.get_index(4, 2);
    assert!(killed.contains(&top) && killed.contains(&bottom));
    assert!(born.contains(&left) && born.contains(&right));
    assert!(!killed.contains(&ctx.get_index(3, 2)));
}

#[test]
fn relative_indices_wrap_at_the_edges() {
    let ctx = board(5, 5, SetupKind::Bar);
    assert_eq!(ctx.get_index(2, 3), 17);
    assert_eq!(ctx.get_index_relative(0, 0, CellActionDirection::Left), ctx.get_index(4, 0));
    assert_eq!(ctx.get_index_relative(0, 0, CellActionDirection::Up), ctx.get_index(0, 4));
    assert_eq!(
        ctx.get_index_relative(4, 4, CellActionDirection::RightDown),
        ctx.get_index(0, 0)
    );
    assert_eq!(
        ctx.get_index_relative(2, 2, CellActionDirection::LeftUp),
        ctx.get_index(1, 1)
    );
}

#[test]
fn shift_moves_every_living_cell() {
    let mut ctx = board(6, 6, SetupKind::Bar);
    ctx.shift(CellActionDirection::Right);
    let mut alive = Vec::new();
    for y in 0..6 {
        for x in 0..6 {
            if ctx.get_value(x, y).is_alive() {
                alive.push((x, y));
            }
        }
    }
    assert_eq!(alive, vec![(4, 1), (4, 2), (4, 3)]);
}

#[test]
fn shift_wraps_at_the_edge() {
    let mut ctx = board(4, 4, SetupKind::Block);
    // block occupies x in 2..=3; shifting right wraps column 3 to column 0
    ctx.shift(CellActionDirection::Right);
    let mut alive = Vec::new();
    for y in 0..4 {
        for x in 0..4 {
            if ctx.get_value(x, y).is_alive() {
                alive.push((x, y));
            }
        }
    }
    assert_eq!(alive, vec![(0, 1), (3, 1), (0, 2), (3, 2)]);
}

#[test]
fn glider_pattern_seeds_five_cells() {
    let ctx = board(8, 8, SetupKind::Glider);
    let mut count = 0;
    for y in 0..8 {
        for x in 0..8 {
            if ctx.get_value(x, y).is_alive() {
                count += 1;
            }
        }
    }
    assert_eq!(count, 5);
}

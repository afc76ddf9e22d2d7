use sleigh::board::{Board, Team, Terminal};

const EMPTY_BOARD: &str = "\u{2b1c}\u{2b1b}\u{2b1b}\u{2b1b}\u{2b1b}\u{2b1c}\n\u{2b1c}\u{2b1b}\u{2b1b}\u{2b1b}\u{2b1b}\u{2b1c}\n\u{2b1c}\u{2b1b}\u{2b1b}\u{2b1b}\u{2b1b}\u{2b1c}\n\u{2b1c}\u{2b1b}\u{2b1b}\u{2b1b}\u{2b1b}\u{2b1c}\n\u{2b1c}\u{2b1c}\u{2b1c}\u{2b1c}\u{2b1c}\u{2b1c}\n";

#[test]
fn empty_board_renders_walls_and_empty_cells() {
    let b = Board::new();
    assert_eq!(b.render(), EMPTY_BOARD);
}

#[test]
fn pieces_fall_to_the_lowest_empty_row() {
    let mut b = Board::new();
    assert!(b.place(0, Team::Cookie).is_ok());
    assert_eq!(b.at(3, 0), Some(Team::Cookie));
    assert!(b.place(0, Team::Milk).is_ok());
    assert_eq!(b.at(2, 0), Some(Team::Milk));
    assert_eq!(b.at(3, 0), Some(Team::Cookie));
}

#[test]
fn full_column_refuses_a_fifth_piece() {
    let mut b = Board::new();
    for _ in 0..2 {
        assert!(b.place(1, Team::Cookie).is_ok());
        assert!(b.place(1, Team::Milk).is_ok());
    }
    assert!(b.place(1, Team::Cookie).is_err());
}

#[test]
fn four_in_a_column_wins_and_freezes_the_board() {
    let mut b = Board::new();
    for _ in 0..4 {
        assert!(b.place(2, Team::Cookie).is_ok());
    }
    let rendered = b.render();
    assert!(rendered.ends_with("\u{1f36a} wins!\n"));
    // The game has ended: no further placement, anywhere.
    assert!(b.place(0, Team::Milk).is_err());
}

#[test]
fn four_in_a_row_wins_for_milk() {
    let mut b = Board::new();
    for c in 0..4 {
        assert!(b.place(c, Team::Milk).is_ok());
    }
    assert!(b.render().ends_with("\u{1f95b} wins!\n"));
}

#[test]
fn a_full_grid_without_four_in_a_row_is_a_draw() {
    let mut b = Board::new();
    // Bottom-up per column: no row, column or diagonal of one team.
    let columns: [[Team; 4]; 4] = [
        [Team::Milk, Team::Milk, Team::Cookie, Team::Cookie],
        [Team::Cookie, Team::Cookie, Team::Milk, Team::Milk],
        [Team::Milk, Team::Milk, Team::Cookie, Team::Cookie],
        [Team::Cookie, Team::Cookie, Team::Milk, Team::Milk],
    ];
    for c in 0..4 {
        for t in columns[c] {
            assert!(b.place(c, t).is_ok());
        }
    }
    assert!(b.render().ends_with("No winner.\n"));
}

#[test]
fn check_four_requires_four_equal_pieces() {
    let c = Some(Team::Cookie);
    let m = Some(Team::Milk);
    assert_eq!(Board::check_four(c, c, c, c), Some(Terminal::Win(Team::Cookie)));
    assert_eq!(Board::check_four(m, m, m, m), Some(Terminal::Win(Team::Milk)));
    assert_eq!(Board::check_four(c, c, m, c), None);
    assert_eq!(Board::check_four(None, None, None, None), None);
    assert_eq!(Board::check_four(None, c, c, c), None);
}

#[test]
fn random_board_is_full_and_seed_determined() {
    let mut r1: rand::rngs::StdRng = rand::SeedableRng::seed_from_u64(2024);
    let mut r2: rand::rngs::StdRng = rand::SeedableRng::seed_from_u64(2024);
    let b1 = Board::random(&mut r1);
    let b2 = Board::random(&mut r2);
    for r in 0..4 {
        for c in 0..4 {
            assert!(b1.at(r, c).is_some());
            assert_eq!(b1.at(r, c), b2.at(r, c));
        }
    }
    assert_eq!(b1.render(), b2.render());
}

#[test]
fn default_board_is_empty() {
    let b = Board::default();
    assert_eq!(b.render(), EMPTY_BOARD);
}

use game_of_life::board::{Board, Cell};

#[test]
fn test_dead_state() {
    let dead_state = Board::dead_state(4, 4);
    assert!(dead_state
        .state
        .iter()
        .all(|row| row.iter().all(|state| *state == Cell::Dead)))
}

#[test]
fn test_random_state() {
    // Each cell is alive with probability 15/100; a 10-by-10 board comes
    // out all dead with probability 0.85^100, which never happens in
    // practice.
    let random_state = Board::random_state(10, 10);
    assert!(random_state
        .state
        .iter()
        .any(|row| row.iter().any(|state| *state == Cell::Alive)))
}

#[test]
fn test_dead_stay_dead() {
    let inital_state = Board {
        state: vec![
            vec![Cell::Dead, Cell::Dead, Cell::Dead],
            vec![Cell::Dead, Cell::Dead, Cell::Dead],
            vec![Cell::Dead, Cell::Dead, Cell::Dead],
        ],
        size: (3, 3),
    };
    let expected_state = Board {
        state: vec![
            vec![Cell::Dead, Cell::Dead, Cell::Dead],
            vec![Cell::Dead, Cell::Dead, Cell::Dead],
            vec![Cell::Dead, Cell::Dead, Cell::Dead],
        ],
        size: (3, 3),
    };
    let next_state = inital_state.next_board_state();

    assert!(next_state == expected_state);
}

#[test]
fn test_should_come_alive() {
    let inital_state = Board {
        state: vec![
            vec![Cell::Dead, Cell::Dead, Cell::Alive],
            vec![Cell::Dead, Cell::Alive, Cell::Alive],
            vec![Cell::Dead, Cell::Dead, Cell::Dead],
        ],
        size: (3, 3),
    };
    let expected_state = Board {
        state: vec![
            vec![Cell::Dead, Cell::Alive, Cell::Alive],
            vec![Cell::Dead, Cell::Alive, Cell::Alive],
            vec![Cell::Dead, Cell::Dead, Cell::Dead],
        ],
        size: (3, 3),
    };
    let next_state = inital_state.next_board_state();

    assert!(next_state == expected_state);
}

#[test]
fn test_should_die_and_come_alive() {
    let inital_state = Board {
        state: vec![
            vec![Cell::Alive, Cell::Alive, Cell::Alive],
            vec![Cell::Dead, Cell::Alive, Cell::Alive],
            vec![Cell::Dead, Cell::Dead, Cell::Dead],
        ],
        size: (3, 3),
    };
    let expected_state = Board {
        state: vec![
            vec![Cell::Alive, Cell::Dead, Cell::Alive],
            vec![Cell::Alive, Cell::Dead, Cell::Alive],
            vec![Cell::Dead, Cell::Dead, Cell::Dead],
        ],
        size: (3, 3),
    };
    let next_state = inital_state.next_board_state();

    assert!(next_state == expected_state);
}

#[test]
fn test_random_state_dimensions() {
    let board = Board::random_state(5, 2);
    assert_eq!(board.size, (5, 2));
    assert_eq!(board.state.len(), 2);
    assert!(board.state.iter().all(|row| row.len() == 5));
}

#[test]
fn test_single_alive_cell_dies() {
    // On a 1x1 board the only cell has no neighbours, so it dies.
    let initial = Board {
        state: vec![vec![Cell::Alive]],
        size: (1, 1),
    };
    let expected = Board {
        state: vec![vec![Cell::Dead]],
        size: (1, 1),
    };
    assert!(initial.next_board_state() == expected);
}

#[test]
fn test_single_dead_cell_stays_dead() {
    let initial = Board {
        state: vec![vec![Cell::Dead]],
        size: (1, 1),
    };
    let expected = Board {
        state: vec![vec![Cell::Dead]],
        size: (1, 1),
    };
    assert!(initial.next_board_state() == expected);
}

#[test]
fn test_blinker_oscillates_not_idempotent() {
    // A vertical blinker turns horizontal and back: the transition is not
    // idempotent, two steps differ from one.
    let blinker = Board {
        state: vec![
            vec![Cell::Dead, Cell::Alive, Cell::Dead],
            vec![Cell::Dead, Cell::Alive, Cell::Dead],
            vec![Cell::Dead, Cell::Alive, Cell::Dead],
        ],
        size: (3, 3),
    };
    let horizontal = Board {
        state: vec![
            vec![Cell::Dead, Cell::Dead, Cell::Dead],
            vec![Cell::Alive, Cell::Alive, Cell::Alive],
            vec![Cell::Dead, Cell::Dead, Cell::Dead],
        ],
        size: (3, 3),
    };
    let once = blinker.next_board_state();
    let twice = once.next_board_state();
    assert_eq!(once, horizontal);
    assert_ne!(twice, once);
    assert_eq!(twice, blinker);
}

#[test]
fn test_render_all_dead() {
    // Three lines of 2 * 2 spaces, joined by line breaks.
    let board = Board::dead_state(2, 3);
    assert_eq!(board.render(), "    \n    \n    ");
}

#[test]
fn test_render_all_alive() {
    let board = Board {
        state: vec![
            vec![Cell::Alive, Cell::Alive],
            vec![Cell::Alive, Cell::Alive],
        ],
        size: (2, 2),
    };
    let line = "\u{2588}".repeat(4);
    let expected = format!("{}\n{}", line, line);
    assert_eq!(board.render(), expected);
}

#[test]
fn test_render_mixed_row() {
    let board = Board {
        state: vec![vec![Cell::Alive, Cell::Dead]],
        size: (2, 1),
    };
    assert_eq!(board.render(), "\u{2588}\u{2588}  ");
}

#[test]
fn test_degenerate_boards() {
    let none = Board::dead_state(0, 0);
    assert_eq!(none.render(), "");
    assert_eq!(none.next_board_state(), Board::dead_state(0, 0));

    let no_width = Board::dead_state(0, 3);
    assert_eq!(no_width.render(), "\n\n");
    assert_eq!(no_width.next_board_state(), Board::dead_state(0, 3));

    let no_height = Board::dead_state(3, 0);
    assert_eq!(no_height.render(), "");
    assert_eq!(no_height.next_board_state(), Board::dead_state(3, 0));
}

#[test]
fn test_dead_board_is_fixed_point() {
    let board = Board::dead_state(7, 5);
    assert_eq!(board.next_board_state(), Board::dead_state(7, 5));
}

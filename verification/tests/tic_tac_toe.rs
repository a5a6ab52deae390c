use chain_consensus::state_machine::StateMachine;
use chain_consensus::tic_tac_toe::{
    count_marks, has_line, Board, State, TTTSymbol, TicTacToeSystem, Transition,
};

fn position(
    data: [[TTTSymbol; 3]; 3],
    num_transitions: u8,
    last_mover: TTTSymbol,
    match_complete: bool,
) -> State {
    State::from_parts(Board::new(data), num_transitions, last_mover, match_complete)
        .expect("no more moves than marks")
}

#[test]
fn reset_new_dashboard() {
    let start = State::new();
    let end = TicTacToeSystem::next_state(&start, &Transition::Reset);
    assert_eq!(end, start);
}

#[test]
fn test_xxin00() {
    let start = State::new();
    let end = TicTacToeSystem::next_state(
        &start,
        &Transition::MarkCell { symbol: TTTSymbol::X, row: 0, col: 0 },
    );
    let expected = position(
        [
            [TTTSymbol::X, TTTSymbol::Blank, TTTSymbol::Blank],
            [TTTSymbol::Blank, TTTSymbol::Blank, TTTSymbol::Blank],
            [TTTSymbol::Blank, TTTSymbol::Blank, TTTSymbol::Blank],
        ],
        1,
        TTTSymbol::X,
        false,
    );
    assert_eq!(end, expected);
}

#[test]
#[allow(non_snake_case)]
fn test_insertBlankFails() {
    let start = State::new();
    let end = TicTacToeSystem::next_state(
        &start,
        &Transition::MarkCell { symbol: TTTSymbol::Blank, row: 0, col: 0 },
    );
    let expected = position(
        [
            [TTTSymbol::Blank, TTTSymbol::Blank, TTTSymbol::Blank],
            [TTTSymbol::Blank, TTTSymbol::Blank, TTTSymbol::Blank],
            [TTTSymbol::Blank, TTTSymbol::Blank, TTTSymbol::Blank],
        ],
        0,
        TTTSymbol::Blank,
        false,
    );
    assert_eq!(end, expected);
}

#[test]
fn test_diagonal_wis() {
    let start = position(
        [
            [TTTSymbol::X, TTTSymbol::O, TTTSymbol::Blank],
            [TTTSymbol::O, TTTSymbol::X, TTTSymbol::Blank],
            [TTTSymbol::Blank, TTTSymbol::Blank, TTTSymbol::Blank],
        ],
        2,
        TTTSymbol::O,
        false,
    );
    let end = TicTacToeSystem::next_state(
        &start,
        &Transition::MarkCell { symbol: TTTSymbol::X, row: 2, col: 2 },
    );

    let expected = position(
        [
            [TTTSymbol::X, TTTSymbol::O, TTTSymbol::Blank],
            [TTTSymbol::O, TTTSymbol::X, TTTSymbol::Blank],
            [TTTSymbol::Blank, TTTSymbol::Blank, TTTSymbol::X],
        ],
        3,
        TTTSymbol::X,
        true,
    );
    assert_eq!(end, expected);
}

#[test]
#[allow(non_snake_case)]
fn test_matchCompleteNoWinner() {
    let start = position(
        [
            [TTTSymbol::X, TTTSymbol::O, TTTSymbol::O],
            [TTTSymbol::O, TTTSymbol::X, TTTSymbol::X],
            [TTTSymbol::X, TTTSymbol::O, TTTSymbol::Blank],
        ],
        8,
        TTTSymbol::X,
        false,
    );
    let end = TicTacToeSystem::next_state(
        &start,
        &Transition::MarkCell { symbol: TTTSymbol::O, row: 2, col: 2 },
    );

    let expected = position(
        [
            [TTTSymbol::X, TTTSymbol::O, TTTSymbol::O],
            [TTTSymbol::O, TTTSymbol::X, TTTSymbol::X],
            [TTTSymbol::X, TTTSymbol::O, TTTSymbol::O],
        ],
        9,
        TTTSymbol::O,
        true,
    );
    assert_eq!(end, expected);
}

#[test]
fn from_parts_refuses_more_moves_than_marks() {
    let blank = [[TTTSymbol::Blank; 3]; 3];
    assert!(State::from_parts(Board::new(blank), 1, TTTSymbol::X, false).is_none());
    assert!(State::from_parts(Board::new(blank), 0, TTTSymbol::X, false).is_some());
}

#[test]
fn reset_gives_the_opening_position() {
    let mut state = position(
        [
            [TTTSymbol::X, TTTSymbol::O, TTTSymbol::Blank],
            [TTTSymbol::Blank, TTTSymbol::Blank, TTTSymbol::Blank],
            [TTTSymbol::Blank, TTTSymbol::Blank, TTTSymbol::Blank],
        ],
        2,
        TTTSymbol::O,
        false,
    );
    state.reset();
    assert_eq!(state, State::new());
}

#[test]
fn a_finished_match_ignores_every_transition() {
    let done = position(
        [
            [TTTSymbol::X, TTTSymbol::X, TTTSymbol::X],
            [TTTSymbol::O, TTTSymbol::O, TTTSymbol::Blank],
            [TTTSymbol::Blank, TTTSymbol::Blank, TTTSymbol::Blank],
        ],
        5,
        TTTSymbol::X,
        true,
    );
    assert_eq!(TicTacToeSystem::next_state(&done, &Transition::Reset), done);
    let mark = Transition::MarkCell { symbol: TTTSymbol::O, row: 2, col: 2 };
    assert_eq!(TicTacToeSystem::next_state(&done, &mark), done);
}

#[test]
fn a_mark_out_of_turn_or_off_the_board_changes_nothing() {
    let start = State::new();
    let first = TicTacToeSystem::next_state(
        &start,
        &Transition::MarkCell { symbol: TTTSymbol::X, row: 1, col: 1 },
    );
    let again = Transition::MarkCell { symbol: TTTSymbol::X, row: 0, col: 0 };
    assert_eq!(TicTacToeSystem::next_state(&first, &again), first);
    let outside = Transition::MarkCell { symbol: TTTSymbol::O, row: 3, col: 0 };
    assert_eq!(TicTacToeSystem::next_state(&first, &outside), first);
    let wide = Transition::MarkCell { symbol: TTTSymbol::O, row: 0, col: 3 };
    assert_eq!(TicTacToeSystem::next_state(&first, &wide), first);
}

#[test]
fn a_mark_on_a_taken_cell_is_not_put_down() {
    let start = State::new();
    let first = TicTacToeSystem::next_state(
        &start,
        &Transition::MarkCell { symbol: TTTSymbol::X, row: 1, col: 1 },
    );
    let taken = Transition::MarkCell { symbol: TTTSymbol::O, row: 1, col: 1 };
    assert_eq!(TicTacToeSystem::next_state(&first, &taken), first);
}

#[test]
fn lines_are_found_in_rows_columns_and_diagonals() {
    let x = TTTSymbol::X;
    let o = TTTSymbol::O;
    let b = TTTSymbol::Blank;
    assert!(has_line(&Board::new([[b, b, b], [o, o, o], [b, b, b]]), o));
    assert!(has_line(&Board::new([[b, b, x], [o, o, x], [b, b, x]]), x));
    assert!(has_line(&Board::new([[b, b, x], [o, x, o], [x, b, b]]), x));
    assert!(has_line(&Board::new([[o, b, x], [o, o, b], [x, b, o]]), o));
    assert!(!has_line(&Board::new([[o, b, x], [o, o, b], [x, b, o]]), x));
    assert!(!has_line(&Board::new([[x, o, o], [o, x, x], [x, o, o]]), x));
    assert!(!has_line(&Board::new([[x, o, o], [o, x, x], [x, o, o]]), o));
}

#[test]
fn marks_are_counted() {
    let x = TTTSymbol::X;
    let o = TTTSymbol::O;
    let b = TTTSymbol::Blank;
    assert_eq!(count_marks(&Board::new([[b, b, b], [b, b, b], [b, b, b]])), 0);
    assert_eq!(count_marks(&Board::new([[x, b, b], [b, o, b], [b, b, x]])), 3);
    assert_eq!(count_marks(&Board::new([[x, o, x], [x, o, o], [o, x, x]])), 9);
}

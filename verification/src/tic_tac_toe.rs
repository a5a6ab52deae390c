//! Tic-tac-toe as a state machine: two players mark the cells of a three by
//! three board in turn until one of them owns a line or the board is full.

use crate::state_machine::StateMachine;
use vstd::prelude::*;

verus! {

/// What a cell holds.
#[derive(Clone, Copy, Debug, PartialEq, Eq, Structural)]
pub enum TTTSymbol {
    X,
    O,
    Blank,
}

/// A board of `ROWS` by `COLS` cells.
#[derive(Clone, Copy, Debug, PartialEq, Eq)]
pub struct Board<T, const ROWS: usize, const COLS: usize> {
    pub data: [[T; COLS]; ROWS],
}

impl<T, const ROWS: usize, const COLS: usize> View for Board<T, ROWS, COLS> {
    type V = Seq<Seq<T>>;

    /// The rows of the board, each a sequence of cells.
    open spec fn view(&self) -> Seq<Seq<T>> {
        Seq::new(ROWS as nat, |row: int| self.data[row]@)
    }
}

impl<T, const ROWS: usize, const COLS: usize> Board<T, ROWS, COLS> {
    /// The board with the given rows.
    pub fn new(data: [[T; COLS]; ROWS]) -> (board: Self)
        ensures
            board.data == data,
    {
        Self { data }
    }
}

/// The number of rows of the game's board.
pub const N_ROWS: usize = 3;

/// The number of columns of the game's board.
pub const N_COLS: usize = 3;

/// The board of the game.
pub type TTTBoard = Board<TTTSymbol, N_ROWS, N_COLS>;

/// Whether every cell of row `row` holds `symbol`.
pub open spec fn owns_row(cells: Seq<Seq<TTTSymbol>>, row: int, symbol: TTTSymbol) -> bool {
    cells[row][0] == symbol && cells[row][1] == symbol && cells[row][2] == symbol
}

/// Whether every cell of column `col` holds `symbol`.
pub open spec fn owns_column(cells: Seq<Seq<TTTSymbol>>, col: int, symbol: TTTSymbol) -> bool {
    cells[0][col] == symbol && cells[1][col] == symbol && cells[2][col] == symbol
}

/// Whether `symbol` fills a row, a column or one of the two diagonals.
pub open spec fn owns_line(cells: Seq<Seq<TTTSymbol>>, symbol: TTTSymbol) -> bool {
    ||| owns_row(cells, 0, symbol)
    ||| owns_row(cells, 1, symbol)
    ||| owns_row(cells, 2, symbol)
    ||| owns_column(cells, 0, symbol)
    ||| owns_column(cells, 1, symbol)
    ||| owns_column(cells, 2, symbol)
    ||| (cells[0][0] == symbol && cells[1][1] == symbol && cells[2][2] == symbol)
    ||| (cells[0][2] == symbol && cells[1][1] == symbol && cells[2][0] == symbol)
}

/// 1 for a marked cell, 0 for a blank one.
pub open spec fn mark_at(cells: Seq<Seq<TTTSymbol>>, row: int, col: int) -> nat {
    if cells[row][col] == TTTSymbol::Blank {
        0
    } else {
        1
    }
}

/// The number of marked cells in row `row`.
pub open spec fn marks_in_row(cells: Seq<Seq<TTTSymbol>>, row: int) -> nat {
    mark_at(cells, row, 0) + mark_at(cells, row, 1) + mark_at(cells, row, 2)
}

/// The number of marked cells on the board.
pub open spec fn marks(cells: Seq<Seq<TTTSymbol>>) -> nat {
    marks_in_row(cells, 0) + marks_in_row(cells, 1) + marks_in_row(cells, 2)
}

/// The board without a mark.
pub open spec fn blank_cells() -> Seq<Seq<TTTSymbol>> {
    Seq::new(3, |row: int| Seq::new(3, |col: int| TTTSymbol::Blank))
}

/// A position of the game. The count of moves never exceeds the number of
/// marks on the board.
#[derive(Clone, Copy, Debug, PartialEq, Eq)]
pub struct State {
    board: TTTBoard,
    num_transitions: u8,
    last_mover: TTTSymbol,
    match_complete: bool,
}

/// A position as a value.
pub ghost struct StateView {
    /// The rows of the board.
    pub board: Seq<Seq<TTTSymbol>>,
    /// The number of moves made.
    pub num_transitions: nat,
    /// Who moved last, `Blank` before the first move.
    pub last_mover: TTTSymbol,
    /// Whether the match is over.
    pub match_complete: bool,
}

/// The position before the first move.
pub open spec fn opening() -> StateView {
    StateView {
        board: blank_cells(),
        num_transitions: 0,
        last_mover: TTTSymbol::Blank,
        match_complete: false,
    }
}

impl View for State {
    type V = StateView;

    closed spec fn view(&self) -> StateView {
        StateView {
            board: self.board@,
            num_transitions: self.num_transitions as nat,
            last_mover: self.last_mover,
            match_complete: self.match_complete,
        }
    }
}

impl State {
    #[verifier::type_invariant]
    spec fn counts_no_more_than_marks(self) -> bool {
        self.num_transitions <= marks(self.board@)
    }

    /// The position before the first move.
    pub fn new() -> (state: Self)
        ensures
            state@ == opening(),
    {
        let state = State {
            board: TTTBoard {
                data: [
                    [TTTSymbol::Blank, TTTSymbol::Blank, TTTSymbol::Blank],
                    [TTTSymbol::Blank, TTTSymbol::Blank, TTTSymbol::Blank],
                    [TTTSymbol::Blank, TTTSymbol::Blank, TTTSymbol::Blank],
                ],
            },
            last_mover: TTTSymbol::Blank,
            num_transitions: 0,
            match_complete: false,
        };
        assert(state.board@ =~~= blank_cells());
        state
    }

    /// Goes back to the position before the first move.
    pub fn reset(&mut self)
        ensures
            final(self)@ == opening(),
    {
        *self = State::new();
    }

    /// The board of this position.
    pub fn board(&self) -> (board: TTTBoard)
        ensures
            board@ == self@.board,
    {
        self.board
    }

    /// The number of moves made, which is never more than the number of
    /// marks on the board.
    pub fn num_transitions(&self) -> (moves: u8)
        ensures
            moves == self@.num_transitions,
            moves <= marks(self@.board) <= 9,
    {
        proof {
            use_type_invariant(self);
        }
        self.num_transitions
    }

    /// Who moved last, `Blank` before the first move.
    pub fn last_mover(&self) -> (symbol: TTTSymbol)
        ensures
            symbol == self@.last_mover,
    {
        self.last_mover
    }

    /// Whether the match is over.
    pub fn match_complete(&self) -> (complete: bool)
        ensures
            complete == self@.match_complete,
    {
        self.match_complete
    }

    /// The position with the given parts, or `None` where more moves are
    /// counted than cells are marked.
    pub fn from_parts(
        board: TTTBoard,
        num_transitions: u8,
        last_mover: TTTSymbol,
        match_complete: bool,
    ) -> (state: Option<Self>)
        ensures
            state is Some <==> num_transitions <= marks(board@),
            state matches Some(s) ==> s@ == (StateView {
                board: board@,
                num_transitions: num_transitions as nat,
                last_mover,
                match_complete,
            }),
    {
        if num_transitions <= count_marks(&board) {
            Some(State { board, num_transitions, last_mover, match_complete })
        } else {
            None
        }
    }
}

/// Whether `cells` has the shape of the board: three rows of three cells.
pub open spec fn three_by_three(cells: Seq<Seq<TTTSymbol>>) -> bool {
    cells.len() == 3 && cells[0].len() == 3 && cells[1].len() == 3 && cells[2].len() == 3
}

/// `cells` with `symbol` in the cell at `row` and `col`.
pub open spec fn marked(cells: Seq<Seq<TTTSymbol>>, row: int, col: int, symbol: TTTSymbol) -> Seq<
    Seq<TTTSymbol>,
> {
    cells.update(row, cells[row].update(col, symbol))
}

/// A mark in a blank cell is one mark more on the board.
pub proof fn lemma_mark_counts(cells: Seq<Seq<TTTSymbol>>, row: int, col: int, symbol: TTTSymbol)
    requires
        three_by_three(cells),
        0 <= row < 3,
        0 <= col < 3,
        cells[row][col] == TTTSymbol::Blank,
        symbol != TTTSymbol::Blank,
    ensures
        marks(marked(cells, row, col, symbol)) == marks(cells) + 1,
{
    let after = marked(cells, row, col, symbol);
    assert forall|r: int| 0 <= r < 3 && r != row implies marks_in_row(after, r) == marks_in_row(
        cells,
        r,
    ) by {}
    assert forall|c: int| 0 <= c < 3 && c != col implies mark_at(after, row, c) == mark_at(
        cells,
        row,
        c,
    ) by {}
    assert(mark_at(after, row, col) == mark_at(cells, row, col) + 1);
    assert(marks_in_row(after, row) == marks_in_row(cells, row) + 1);
}

/// Puts `symbol` into the cell at `row` and `col`.
pub fn mark(board: TTTBoard, row: usize, col: usize, symbol: TTTSymbol) -> (after: TTTBoard)
    requires
        row < 3,
        col < 3,
    ensures
        after@ == marked(board@, row as int, col as int, symbol),
{
    let mut after = board;
    after.data[row][col] = symbol;
    after
}

/// Counts the marked cells of a board.
pub fn count_marks(board: &TTTBoard) -> (count: u8)
    ensures
        count == marks(board@),
{
    let mut count: u8 = 0;
    let mut row: usize = 0;
    while row < N_ROWS
        invariant
            row <= 3,
            count == if row == 0 {
                0
            } else if row == 1 {
                marks_in_row(board@, 0)
            } else if row == 2 {
                marks_in_row(board@, 0) + marks_in_row(board@, 1)
            } else {
                marks(board@)
            },
        decreases 3 - row,
    {
        let mut col: usize = 0;
        let ghost before = count;
        while col < N_COLS
            invariant
                row < 3,
                col <= 3,
                before <= 6,
                count == before + if col == 0 {
                    0
                } else if col == 1 {
                    mark_at(board@, row as int, 0)
                } else if col == 2 {
                    mark_at(board@, row as int, 0) + mark_at(board@, row as int, 1)
                } else {
                    marks_in_row(board@, row as int)
                },
            decreases 3 - col,
        {
            if board.data[row][col] != TTTSymbol::Blank {
                count += 1;
            }
            col += 1;
        }
        row += 1;
    }
    count
}

/// Tells whether `symbol` fills a row, a column or a diagonal of the board.
pub fn has_line(board: &TTTBoard, symbol: TTTSymbol) -> (found: bool)
    ensures
        found == owns_line(board@, symbol),
{
    let mut found = false;
    let mut i: usize = 0;
    while i < N_ROWS
        invariant
            i <= 3,
            found == exists|k: int|
                0 <= k < i && (owns_row(board@, k, symbol) || owns_column(board@, k, symbol)),
        decreases 3 - i,
    {
        let row = board.data[i][0] == symbol && board.data[i][1] == symbol && board.data[i][2]
            == symbol;
        let column = board.data[0][i] == symbol && board.data[1][i] == symbol && board.data[2][i]
            == symbol;
        assert(row == owns_row(board@, i as int, symbol));
        assert(column == owns_column(board@, i as int, symbol));
        if row || column {
            found = true;
        }
        i += 1;
    }
    let falling = board.data[0][0] == symbol && board.data[1][1] == symbol && board.data[2][2]
        == symbol;
    let rising = board.data[0][2] == symbol && board.data[1][1] == symbol && board.data[2][0]
        == symbol;
    found || falling || rising
}

/// A move of the game.
#[derive(Clone, Copy, Debug, PartialEq, Eq)]
pub enum Transition {
    /// Put `symbol` into the cell at `row` and `col`.
    MarkCell { symbol: TTTSymbol, row: usize, col: usize },
    /// Start over.
    Reset,
}

/// The game as a state machine.
pub struct TicTacToeSystem;

impl StateMachine for TicTacToeSystem {
    type State = State;

    type Transition = Transition;

    /// A finished match stays as it is, whatever happens. `Reset` gives the
    /// opening position. A mark by the player who moved last, or outside
    /// the board, changes nothing. Any other mark is put down if it is not
    /// `Blank` and the cell is; the match is then over once a player owns a
    /// line or nine moves have been made.
    open spec fn next(starting: StateView, t: Transition) -> StateView {
        if starting.match_complete {
            starting
        } else {
            match t {
                Transition::Reset => opening(),
                Transition::MarkCell { symbol, row, col } => {
                    if symbol == starting.last_mover || row >= 3 || col >= 3 {
                        starting
                    } else {
                        let placed = starting.board[row as int][col as int] == TTTSymbol::Blank
                            && symbol != TTTSymbol::Blank;
                        let board = if placed {
                            marked(starting.board, row as int, col as int, symbol)
                        } else {
                            starting.board
                        };
                        let moves = if placed {
                            starting.num_transitions + 1
                        } else {
                            starting.num_transitions
                        };
                        StateView {
                            board,
                            num_transitions: moves,
                            last_mover: if placed {
                                symbol
                            } else {
                                starting.last_mover
                            },
                            match_complete: owns_line(board, TTTSymbol::X) || owns_line(
                                board,
                                TTTSymbol::O,
                            ) || moves == 9,
                        }
                    }
                },
            }
        }
    }

    fn next_state(starting_state: &State, t: &Transition) -> (next: State) {
        proof {
            use_type_invariant(starting_state);
        }
        if starting_state.match_complete {
            return *starting_state;
        }
        match t {
            Transition::Reset => State::new(),
            Transition::MarkCell { symbol, row, col } => {
                if *symbol == starting_state.last_mover || *row >= N_ROWS || *col >= N_COLS {
                    return *starting_state;
                }
                let mut board = starting_state.board;
                let mut moves = starting_state.num_transitions;
                let mut last_mover = starting_state.last_mover;
                if board.data[*row][*col] == TTTSymbol::Blank && *symbol != TTTSymbol::Blank {
                    proof {
                        lemma_mark_counts(board@, *row as int, *col as int, *symbol);
                    }
                    board = mark(board, *row, *col, *symbol);
                    moves = moves + 1;
                    last_mover = *symbol;
                }
                let complete = has_line(&board, TTTSymbol::X) || has_line(&board, TTTSymbol::O)
                    || moves == 9;
                State { board, num_transitions: moves, last_mover, match_complete: complete }
            },
        }
    }
}

} // verus!

//! Connect Four: the board, games between two users, and the manager that
//! keeps challenges, games in progress and win/loss statistics.
use vstd::prelude::*;
use std::collections::{HashMap, HashSet};
use crate::clock::now_precise;

verus! {

pub const ROWS: usize = 6;
pub const COLUMNS: usize = 7;

#[derive(Debug, Clone, Copy, PartialEq, Eq, Structural, PartialOrd, Ord, Hash)]
pub enum Color {
    Player1,
    Player2,
}

pub open spec fn other_color(c: Color) -> Color {
    match c {
        Color::Player1 => Color::Player2,
        Color::Player2 => Color::Player1,
    }
}

impl Color {
    pub fn other(self) -> (r: Self)
        ensures r == other_color(self),
    {
        match self {
            Color::Player1 => Color::Player2,
            Color::Player2 => Color::Player1,
        }
    }

    pub fn flip(&mut self)
        ensures *final(self) == other_color(*old(self)),
    {
        *self = self.other();
    }
}

/// Swapping colours twice gives the colour back.
pub proof fn law_other_involutive(c: Color)
    ensures other_color(other_color(c)) == c,
{
}

/// A 6-tall, 7-wide board; row 0 is the top, pieces fall towards row 5.
#[derive(Debug, Clone, Copy, PartialEq, Eq)]
pub struct Board {
    matrix: [[Option<Color>; 7]; 6],
    turn: Color,
}

pub open spec fn in_bounds(r: int, c: int) -> bool {
    0 <= r < 6 && 0 <= c < 7
}

impl Board {
    /// The piece at row `r`, column `c`.
    pub closed spec fn cell(self, r: int, c: int) -> Option<Color> {
        self.matrix@[r]@[c]
    }

    pub closed spec fn turn_spec(self) -> Color {
        self.turn
    }

    /// The lowest empty row of column `c`, searching upwards from row `r`.
    pub open spec fn lowest_empty_from(self, c: int, r: int) -> Option<int>
        decreases r + 1,
    {
        if r < 0 {
            None
        } else if self.cell(r, c) is None {
            Some(r)
        } else {
            self.lowest_empty_from(c, r - 1)
        }
    }

    /// The row a piece dropped into column `c` lands in.
    pub open spec fn lowest_empty(self, c: int) -> Option<int> {
        self.lowest_empty_from(c, 5)
    }

    /// Every cell is occupied.
    pub open spec fn is_full(self) -> bool {
        forall|r: int, c: int| in_bounds(r, c) ==> (#[trigger] self.cell(r, c)) is Some
    }

    /// Four pieces of `color` in a line from (r, c) in direction (dr, dc).
    pub open spec fn line4(self, r: int, c: int, dr: int, dc: int, color: Color) -> bool {
        &&& in_bounds(r, c)
        &&& in_bounds(r + 3 * dr, c + 3 * dc)
        &&& self.cell(r, c) == Some(color)
        &&& self.cell(r + dr, c + dc) == Some(color)
        &&& self.cell(r + 2 * dr, c + 2 * dc) == Some(color)
        &&& self.cell(r + 3 * dr, c + 3 * dc) == Some(color)
    }

    /// Four in a row, in a column, or on a diagonal of either slope.
    pub open spec fn wins(self, color: Color) -> bool {
        exists|r: int, c: int, d: int| 0 <= d < 4 && #[trigger] self.line4(r, c, dir_r(d), dir_c(d), color)
    }

    /// The board after a piece of the side to move lands in row `row` of column `c`.
    pub open spec fn placed(self, next: Board, row: int, c: int) -> bool {
        &&& next.turn_spec() == other_color(self.turn_spec())
        &&& next.cell(row, c) == Some(self.turn_spec())
        &&& forall|rr: int, cc: int| in_bounds(rr, cc) && !(rr == row && cc == c)
            ==> #[trigger] next.cell(rr, cc) == self.cell(rr, cc)
    }

    pub fn new(turn: Color) -> (r: Self)
        ensures
            r.turn_spec() == turn,
            forall|rr: int, cc: int| in_bounds(rr, cc) ==> (#[trigger] r.cell(rr, cc)) is None,
    {
        Board { matrix: [[None; 7]; 6], turn }
    }

    /// Drops a piece of the side to move into `column`; `None` when the column is full.
    pub fn apply_move(self, column: usize) -> (r: Option<Self>)
        requires column < 7,
        ensures
            match self.lowest_empty(column as int) {
                None => r is None,
                Some(row) => r matches Some(next) && self.placed(next, row, column as int),
            },
    {
        let mut row: usize = 6;
        while row > 0
            invariant
                row <= 6,
                column < 7,
                self.lowest_empty(column as int) == self.lowest_empty_from(column as int, row as int - 1),
            decreases row,
        {
            let r = row - 1;
            if self.matrix[r][column].is_none() {
                let mut board = self;
                let mut line = board.matrix[r];
                line[column] = Some(board.turn);
                board.matrix[r] = line;
                board.turn.flip();
                proof {
                    assert forall|rr: int, cc: int| in_bounds(rr, cc) && !(rr == r && cc == column)
                        implies #[trigger] board.cell(rr, cc) == self.cell(rr, cc) by {
                        if rr == r {
                            assert(board.matrix@[rr]@[cc] == line@[cc]);
                        }
                    }
                }
                return Some(board);
            }
            row = r;
        }
        None
    }

    /// Whether `column` still has room.
    pub fn is_move_legal(&self, column: usize) -> (r: bool)
        requires column < 7,
        ensures r == (exists|row: int| 0 <= row < 6 && (#[trigger] self.cell(row, column as int)) is None),
    {
        let mut row: usize = 0;
        while row < 6
            invariant
                row <= 6,
                column < 7,
                forall|rr: int| 0 <= rr < row ==> (#[trigger] self.cell(rr, column as int)) is Some,
            decreases 6 - row,
        {
            if self.matrix[row][column].is_none() {
                assert(self.cell(row as int, column as int) is None);
                return true;
            }
            row = row + 1;
        }
        false
    }

    pub fn current_turn(&self) -> (r: Color)
        ensures r == self.turn_spec(),
    {
        self.turn
    }

    pub fn matrix(&self) -> (r: [[Option<Color>; 7]; 6])
        ensures forall|rr: int, cc: int| in_bounds(rr, cc) ==> r@[rr]@[cc] == self.cell(rr, cc),
    {
        self.matrix
    }

    /// The piece at `column`, `row` (both 0-based).
    pub fn get(&self, column: usize, row: usize) -> (r: Option<Color>)
        requires
            column < 7,
            row < 6,
        ensures r == self.cell(row as int, column as int),
    {
        self.matrix[row][column]
    }

    /// The cells row by row, top to bottom.
    pub fn iter_board(&self) -> (r: Vec<Option<Color>>)
        ensures
            r@.len() == 42,
            forall|rr: int, cc: int| in_bounds(rr, cc) ==> r@[rr * 7 + cc] == self.cell(rr, cc),
    {
        let mut out: Vec<Option<Color>> = Vec::new();
        let mut row: usize = 0;
        while row < 6
            invariant
                row <= 6,
                out@.len() == row * 7,
                forall|rr: int, cc: int| 0 <= rr < row && 0 <= cc < 7 ==> out@[rr * 7 + cc] == self.cell(rr, cc),
            decreases 6 - row,
        {
            let mut col: usize = 0;
            while col < 7
                invariant
                    row < 6,
                    col <= 7,
                    out@.len() == row * 7 + col,
                    forall|rr: int, cc: int| 0 <= rr < row && 0 <= cc < 7 ==> out@[rr * 7 + cc] == self.cell(rr, cc),
                    forall|cc: int| 0 <= cc < col ==> out@[row * 7 + cc] == self.cell(row as int, cc),
                decreases 7 - col,
            {
                out.push(self.matrix[row][col]);
                col = col + 1;
            }
            row = row + 1;
        }
        out
    }

    /// Whether the board is full, so the game ends without a winner.
    pub fn is_draw(&self) -> (r: bool)
        ensures r == self.is_full(),
    {
        let mut row: usize = 0;
        while row < 6
            invariant
                row <= 6,
                forall|rr: int, cc: int| 0 <= rr < row && 0 <= cc < 7 ==> (#[trigger] self.cell(rr, cc)) is Some,
            decreases 6 - row,
        {
            let mut col: usize = 0;
            while col < 7
                invariant
                    row < 6,
                    col <= 7,
                    forall|rr: int, cc: int| 0 <= rr < row && 0 <= cc < 7 ==> (#[trigger] self.cell(rr, cc)) is Some,
                    forall|cc: int| 0 <= cc < col ==> (#[trigger] self.cell(row as int, cc)) is Some,
                decreases 7 - col,
            {
                if self.matrix[row][col].is_none() {
                    assert(self.cell(row as int, col as int) is None);
                    assert(in_bounds(row as int, col as int));
                    return false;
                }
                col = col + 1;
            }
            row = row + 1;
        }
        true
    }

    fn cell_is(&self, r: i64, c: i64, color: Color) -> (res: bool)
        requires in_bounds(r as int, c as int),
        ensures res == (self.cell(r as int, c as int) == Some(color)),
    {
        match self.matrix[r as usize][c as usize] {
            Some(x) => match (x, color) {
                (Color::Player1, Color::Player1) => true,
                (Color::Player2, Color::Player2) => true,
                _ => false,
            },
            None => false,
        }
    }

    fn has_line(&self, r: i64, c: i64, dr: i64, dc: i64, color: Color) -> (res: bool)
        requires
            -1 <= dr <= 1,
            -1 <= dc <= 1,
            0 <= r < 6,
            0 <= c < 7,
        ensures res == self.line4(r as int, c as int, dr as int, dc as int, color),
    {
        let er = r + 3 * dr;
        let ec = c + 3 * dc;
        if !(0 <= er && er < 6 && 0 <= ec && ec < 7) {
            return false;
        }
        self.cell_is(r, c, color) && self.cell_is(r + dr, c + dc, color)
            && self.cell_is(r + 2 * dr, c + 2 * dc, color) && self.cell_is(er, ec, color)
    }

    /// Whether `player` has four in a row, column or diagonal.
    pub fn is_winning_position(&self, player: Color) -> (r: bool)
        ensures r == self.wins(player),
    {
        let mut row: i64 = 0;
        while row < 6
            invariant
                0 <= row <= 6,
                forall|rr: int, cc: int, d: int| 0 <= d < 4 && rr < row
                    ==> !(#[trigger] self.line4(rr, cc, dir_r(d), dir_c(d), player)),
            decreases 6 - row,
        {
            let mut col: i64 = 0;
            while col < 7
                invariant
                    0 <= row < 6,
                    0 <= col <= 7,
                    forall|rr: int, cc: int, d: int| 0 <= d < 4 && rr < row
                        ==> !(#[trigger] self.line4(rr, cc, dir_r(d), dir_c(d), player)),
                    forall|cc: int, d: int| 0 <= d < 4 && cc < col
                        ==> !(#[trigger] self.line4(row as int, cc, dir_r(d), dir_c(d), player)),
                decreases 7 - col,
            {
                let mut d: i64 = 0;
                while d < 4
                    invariant
                        0 <= row < 6,
                        0 <= col < 7,
                        0 <= d <= 4,
                        forall|rr: int, cc: int, dd: int| 0 <= dd < 4 && rr < row
                            ==> !(#[trigger] self.line4(rr, cc, dir_r(dd), dir_c(dd), player)),
                        forall|cc: int, dd: int| 0 <= dd < 4 && cc < col
                            ==> !(#[trigger] self.line4(row as int, cc, dir_r(dd), dir_c(dd), player)),
                        forall|dd: int| 0 <= dd < d
                            ==> !(#[trigger] self.line4(row as int, col as int, dir_r(dd), dir_c(dd), player)),
                    decreases 4 - d,
                {
                    let (dr, dc): (i64, i64) = if d == 0 { (0, 1) } else if d == 1 { (1, 0) } else if d == 2 { (1, 1) } else { (-1, 1) };
                    if self.has_line(row, col, dr, dc, player) {
                        assert(self.line4(row as int, col as int, dir_r(d as int), dir_c(d as int), player));
                        return true;
                    }
                    d = d + 1;
                }
                col = col + 1;
            }
            row = row + 1;
        }
        proof {
            assert forall|rr: int, cc: int, d: int| 0 <= d < 4 implies
                !(#[trigger] self.line4(rr, cc, dir_r(d), dir_c(d), player)) by {
                if rr >= 6 {
                    assert(!in_bounds(rr, cc));
                }
            }
        }
        false
    }

    /// A view of the board drawn with `print_piece`.
    pub fn print<F: Fn(Option<Color>) -> &'static str>(self, print_piece: F) -> (r: PrintBoard<F>)
        ensures
            forall|rr: int, cc: int| in_bounds(rr, cc) ==> r.matrix@[rr]@[cc] == self.cell(rr, cc),
            r.print_piece == print_piece,
    {
        PrintBoard::new(self, print_piece)
    }
}

/// Row step of direction `d`: along a row, down a column, and the two diagonals.
pub open spec fn dir_r(d: int) -> int {
    if d == 0 { 0 } else if d == 1 { 1 } else if d == 2 { 1 } else { -1 }
}

pub open spec fn dir_c(d: int) -> int {
    if d == 0 { 1 } else { if d == 1 { 0 } else { 1 } }
}

/// A board ready to be drawn with one string per cell.
pub struct PrintBoard<F> {
    pub matrix: [[Option<Color>; 7]; 6],
    pub print_piece: F,
}

impl<F: Fn(Option<Color>) -> &'static str> PrintBoard<F> {
    pub fn new(board: Board, print_piece: F) -> (r: Self)
        ensures
            forall|rr: int, cc: int| in_bounds(rr, cc) ==> r.matrix@[rr]@[cc] == board.cell(rr, cc),
            r.print_piece == print_piece,
    {
        PrintBoard { matrix: board.matrix, print_piece }
    }
}

/// Turns the 1-based column a user typed into a 0-based column.
pub fn validate_column(value: i64) -> (r: Option<usize>)
    ensures
        r == (if 1 <= value <= 7 { Some((value - 1) as usize) } else { None::<usize> }),
{
    if 1 <= value && value <= 7 {
        Some((value - 1) as usize)
    } else {
        None
    }
}


/// Wins and losses of one user.
#[derive(Debug, Clone, Copy, PartialEq, Eq, Structural, Default)]
pub struct Stats {
    pub wins: usize,
    pub losses: usize,
}

/// The two players of a game, without order.
#[derive(Debug, Clone, Copy, PartialEq, Eq, Structural, Hash)]
pub struct PlayerPair {
    low: u64,
    high: u64,
}

impl PlayerPair {
    pub closed spec fn low_spec(self) -> u64 {
        self.low
    }

    pub closed spec fn high_spec(self) -> u64 {
        self.high
    }

    /// The same pair, whichever order the players are named in.
    pub open spec fn of(a: u64, b: u64) -> PlayerPair {
        PlayerPair::pair_spec(if a <= b { a } else { b }, if a <= b { b } else { a })
    }

    pub closed spec fn pair_spec(low: u64, high: u64) -> PlayerPair {
        PlayerPair { low, high }
    }

    pub proof fn lemma_of(a: u64, b: u64)
        ensures
            Self::of(a, b) == Self::of(b, a),
            Self::of(a, b).low_spec() == (if a <= b { a } else { b }),
            Self::of(a, b).high_spec() == (if a <= b { b } else { a }),
    {
    }

    pub fn new(a: u64, b: u64) -> (r: Self)
        ensures r == Self::of(a, b),
    {
        if a <= b { PlayerPair { low: a, high: b } } else { PlayerPair { low: b, high: a } }
    }

    pub fn contains(&self, x: u64) -> (r: bool)
        ensures r == (self.low_spec() == x || self.high_spec() == x),
    {
        self.low == x || self.high == x
    }

    /// The other member of the pair, when `x` is a member.
    pub fn other(&self, x: u64) -> (r: Option<u64>)
        ensures
            r == (if self.low_spec() == x { Some(self.high_spec()) }
                else if self.high_spec() == x { Some(self.low_spec()) } else { None::<u64> }),
    {
        if self.low == x {
            Some(self.high)
        } else if self.high == x {
            Some(self.low)
        } else {
            None
        }
    }
}

/// A game in progress between two users; player 2 (the challenged user) moves first.
#[derive(Debug, Clone, Copy, PartialEq, Eq)]
pub struct UserGame {
    board: Board,
    last_played: (i64, u32),
    player1: u64,
    player2: u64,
}

/// How a move went.
#[derive(Debug, Clone, Copy, PartialEq, Eq)]
pub enum UserGameResult {
    Continuing(Board),
    Victory(Board),
    Draw(Board),
    NotYourTurn,
    IllegalMove,
}

/// Three hours, in nanoseconds: how long a game may sit before a win can be claimed.
pub const CLAIM_WIN_AFTER_NANOS: i128 = 10_800_000_000_000;

/// A time given as whole seconds since the Unix epoch and nanoseconds past
/// them, in nanoseconds since the epoch.
pub open spec fn nanos_of(t: (i64, u32)) -> int {
    t.0 * 1_000_000_000 + t.1
}

impl UserGame {
    pub closed spec fn board_spec(self) -> Board {
        self.board
    }

    pub closed spec fn player1_spec(self) -> u64 {
        self.player1
    }

    pub closed spec fn player2_spec(self) -> u64 {
        self.player2
    }

    pub closed spec fn last_played_spec(self) -> (i64, u32) {
        self.last_played
    }

    pub open spec fn has_player(self, p: u64) -> bool {
        self.player1_spec() == p || self.player2_spec() == p
    }

    /// A fresh game: empty board, player 2 to move.
    pub open spec fn is_fresh(self, player1: u64, player2: u64) -> bool {
        &&& self.player1_spec() == player1
        &&& self.player2_spec() == player2
        &&& self.board_spec().turn_spec() == Color::Player2
        &&& forall|rr: int, cc: int| in_bounds(rr, cc) ==> (#[trigger] self.board_spec().cell(rr, cc)) is None
    }

    /// Starts a game now, as the clock reads it.
    pub fn new(player1: u64, player2: u64) -> (r: Self)
        ensures r.is_fresh(player1, player2), r.last_played_spec().1 < 1_000_000_000,
    {
        Self::new_at(player1, player2, now_precise())
    }

    /// Starts a game at time `now` (whole seconds since the Unix epoch and
    /// nanoseconds past them).
    pub fn new_at(player1: u64, player2: u64, now: (i64, u32)) -> (r: Self)
        ensures
            r.is_fresh(player1, player2),
            r.last_played_spec() == now,
    {
        UserGame { board: Board::new(Color::Player2), last_played: now, player1, player2 }
    }

    /// The challenger.
    pub fn player1(&self) -> (r: u64)
        ensures r == self.player1_spec(),
    {
        self.player1
    }

    /// The challenged user, who moves first.
    pub fn player2(&self) -> (r: u64)
        ensures r == self.player2_spec(),
    {
        self.player2
    }

    pub fn board(&self) -> (r: Board)
        ensures r == self.board_spec(),
    {
        self.board
    }

    /// `next` and `r` are the game and the result after `player` plays
    /// `column`: nothing changes when it is not their turn or the column is
    /// full; otherwise the piece lands and the result tells whether it won,
    /// filled the board, or the game goes on.
    pub open spec fn move_played(self, next: UserGame, player: Color, column: int, r: UserGameResult) -> bool {
        &&& next.player1_spec() == self.player1_spec()
        &&& next.player2_spec() == self.player2_spec()
        &&& next.last_played_spec() == self.last_played_spec()
        &&& if self.board_spec().turn_spec() != player {
            r == UserGameResult::NotYourTurn && next.board_spec() == self.board_spec()
        } else {
            match self.board_spec().lowest_empty(column) {
                None => r == UserGameResult::IllegalMove && next.board_spec() == self.board_spec(),
                Some(row) => {
                    let b = next.board_spec();
                    &&& self.board_spec().placed(b, row, column)
                    &&& r == (if b.wins(player) { UserGameResult::Victory(b) }
                        else if b.is_full() { UserGameResult::Draw(b) }
                        else { UserGameResult::Continuing(b) })
                },
            }
        }
    }

    /// Plays `column` for `player`, if it is their turn and the column has room.
    pub fn play_move(&mut self, player: Color, column: usize) -> (r: UserGameResult)
        requires column < 7,
        ensures old(self).move_played(*final(self), player, column as int, r),
    {
        if self.board.turn == player {
            self.board = match self.board.apply_move(column) {
                Some(board) => board,
                None => return UserGameResult::IllegalMove,
            };
            if self.board.is_winning_position(player) {
                UserGameResult::Victory(self.board)
            } else if self.board.is_draw() {
                UserGameResult::Draw(self.board)
            } else {
                UserGameResult::Continuing(self.board)
            }
        } else {
            UserGameResult::NotYourTurn
        }
    }

    /// Whether the game has sat for more than three hours at time `now`
    /// (compared to the nanosecond).
    pub fn can_claim_win_at(&self, now: (i64, u32)) -> (r: bool)
        ensures r == (nanos_of(now) - nanos_of(self.last_played_spec()) > CLAIM_WIN_AFTER_NANOS),
    {
        let ds: i128 = (now.0 as i128) - (self.last_played.0 as i128);
        let dn: i128 = (now.1 as i128) - (self.last_played.1 as i128);
        assert(-0x1_0000_0000_0000_0000 < ds < 0x1_0000_0000_0000_0000);
        assert(-0x1_0000_0000_0000_0000_0000_0000 < ds * 1_000_000_000 < 0x1_0000_0000_0000_0000_0000_0000) by (nonlinear_arith)
            requires -0x1_0000_0000_0000_0000 < ds < 0x1_0000_0000_0000_0000;
        let d: i128 = ds * 1_000_000_000 + dn;
        assert(d == nanos_of(now) - nanos_of(self.last_played_spec())) by (nonlinear_arith)
            requires
                ds == now.0 - self.last_played.0,
                dn == now.1 - self.last_played.1,
                d == ds * 1_000_000_000 + dn;
        d > CLAIM_WIN_AFTER_NANOS
    }

    /// Whether the game has sat for more than three hours now: for some
    /// reading of the clock, `can_claim_win_at` of it.
    pub fn can_claim_win(&self) -> (r: bool)
        ensures
            exists|now: (i64, u32)| now.1 < 1_000_000_000
                && r == (nanos_of(now) - nanos_of(self.last_played_spec()) > CLAIM_WIN_AFTER_NANOS),
    {
        let now = now_precise();
        self.can_claim_win_at(now)
    }

    pub fn last_played(&self) -> (r: (i64, u32))
        ensures r == self.last_played_spec(),
    {
        self.last_played
    }

    /// The user whose turn it is.
    pub fn current_turn_user(&self) -> (r: u64)
        ensures
            r == (match self.board_spec().turn_spec() {
                Color::Player1 => self.player1_spec(),
                Color::Player2 => self.player2_spec(),
            }),
    {
        match self.board.turn {
            Color::Player1 => self.player1,
            Color::Player2 => self.player2,
        }
    }

    pub fn players(&self) -> (r: PlayerPair)
        ensures r == PlayerPair::of(self.player1_spec(), self.player2_spec()),
    {
        PlayerPair::new(self.player1, self.player2)
    }

    /// The colour `player` plays in this game, if they play in it.
    pub fn player_color(&self, player: u64) -> (r: Option<Color>)
        ensures
            r == (if self.player1_spec() == player { Some(Color::Player1) }
                else if self.player2_spec() == player { Some(Color::Player2) } else { None::<Color> }),
    {
        if self.player1 == player {
            Some(Color::Player1)
        } else if self.player2 == player {
            Some(Color::Player2)
        } else {
            None
        }
    }
}


/// Pending challenges, games in progress and statistics of every user.
pub struct Manager {
    challenges: HashMap<u64, HashSet<u64>>,
    stats: HashMap<u64, Stats>,
    user_games: Vec<UserGame>,
}

pub open spec fn no_stats() -> Stats {
    Stats { wins: 0, losses: 0 }
}

/// The colour `p` plays in a game they are in.
pub open spec fn color_in(g: UserGame, p: u64) -> Color {
    if g.player1_spec() == p { Color::Player1 } else { Color::Player2 }
}

/// The player a game pits `p` against.
pub open spec fn opponent_in(g: UserGame, p: u64) -> u64 {
    if g.player1_spec() == p { g.player2_spec() } else { g.player1_spec() }
}

pub open spec fn pair_of(g: UserGame) -> PlayerPair {
    PlayerPair::of(g.player1_spec(), g.player2_spec())
}

impl Manager {
    /// Whether `a` has challenged `b`.
    pub closed spec fn challenged(self, a: u64, b: u64) -> bool {
        self.challenges@.contains_key(a) && self.challenges@[a]@.contains(b)
    }

    pub closed spec fn stats_of(self, p: u64) -> Stats {
        if self.stats@.contains_key(p) { self.stats@[p] } else { no_stats() }
    }

    /// The games in progress.
    pub closed spec fn games(self) -> Seq<UserGame> {
        self.user_games@
    }

    pub open spec fn playing(self, p: u64) -> bool {
        exists|i: int| 0 <= i < self.games().len() && #[trigger] self.games()[i].has_player(p)
    }

    /// Every game has two different players, and nobody plays two games at once.
    pub open spec fn wf(self) -> bool {
        &&& forall|i: int| 0 <= i < self.games().len()
            ==> (#[trigger] self.games()[i]).player1_spec() != self.games()[i].player2_spec()
        &&& forall|i: int, j: int, p: u64| 0 <= i < self.games().len() && 0 <= j < self.games().len() && i != j
            && #[trigger] self.games()[i].has_player(p) ==> !#[trigger] self.games()[j].has_player(p)
    }

    pub open spec fn same_challenges(self, other: Manager) -> bool {
        forall|a: u64, b: u64| #[trigger] self.challenged(a, b) == other.challenged(a, b)
    }

    pub open spec fn same_stats(self, other: Manager) -> bool {
        forall|p: u64| #[trigger] self.stats_of(p) == other.stats_of(p)
    }

    pub fn new() -> (r: Self)
        ensures
            r.wf(),
            r.games().len() == 0,
            forall|a: u64, b: u64| !(#[trigger] r.challenged(a, b)),
            forall|p: u64| #[trigger] r.stats_of(p) == no_stats(),
    {
        Manager { challenges: HashMap::new(), stats: HashMap::new(), user_games: Vec::new() }
    }

    pub fn get_stats(&self, player: u64) -> (r: Stats)
        ensures r == self.stats_of(player),
    {
        broadcast use vstd::std_specs::hash::group_hash_axioms;
        match self.stats.get(&player) {
            Some(s) => *s,
            None => Stats { wins: 0, losses: 0 },
        }
    }

    pub fn is_playing(&self, player: u64) -> (r: bool)
        ensures r == self.playing(player),
    {
        self.is_playing_user(player)
    }

    /// Whether the player has a game in progress currently.
    pub fn is_playing_user(&self, player: u64) -> (r: bool)
        ensures r == self.playing(player),
    {
        let mut i: usize = 0;
        while i < self.user_games.len()
            invariant
                i <= self.games().len(),
                self.games() == self.user_games@,
                forall|k: int| 0 <= k < i ==> !(#[trigger] self.games()[k]).has_player(player),
            decreases self.user_games.len() - i,
        {
            if self.user_games[i].player1 == player || self.user_games[i].player2 == player {
                assert(self.games()[i as int].has_player(player));
                return true;
            }
            i = i + 1;
        }
        false
    }

    /// Whether or not a given player is challenging a given opponent.
    pub fn is_challenging(&self, challenger: u64, opponent: u64) -> (r: bool)
        ensures r == self.challenged(challenger, opponent),
    {
        broadcast use vstd::std_specs::hash::group_hash_axioms;
        match self.challenges.get(&challenger) {
            Some(set) => set.contains(&opponent),
            None => false,
        }
    }

    /// Deletes the given challenge, returning whether it existed.
    pub fn remove_challenge(&mut self, challenger: u64, opponent: u64) -> (r: bool)
        ensures
            r == old(self).challenged(challenger, opponent),
            forall|a: u64, b: u64| #[trigger] final(self).challenged(a, b)
                == (old(self).challenged(a, b) && !(a == challenger && b == opponent)),
            final(self).games() == old(self).games(),
            final(self).same_stats(*old(self)),
    {
        broadcast use vstd::std_specs::hash::group_hash_axioms;
        match self.challenges.remove(&challenger) {
            None => false,
            Some(mut set) => {
                let r = set.remove(&opponent);
                self.challenges.insert(challenger, set);
                r
            },
        }
    }

    /// Creates a challenge; nobody can challenge themselves, or while playing.
    /// Returns whether the challenge is new.
    pub fn create_challenge(&mut self, challenger: u64, opponent: u64) -> (r: bool)
        ensures
            final(self).games() == old(self).games(),
            final(self).same_stats(*old(self)),
            if challenger != opponent && !old(self).playing(challenger) {
                &&& r == !old(self).challenged(challenger, opponent)
                &&& forall|a: u64, b: u64| #[trigger] final(self).challenged(a, b)
                    == (old(self).challenged(a, b) || (a == challenger && b == opponent))
            } else {
                !r && final(self).same_challenges(*old(self))
            },
    {
        broadcast use vstd::std_specs::hash::group_hash_axioms;
        if challenger != opponent && !self.is_playing_user(challenger) {
            let mut set = match self.challenges.remove(&challenger) {
                Some(set) => set,
                None => HashSet::new(),
            };
            let r = set.insert(opponent);
            self.challenges.insert(challenger, set);
            r
        } else {
            false
        }
    }

    /// Accepts `challenger`'s challenge on behalf of `opponent`, starting a
    /// game; returns a copy of the new game.
    pub fn accept_challenge(&mut self, challenger: u64, opponent: u64) -> (r: Option<UserGame>)
        requires old(self).wf(),
        ensures
            final(self).wf(),
            final(self).same_stats(*old(self)),
            if challenger != opponent && !old(self).playing(challenger) && !old(self).playing(opponent)
                && old(self).challenged(challenger, opponent) {
                &&& r matches Some(g) && g.is_fresh(challenger, opponent)
                    && final(self).games() == old(self).games().push(g)
                &&& forall|a: u64, b: u64| #[trigger] final(self).challenged(a, b)
                    == (old(self).challenged(a, b) && !(a == challenger && b == opponent))
            } else {
                r is None && final(self).games() == old(self).games() && final(self).same_challenges(*old(self))
            },
    {
        let valid = challenger != opponent && !self.is_playing(challenger) && !self.is_playing(opponent);
        if valid && self.remove_challenge(challenger, opponent) {
            let game = UserGame::new(challenger, opponent);
            let ghost before = self.games();
            let ghost mid = *self;
            self.user_games.push(game);
            proof {
                assert(self.stats == mid.stats);
                assert(self.challenges == mid.challenges);
                assert forall|p: u64| #[trigger] self.stats_of(p) == old(self).stats_of(p) by {
                    assert(mid.stats_of(p) == old(self).stats_of(p));
                }
                assert forall|a: u64, b: u64| #[trigger] self.challenged(a, b)
                    == (old(self).challenged(a, b) && !(a == challenger && b == opponent)) by {
                    assert(mid.challenged(a, b) == (old(self).challenged(a, b) && !(a == challenger && b == opponent)));
                }
                assert forall|i: int, j: int, p: u64| 0 <= i < self.games().len() && 0 <= j < self.games().len() && i != j
                    && #[trigger] self.games()[i].has_player(p) implies !#[trigger] self.games()[j].has_player(p) by {
                    if i == before.len() {
                        assert(self.games()[j] == before[j]);
                    } else if j == before.len() {
                        assert(self.games()[i] == before[i]);
                    } else {
                        assert(self.games()[i] == before[i]);
                        assert(self.games()[j] == before[j]);
                    }
                }
            }
            Some(game)
        } else {
            None
        }
    }

    /// The game between exactly these two players, if there is one.
    pub fn get_user_game(&self, players: PlayerPair) -> (r: Option<&UserGame>)
        ensures
            match r {
                Some(g) => exists|i: int| 0 <= i < self.games().len() && self.games()[i] == *g && pair_of(*g) == players,
                None => forall|i: int| 0 <= i < self.games().len() ==> pair_of(#[trigger] self.games()[i]) != players,
            },
    {
        let mut i: usize = 0;
        while i < self.user_games.len()
            invariant
                i <= self.games().len(),
                self.games() == self.user_games@,
                forall|k: int| 0 <= k < i ==> pair_of(#[trigger] self.games()[k]) != players,
            decreases self.user_games.len() - i,
        {
            if self.user_games[i].players() == players {
                return Some(&self.user_games[i]);
            }
            i = i + 1;
        }
        None
    }

    /// The game `player` is in, with their colour.
    pub fn find_user_game(&self, player: u64) -> (r: Option<(&UserGame, Color)>)
        ensures
            match r {
                Some((g, c)) => exists|i: int| 0 <= i < self.games().len() && self.games()[i] == *g
                    && c == (if g.player1_spec() == player { Color::Player1 } else { Color::Player2 })
                    && g.has_player(player),
                None => !self.playing(player),
            },
    {
        let mut i: usize = 0;
        while i < self.user_games.len()
            invariant
                i <= self.games().len(),
                self.games() == self.user_games@,
                forall|k: int| 0 <= k < i ==> !(#[trigger] self.games()[k]).has_player(player),
            decreases self.user_games.len() - i,
        {
            match self.user_games[i].player_color(player) {
                Some(color) => return Some((&self.user_games[i], color)),
                None => {},
            }
            i = i + 1;
        }
        None
    }

    /// Plays `column` for `player` in their game, if they have one.
    pub fn play_user_game_move(&mut self, player: u64, column: usize) -> (r: Option<UserGameResult>)
        requires
            old(self).wf(),
            column < 7,
        ensures
            final(self).wf(),
            final(self).same_stats(*old(self)),
            final(self).same_challenges(*old(self)),
            final(self).games().len() == old(self).games().len(),
            match r {
                None => !old(self).playing(player) && final(self).games() == old(self).games(),
                Some(res) => exists|i: int| 0 <= i < old(self).games().len()
                    && (#[trigger] old(self).games()[i]).has_player(player)
                    && final(self).games() == old(self).games().update(i, final(self).games()[i])
                    && old(self).games()[i].move_played(final(self).games()[i],
                        color_in(old(self).games()[i], player), column as int, res),
            },
    {
        let mut i: usize = 0;
        while i < self.user_games.len()
            invariant
                i <= self.games().len(),
                self.games() == self.user_games@,
                *self == *old(self),
                self.wf(),
                column < 7,
                forall|k: int| 0 <= k < i ==> !(#[trigger] self.games()[k]).has_player(player),
            decreases self.user_games.len() - i,
        {
            match self.user_games[i].player_color(player) {
                Some(color) => {
                    let ghost before = self.games();
                    let mut game = self.user_games[i];
                    let res = game.play_move(color, column);
                    self.user_games.set(i, game);
                    proof {
                        assert(before[i as int].has_player(player));
                        assert forall|a: int, b: int, p: u64| 0 <= a < self.games().len() && 0 <= b < self.games().len() && a != b
                            && #[trigger] self.games()[a].has_player(p) implies !#[trigger] self.games()[b].has_player(p) by {
                            assert(before[a].has_player(p) == self.games()[a].has_player(p));
                            assert(before[b].has_player(p) == self.games()[b].has_player(p));
                        }
                        assert(self.games() =~= before.update(i as int, self.games()[i as int]));
                    }
                    return Some(res);
                },
                None => {},
            }
            i = i + 1;
        }
        None
    }

    /// Removes the game between these two players without a winner.
    pub fn end_user_game_draw(&mut self, players: PlayerPair) -> (r: Option<UserGame>)
        requires old(self).wf(),
        ensures
            final(self).wf(),
            final(self).same_stats(*old(self)),
            final(self).same_challenges(*old(self)),
            match r {
                Some(g) => exists|i: int| 0 <= i < old(self).games().len() && old(self).games()[i] == g
                    && pair_of(g) == players && final(self).games() == old(self).games().remove(i),
                None => final(self).games() == old(self).games()
                    && forall|i: int| 0 <= i < old(self).games().len() ==> pair_of(#[trigger] old(self).games()[i]) != players,
            },
    {
        let mut i: usize = 0;
        while i < self.user_games.len()
            invariant
                i <= self.games().len(),
                self.games() == self.user_games@,
                *self == *old(self),
                self.wf(),
                forall|k: int| 0 <= k < i ==> pair_of(#[trigger] self.games()[k]) != players,
            decreases self.user_games.len() - i,
        {
            if self.user_games[i].players() == players {
                let ghost before = self.games();
                let g = self.user_games.remove(i);
                proof {
                    assert forall|a: int, b: int, p: u64| 0 <= a < self.games().len() && 0 <= b < self.games().len() && a != b
                        && #[trigger] self.games()[a].has_player(p) implies !#[trigger] self.games()[b].has_player(p) by {
                        let a0 = if a < i { a } else { a + 1 };
                        let b0 = if b < i { b } else { b + 1 };
                        assert(self.games()[a] == before[a0]);
                        assert(self.games()[b] == before[b0]);
                    }
                    assert forall|a: int| 0 <= a < self.games().len() implies
                        (#[trigger] self.games()[a]).player1_spec() != self.games()[a].player2_spec() by {
                        let a0 = if a < i { a } else { a + 1 };
                        assert(self.games()[a] == before[a0]);
                    }
                }
                return Some(g);
            }
            i = i + 1;
        }
        None
    }

    /// Ends the game between `winner` and `loser`, counting a win and a loss.
    pub fn end_user_game(&mut self, winner: u64, loser: u64) -> (r: Option<UserGame>)
        requires
            old(self).wf(),
            old(self).stats_of(winner).wins < usize::MAX,
            old(self).stats_of(loser).losses < usize::MAX,
        ensures
            final(self).wf(),
            final(self).same_challenges(*old(self)),
            match r {
                Some(g) => {
                    &&& exists|i: int| 0 <= i < old(self).games().len() && old(self).games()[i] == g
                        && pair_of(g) == PlayerPair::of(winner, loser) && final(self).games() == old(self).games().remove(i)
                    &&& final(self).stats_of(winner) == (Stats { wins: (old(self).stats_of(winner).wins + 1) as usize, ..old(self).stats_of(winner) })
                    &&& final(self).stats_of(loser) == (Stats { losses: (old(self).stats_of(loser).losses + 1) as usize, ..old(self).stats_of(loser) })
                    &&& forall|p: u64| p != winner && p != loser ==> #[trigger] final(self).stats_of(p) == old(self).stats_of(p)
                },
                None => final(self).games() == old(self).games() && final(self).same_stats(*old(self))
                    && forall|i: int| 0 <= i < old(self).games().len()
                        ==> pair_of(#[trigger] old(self).games()[i]) != PlayerPair::of(winner, loser),
            },
    {
        broadcast use vstd::std_specs::hash::group_hash_axioms;
        match self.end_user_game_draw(PlayerPair::new(winner, loser)) {
            Some(game) => {
                proof {
                    let i = choose|i: int| 0 <= i < old(self).games().len() && old(self).games()[i] == game
                        && pair_of(game) == PlayerPair::of(winner, loser) && self.games() == old(self).games().remove(i);
                    assert(old(self).games()[i].player1_spec() != old(self).games()[i].player2_spec());
                    PlayerPair::lemma_of(game.player1_spec(), game.player2_spec());
                    PlayerPair::lemma_of(winner, loser);
                    assert(winner != loser);
                }
                let ghost mid = *self;
                let mut w = self.get_stats(winner);
                w.wins = w.wins + 1;
                self.stats.insert(winner, w);
                assert(self.stats_of(loser) == mid.stats_of(loser));
                let mut l = self.get_stats(loser);
                l.losses = l.losses + 1;
                self.stats.insert(loser, l);
                proof {
                    assert(self.challenges == mid.challenges);
                    assert forall|a: u64, b: u64| #[trigger] self.challenged(a, b) == old(self).challenged(a, b) by {
                        assert(mid.challenged(a, b) == old(self).challenged(a, b));
                    }
                    assert forall|p: u64| p != winner && p != loser implies #[trigger] self.stats_of(p) == old(self).stats_of(p) by {
                        assert(mid.stats_of(p) == old(self).stats_of(p));
                    }
                    assert(self.stats_of(winner) == self.stats@[winner]);
                }
                Some(game)
            },
            None => None,
        }
    }

    /// Resigns this player's current game, if any: a loss for them and a win
    /// for their opponent.
    pub fn resign_user_game(&mut self, player: u64) -> (r: Option<UserGame>)
        requires
            old(self).wf(),
            old(self).stats_of(player).losses < usize::MAX,
            forall|i: int| 0 <= i < old(self).games().len() && (#[trigger] old(self).games()[i]).has_player(player)
                ==> old(self).stats_of(opponent_in(old(self).games()[i], player)).wins < usize::MAX,
        ensures
            final(self).wf(),
            final(self).same_challenges(*old(self)),
            match r {
                Some(g) => {
                    let opponent = opponent_in(g, player);
                    &&& g.has_player(player)
                    &&& exists|i: int| 0 <= i < old(self).games().len() && old(self).games()[i] == g
                        && final(self).games() == old(self).games().remove(i)
                    &&& final(self).stats_of(opponent) == (Stats { wins: (old(self).stats_of(opponent).wins + 1) as usize, ..old(self).stats_of(opponent) })
                    &&& final(self).stats_of(player) == (Stats { losses: (old(self).stats_of(player).losses + 1) as usize, ..old(self).stats_of(player) })
                    &&& forall|p: u64| p != player && p != opponent ==> #[trigger] final(self).stats_of(p) == old(self).stats_of(p)
                },
                None => !old(self).playing(player) && final(self).games() == old(self).games()
                    && final(self).same_stats(*old(self)),
            },
    {
        let mut i: usize = 0;
        while i < self.user_games.len()
            invariant
                i <= self.games().len(),
                self.games() == self.user_games@,
                *self == *old(self),
                self.wf(),
                old(self).stats_of(player).losses < usize::MAX,
                forall|k: int| 0 <= k < old(self).games().len() && (#[trigger] old(self).games()[k]).has_player(player)
                    ==> old(self).stats_of(opponent_in(old(self).games()[k], player)).wins < usize::MAX,
                forall|k: int| 0 <= k < i ==> !(#[trigger] self.games()[k]).has_player(player),
            decreases self.user_games.len() - i,
        {
            let players = self.user_games[i].players();
            match players.other(player) {
                Some(opponent) => {
                    let ghost g = self.games()[i as int];
                    proof {
                        PlayerPair::lemma_of(g.player1_spec(), g.player2_spec());
                        assert(g.has_player(player));
                        assert(opponent == opponent_in(g, player));
                        assert(self.games()[i as int].has_player(player));
                        assert forall|k: int| 0 <= k < self.games().len() && k != i implies
                            pair_of(#[trigger] self.games()[k]) != PlayerPair::of(opponent, player) by {
                            PlayerPair::lemma_of(self.games()[k].player1_spec(), self.games()[k].player2_spec());
                            PlayerPair::lemma_of(opponent, player);
                            assert(!self.games()[k].has_player(player));
                        }
                        PlayerPair::lemma_of(opponent, player);
                        assert(pair_of(g) == PlayerPair::of(opponent, player));
                    }
                    let r = self.end_user_game(opponent, player);
                    proof {
                        assert(r is Some);
                    }
                    return r;
                },
                None => {
                    proof {
                        PlayerPair::lemma_of(self.games()[i as int].player1_spec(), self.games()[i as int].player2_spec());
                    }
                },
            }
            i = i + 1;
        }
        None
    }
}


impl Default for Manager {
    fn default() -> (r: Self)
        ensures
            r.wf(),
            r.games().len() == 0,
            forall|a: u64, b: u64| !(#[trigger] r.challenged(a, b)),
            forall|p: u64| #[trigger] r.stats_of(p) == no_stats(),
    {
        Manager::new()
    }
}

proof fn lemma_lowest_empty_from(b: Board, c: int, r: int)
    requires r < 6,
    ensures
        (b.lowest_empty_from(c, r) is Some) == (exists|row: int| 0 <= row <= r && (#[trigger] b.cell(row, c)) is None),
        b.lowest_empty_from(c, r) matches Some(row) ==> 0 <= row <= r && b.cell(row, c) is None
            && forall|k: int| row < k <= r ==> (#[trigger] b.cell(k, c)) is Some,
    decreases r + 1,
{
    if r >= 0 {
        lemma_lowest_empty_from(b, c, r - 1);
        if b.cell(r, c) is Some {
            if exists|row: int| 0 <= row <= r && (#[trigger] b.cell(row, c)) is None {
                let row = choose|row: int| 0 <= row <= r && (#[trigger] b.cell(row, c)) is None;
                assert(row <= r - 1);
            }
        }
    }
}

/// A column accepts a move exactly when it has an empty cell, and the piece
/// lands in the lowest empty cell, below which the column is full.
pub proof fn law_move_lands_lowest(b: Board, c: int)
    ensures
        (b.lowest_empty(c) is Some) == (exists|row: int| 0 <= row < 6 && (#[trigger] b.cell(row, c)) is None),
        b.lowest_empty(c) matches Some(row) ==> 0 <= row < 6 && b.cell(row, c) is None
            && forall|k: int| row < k < 6 ==> (#[trigger] b.cell(k, c)) is Some,
{
    lemma_lowest_empty_from(b, c, 5);
}

} // verus!

//! The replies of the connect-four commands: each carries out the request
//! on the games of a guild and says what happened.
use vstd::prelude::*;
use crate::connect_four::{
    color_in, opponent_in, validate_column, Board, Color, Manager, PlayerPair, PrintBoard, Stats, UserGame,
    UserGameResult,
    nanos_of, CLAIM_WIN_AFTER_NANOS,
};
use crate::console::MelodyCommandError;
use crate::markup::{mention_spec, push_mention, timestamp_secs_spec, timestamp_secs_text, TimestampFormat};
use crate::num::{decimal, push_decimal};
use crate::text::push_str;

verus! {

broadcast use vstd::string::group_string_axioms;

pub open spec fn piece_text(p: Option<Color>) -> Seq<char> {
    match p {
        Some(Color::Player1) => ":red_circle:"@,
        Some(Color::Player2) => ":blue_circle:"@,
        None => ":black_circle:"@,
    }
}

/// The emoji a cell of the board is drawn with.
pub fn print_piece(p: Option<Color>) -> (r: &'static str)
    ensures r@ == piece_text(p),
{
    match p {
        Some(Color::Player1) => ":red_circle:",
        Some(Color::Player2) => ":blue_circle:",
        None => ":black_circle:",
    }
}

/// The first `c` cells of row `r`.
pub open spec fn row_text(b: Board, r: int, c: int) -> Seq<char>
    decreases c,
{
    if c <= 0 { seq![] } else { row_text(b, r, c - 1) + piece_text(b.cell(r, c - 1)) }
}

/// The first `n` rows, each ended by a line break.
pub open spec fn rows_text(b: Board, n: int) -> Seq<char>
    decreases n,
{
    if n <= 0 { seq![] } else { rows_text(b, n - 1) + row_text(b, n - 1, 7) + "\n"@ }
}

/// The board under a header of column numbers.
pub open spec fn board_text(b: Board) -> Seq<char> {
    ":one::two::three::four::five::six::seven:\n"@ + rows_text(b, 6)
}

pub fn board_to_text(b: &Board) -> (r: String)
    ensures r@ == board_text(*b),
{
    let mut s = String::from_str(":one::two::three::four::five::six::seven:\n");
    let ghost start = s@;
    let mut row: usize = 0;
    while row < 6
        invariant
            row <= 6,
            s@ == start + rows_text(*b, row as int),
        decreases 6 - row,
    {
        let ghost before = s@;
        let mut col: usize = 0;
        while col < 7
            invariant
                row < 6,
                col <= 7,
                s@ == before + row_text(*b, row as int, col as int),
            decreases 7 - col,
        {
            push_str(&mut s, print_piece(b.get(col, row)));
            col = col + 1;
            assert(s@ =~= before + row_text(*b, row as int, col as int));
        }
        push_str(&mut s, "\n");
        row = row + 1;
        assert(s@ =~= start + rows_text(*b, row as int));
    }
    s
}

/// The first `n` cell texts of a row, one after another.
pub open spec fn cells_text(texts: Seq<&'static str>, n: int) -> Seq<char>
    decreases n,
{
    if n <= 0 { seq![] } else { cells_text(texts, n - 1) + texts[n - 1]@ }
}

/// The first `n` rows of cell texts, each ended by a line break.
pub open spec fn grid_text(texts: Seq<Seq<&'static str>>, n: int) -> Seq<char>
    decreases n,
{
    if n <= 0 { seq![] } else { grid_text(texts, n - 1) + cells_text(texts[n - 1], 7) + "\n"@ }
}

/// `texts` holds, row by row, what `f` gave for each cell of `matrix`, and
/// `s` is the board drawn with them under the header of column numbers.
pub open spec fn drawn_as<F: Fn(Option<Color>) -> &'static str>(
    f: F,
    matrix: [[Option<Color>; 7]; 6],
    texts: Seq<Seq<&'static str>>,
    s: Seq<char>,
) -> bool {
    &&& texts.len() == 6
    &&& forall|r: int| 0 <= r < 6 ==> (#[trigger] texts[r]).len() == 7
    &&& forall|r: int, c: int| 0 <= r < 6 && 0 <= c < 7 ==> f.ensures((matrix@[r]@[c],), #[trigger] texts[r][c])
    &&& s == ":one::two::three::four::five::six::seven:\n"@ + grid_text(texts, 6)
}

impl<F: Fn(Option<Color>) -> &'static str> PrintBoard<F> {
    /// The board as text: a header of column numbers, then each row from the
    /// top, each cell as `print_piece` draws it (called once per cell, row by
    /// row), each row ended by a line break.
    pub fn to_text(&self) -> (r: String)
        requires forall|p: Option<Color>| #[trigger] self.print_piece.requires((p,)),
        ensures exists|texts: Seq<Seq<&'static str>>| #[trigger] drawn_as(self.print_piece, self.matrix, texts, r@),
    {
        let mut s = String::from_str(":one::two::three::four::five::six::seven:\n");
        let ghost start = s@;
        let ghost mut texts: Seq<Seq<&'static str>> = seq![];
        let mut row: usize = 0;
        while row < 6
            invariant
                row <= 6,
                forall|p: Option<Color>| #[trigger] self.print_piece.requires((p,)),
                texts.len() == row,
                forall|r: int| 0 <= r < row ==> (#[trigger] texts[r]).len() == 7,
                forall|r: int, c: int| 0 <= r < row && 0 <= c < 7 ==>
                    self.print_piece.ensures((self.matrix@[r]@[c],), #[trigger] texts[r][c]),
                s@ == start + grid_text(texts, row as int),
            decreases 6 - row,
        {
            let ghost before = s@;
            let ghost mut cur: Seq<&'static str> = seq![];
            let mut col: usize = 0;
            while col < 7
                invariant
                    row < 6,
                    col <= 7,
                    forall|p: Option<Color>| #[trigger] self.print_piece.requires((p,)),
                    cur.len() == col,
                    forall|c: int| 0 <= c < col ==> self.print_piece.ensures((self.matrix@[row as int]@[c],), #[trigger] cur[c]),
                    s@ == before + cells_text(cur, col as int),
                decreases 7 - col,
            {
                let piece = self.matrix[row][col];
                let text = (self.print_piece)(piece);
                push_str(&mut s, text);
                proof {
                    let old_cur = cur;
                    cur = cur.push(text);
                    assert(cells_text(cur, col as int) == cells_text(old_cur, col as int)) by {
                        lemma_cells_prefix(old_cur, cur, col as int);
                    }
                }
                col = col + 1;
                assert(s@ =~= before + cells_text(cur, col as int));
            }
            push_str(&mut s, "\n");
            proof {
                let old_texts = texts;
                texts = texts.push(cur);
                assert(grid_text(texts, row as int) == grid_text(old_texts, row as int)) by {
                    lemma_grid_prefix(old_texts, texts, row as int);
                }
            }
            row = row + 1;
            assert(s@ =~= start + grid_text(texts, row as int));
        }
        assert(drawn_as(self.print_piece, self.matrix, texts, s@));
        s
    }
}

proof fn lemma_cells_prefix(a: Seq<&'static str>, b: Seq<&'static str>, n: int)
    requires 0 <= n <= a.len(), a.len() <= b.len(), forall|i: int| 0 <= i < a.len() ==> a[i] == b[i],
    ensures cells_text(a, n) == cells_text(b, n),
    decreases n,
{
    if n > 0 {
        lemma_cells_prefix(a, b, n - 1);
    }
}

proof fn lemma_grid_prefix(a: Seq<Seq<&'static str>>, b: Seq<Seq<&'static str>>, n: int)
    requires 0 <= n <= a.len(), a.len() <= b.len(), forall|i: int| 0 <= i < a.len() ==> a[i] == b[i],
    ensures grid_text(a, n) == grid_text(b, n),
    decreases n,
{
    if n > 0 {
        lemma_grid_prefix(a, b, n - 1);
    }
}

pub open spec fn not_playing_text() -> Seq<char> {
    "You are not currently playing a game!"@
}

pub open spec fn no_pending_text() -> Seq<char> {
    "You do not have a pending challenge from this user"@
}

/// The reply to a challenge: the challenge, or why it cannot be made.
pub open spec fn challenge_text(made: bool, challenger: u64, opponent: u64) -> Seq<char> {
    if made {
        mention_spec(opponent) + ", "@ + mention_spec(challenger)
            + " has challenged you to a game of connect-four\nUse `/connect-four accept` to accept this challenge"@
    } else {
        "You cannot challenge that user at this time\n(Are you already playing a game?)"@
    }
}

/// `challenger` challenges `opponent`; a challenge is made unless it is of
/// oneself, the challenger is playing, or it was already made.
pub fn challenge_reply(m: &mut Manager, challenger: u64, opponent: u64) -> (r: String)
    ensures
        final(m).games() == old(m).games(),
        final(m).same_stats(*old(m)),
        if challenger != opponent && !old(m).playing(challenger) {
            forall|a: u64, b: u64| #[trigger] final(m).challenged(a, b)
                == (old(m).challenged(a, b) || (a == challenger && b == opponent))
        } else {
            final(m).same_challenges(*old(m))
        },
        r@ == challenge_text(
            challenger != opponent && !old(m).playing(challenger) && !old(m).challenged(challenger, opponent),
            challenger, opponent),
{
    if m.create_challenge(challenger, opponent) {
        let mut s = String::new();
        push_mention(&mut s, opponent);
        push_str(&mut s, ", ");
        push_mention(&mut s, challenger);
        push_str(&mut s, " has challenged you to a game of connect-four\nUse `/connect-four accept` to accept this challenge");
        s
    } else {
        String::from_str("You cannot challenge that user at this time\n(Are you already playing a game?)")
    }
}

/// The reply when a challenge is accepted: the game's board.
pub open spec fn accepted_text(challenger: u64, board: Board) -> Seq<char> {
    "You have accepted "@ + mention_spec(challenger)
        + "'s challenge\nIt is your turn to play\nYou are :blue_circle:, your opponent is :red_circle:\n\n"@
        + board_text(board)
}

/// `player` accepts `challenger`'s challenge, starting their game.
pub fn accept_reply(m: &mut Manager, challenger: u64, player: u64) -> (r: String)
    requires old(m).wf(),
    ensures
        final(m).wf(),
        final(m).same_stats(*old(m)),
        if challenger != player && !old(m).playing(challenger) && !old(m).playing(player)
            && old(m).challenged(challenger, player) {
            &&& final(m).games().len() == old(m).games().len() + 1
            &&& final(m).games().drop_last() == old(m).games()
            &&& final(m).games().last().is_fresh(challenger, player)
            &&& forall|a: u64, b: u64| #[trigger] final(m).challenged(a, b)
                == (old(m).challenged(a, b) && !(a == challenger && b == player))
            &&& r@ == accepted_text(challenger, final(m).games().last().board_spec())
        } else {
            &&& final(m).games() == old(m).games()
            &&& final(m).same_challenges(*old(m))
            &&& r@ == if old(m).playing(player) {
                "You must finish your current game before starting a new one!"@
            } else {
                no_pending_text()
            }
        },
{
    match m.accept_challenge(challenger, player) {
        Some(game) => {
            let board = game.board();
            let mut s = String::from_str("You have accepted ");
            push_mention(&mut s, challenger);
            push_str(&mut s, "'s challenge\nIt is your turn to play\nYou are :blue_circle:, your opponent is :red_circle:\n\n");
            let b = board_to_text(&board);
            push_str(&mut s, b.as_str());
            proof {
                assert(m.games().drop_last() =~= old(m).games());
            }
            s
        },
        None => {
            if m.is_playing_user(player) {
                String::from_str("You must finish your current game before starting a new one!")
            } else {
                String::from_str("You do not have a pending challenge from this user")
            }
        },
    }
}

/// `player` declines `challenger`'s challenge.
pub fn decline_reply(m: &mut Manager, challenger: u64, player: u64) -> (r: String)
    ensures
        final(m).games() == old(m).games(),
        final(m).same_stats(*old(m)),
        forall|a: u64, b: u64| #[trigger] final(m).challenged(a, b)
            == (old(m).challenged(a, b) && !(a == challenger && b == player)),
        r@ == if old(m).challenged(challenger, player) {
            "You have declined a challenge from "@ + mention_spec(challenger)
        } else {
            no_pending_text()
        },
{
    if m.remove_challenge(challenger, player) {
        let mut s = String::from_str("You have declined a challenge from ");
        push_mention(&mut s, challenger);
        s
    } else {
        String::from_str("You do not have a pending challenge from this user")
    }
}

/// The user whose turn it is in a game.
pub open spec fn turn_user(g: UserGame) -> u64 {
    match g.board_spec().turn_spec() {
        Color::Player1 => g.player1_spec(),
        Color::Player2 => g.player2_spec(),
    }
}

pub open spec fn board_reply_text(g: UserGame) -> Seq<char> {
    "This is your current game's board\nIt is "@ + mention_spec(turn_user(g)) + "'s turn to play\n\n"@
        + board_text(g.board_spec())
}

/// The board of `player`'s game.
pub fn board_reply(m: &Manager, player: u64) -> (r: String)
    ensures
        !m.playing(player) ==> r@ == not_playing_text(),
        m.playing(player) ==> exists|i: int| 0 <= i < m.games().len() && (#[trigger] m.games()[i]).has_player(player)
            && r@ == board_reply_text(m.games()[i]),
{
    match m.find_user_game(player) {
        Some((game, _)) => {
            let mut s = String::from_str("This is your current game's board\nIt is ");
            push_mention(&mut s, game.current_turn_user());
            push_str(&mut s, "'s turn to play\n\n");
            let b = board_to_text(&game.board());
            push_str(&mut s, b.as_str());
            s
        },
        None => String::from_str("You are not currently playing a game!"),
    }
}

/// `player` resigns their game: a loss for them and a win for their opponent.
pub fn resign_reply(m: &mut Manager, player: u64) -> (r: String)
    requires
        old(m).wf(),
        old(m).stats_of(player).losses < usize::MAX,
        forall|i: int| 0 <= i < old(m).games().len() && (#[trigger] old(m).games()[i]).has_player(player)
            ==> old(m).stats_of(opponent_in(old(m).games()[i], player)).wins < usize::MAX,
    ensures
        final(m).wf(),
        final(m).same_challenges(*old(m)),
        !old(m).playing(player) ==> r@ == not_playing_text()
            && final(m).games() == old(m).games() && final(m).same_stats(*old(m)),
        old(m).playing(player) ==> exists|i: int| 0 <= i < old(m).games().len()
            && (#[trigger] old(m).games()[i]).has_player(player)
            && final(m).games() == old(m).games().remove(i)
            && r@ == "You have resigned your connect-four game with "@ + mention_spec(opponent_in(old(m).games()[i], player))
            && final(m).stats_of(player).losses == old(m).stats_of(player).losses + 1
            && final(m).stats_of(opponent_in(old(m).games()[i], player)).wins
                == old(m).stats_of(opponent_in(old(m).games()[i], player)).wins + 1,
{
    match m.resign_user_game(player) {
        Some(game) => {
            let opponent = if game.player1() == player { game.player2() } else { game.player1() };
            let mut s = String::from_str("You have resigned your connect-four game with ");
            push_mention(&mut s, opponent);
            proof {
                let i = choose|i: int| 0 <= i < old(m).games().len() && old(m).games()[i] == game
                    && m.games() == old(m).games().remove(i);
                assert(old(m).games()[i].has_player(player));
            }
            s
        },
        None => String::from_str("You are not currently playing a game!"),
    }
}

pub open spec fn stats_text(s: Stats) -> Seq<char> {
    "You have won "@ + decimal(s.wins as nat) + " games\nYou have lost "@ + decimal(s.losses as nat) + " games"@
}

/// `player`'s wins and losses.
pub fn stats_reply(m: &Manager, player: u64) -> (r: String)
    ensures r@ == stats_text(m.stats_of(player)),
{
    let stats = m.get_stats(player);
    let mut s = String::from_str("You have won ");
    push_decimal(&mut s, stats.wins as u64);
    push_str(&mut s, " games\nYou have lost ");
    push_decimal(&mut s, stats.losses as u64);
    push_str(&mut s, " games");
    s
}

proof fn lemma_one_game_each(m: Manager, p: u64, i: int, j: int)
    requires
        m.wf(),
        0 <= i < m.games().len(),
        0 <= j < m.games().len(),
        m.games()[i].has_player(p),
        m.games()[j].has_player(p),
    ensures i == j,
{
    if i != j {
        assert(!m.games()[j].has_player(p));
    }
}

proof fn lemma_pair_members(a: u64, b: u64, c: u64, d: u64)
    requires PlayerPair::of(a, b) == PlayerPair::of(c, d),
    ensures (a == c && b == d) || (a == d && b == c),
{
    PlayerPair::lemma_of(a, b);
    PlayerPair::lemma_of(c, d);
}

/// The game at `i` is the only one between `p` and its other player.
proof fn lemma_game_of_pair(m: Manager, p: u64, i: int)
    requires
        m.wf(),
        0 <= i < m.games().len(),
        m.games()[i].has_player(p),
    ensures
        crate::connect_four::pair_of(m.games()[i]) == PlayerPair::of(p, opponent_in(m.games()[i], p)),
        forall|j: int| 0 <= j < m.games().len()
            && #[trigger] crate::connect_four::pair_of(m.games()[j]) == PlayerPair::of(p, opponent_in(m.games()[i], p))
            ==> j == i,
{
    let g = m.games()[i];
    PlayerPair::lemma_of(g.player1_spec(), g.player2_spec());
    PlayerPair::lemma_of(p, opponent_in(g, p));
    assert forall|j: int| 0 <= j < m.games().len()
        && #[trigger] crate::connect_four::pair_of(m.games()[j]) == PlayerPair::of(p, opponent_in(g, p)) implies j == i by {
        let h = m.games()[j];
        lemma_pair_members(h.player1_spec(), h.player2_spec(), p, opponent_in(g, p));
        assert(h.has_player(p));
        lemma_one_game_each(m, p, i, j);
    }
}

pub open spec fn claimed_text(player: u64, opponent: u64, board: Board) -> Seq<char> {
    mention_spec(player) + " has claimed a win against "@ + mention_spec(opponent) + "\n\n"@ + board_text(board)
}

pub open spec fn too_early_text(last_played: (i64, u32)) -> Seq<char> {
    "You cannot claim a win yet\nYour opponent's turn started "@ + timestamp_secs_spec(last_played.0 as int, TimestampFormat::Relative)
}

/// `player` claims a win at time `now` (whole seconds since the epoch and
/// nanoseconds past them): allowed when it is their opponent's turn and that
/// turn has lasted more than three hours.
pub fn claim_win_reply(m: &mut Manager, player: u64, now: (i64, u32)) -> (r: String)
    requires
        old(m).wf(),
        old(m).stats_of(player).wins < usize::MAX,
        forall|i: int| 0 <= i < old(m).games().len() && (#[trigger] old(m).games()[i]).has_player(player)
            ==> old(m).stats_of(opponent_in(old(m).games()[i], player)).losses < usize::MAX,
    ensures
        final(m).wf(),
        final(m).same_challenges(*old(m)),
        !old(m).playing(player) ==> r@ == not_playing_text()
            && final(m).games() == old(m).games() && final(m).same_stats(*old(m)),
        old(m).playing(player) ==> exists|i: int| 0 <= i < old(m).games().len()
            && #[trigger] old(m).games()[i].has_player(player) && {
                let g = old(m).games()[i];
                let o = opponent_in(g, player);
                if g.board_spec().turn_spec() == color_in(g, player) {
                    &&& r@ == "You cannot claim a win when it is your turn!"@
                    &&& final(m).games() == old(m).games() && final(m).same_stats(*old(m))
                } else if nanos_of(now) - nanos_of(g.last_played_spec()) > CLAIM_WIN_AFTER_NANOS {
                    &&& r@ == claimed_text(player, o, g.board_spec())
                    &&& final(m).games() == old(m).games().remove(i)
                    &&& final(m).stats_of(player).wins == old(m).stats_of(player).wins + 1
                    &&& final(m).stats_of(o).losses == old(m).stats_of(o).losses + 1
                } else {
                    &&& r@ == too_early_text(g.last_played_spec())
                    &&& final(m).games() == old(m).games() && final(m).same_stats(*old(m))
                }
            },
{
    let (game, color) = match m.find_user_game(player) {
        Some((g, c)) => (*g, c),
        None => {
            return String::from_str("You are not currently playing a game!");
        },
    };
    let ghost i = choose|i: int| 0 <= i < m.games().len() && m.games()[i] == game && game.has_player(player);
    let opponent = if game.player1() == player { game.player2() } else { game.player1() };
    assert(opponent == opponent_in(game, player));
    if game.board().current_turn() == color {
        return String::from_str("You cannot claim a win when it is your turn!");
    }
    if game.can_claim_win_at(now) {
        proof { lemma_game_of_pair(*m, player, i); }
        let mut s = String::new();
        push_mention(&mut s, player);
        push_str(&mut s, " has claimed a win against ");
        push_mention(&mut s, opponent);
        push_str(&mut s, "\n\n");
        let b = board_to_text(&game.board());
        push_str(&mut s, b.as_str());
        let ended = m.end_user_game(player, opponent);
        proof {
            match ended {
                Some(g2) => {
                    let j = choose|j: int| 0 <= j < old(m).games().len() && old(m).games()[j] == g2
                        && crate::connect_four::pair_of(g2) == PlayerPair::of(player, opponent)
                        && m.games() == old(m).games().remove(j);
                    assert(crate::connect_four::pair_of(old(m).games()[j]) == PlayerPair::of(player, opponent));
                },
                None => {
                    assert(crate::connect_four::pair_of(old(m).games()[i]) == PlayerPair::of(player, opponent));
                },
            }
        }
        s
    } else {
        let mut s = String::from_str("You cannot claim a win yet\nYour opponent's turn started ");
        let t = timestamp_secs_text(game.last_played().0, TimestampFormat::Relative);
        push_str(&mut s, t.as_str());
        s
    }
}

/// The reply to a move: the board after it and whose turn follows, the win,
/// the draw, or why the move was refused.
pub open spec fn play_text(res: UserGameResult, player: u64, opponent: u64) -> Seq<char> {
    match res {
        UserGameResult::Victory(b) => mention_spec(player) + " has played the winning move against "@
            + mention_spec(opponent) + "!\n\n"@ + board_text(b),
        UserGameResult::Continuing(b) => "It is "@ + mention_spec(opponent) + "'s turn to play\n\n"@ + board_text(b),
        UserGameResult::Draw(b) => "The game between "@ + mention_spec(player) + " and "@ + mention_spec(opponent)
            + " has ended in a draw\n\n"@ + board_text(b),
        UserGameResult::NotYourTurn => "It is not your turn!"@,
        UserGameResult::IllegalMove => "That move is illegal"@,
    }
}

pub fn play_text_of(res: UserGameResult, player: u64, opponent: u64) -> (r: String)
    ensures r@ == play_text(res, player, opponent),
{
    match res {
        UserGameResult::Victory(b) => {
            let mut s = String::new();
            push_mention(&mut s, player);
            push_str(&mut s, " has played the winning move against ");
            push_mention(&mut s, opponent);
            push_str(&mut s, "!\n\n");
            let t = board_to_text(&b);
            push_str(&mut s, t.as_str());
            s
        },
        UserGameResult::Continuing(b) => {
            let mut s = String::from_str("It is ");
            push_mention(&mut s, opponent);
            push_str(&mut s, "'s turn to play\n\n");
            let t = board_to_text(&b);
            push_str(&mut s, t.as_str());
            s
        },
        UserGameResult::Draw(b) => {
            let mut s = String::from_str("The game between ");
            push_mention(&mut s, player);
            push_str(&mut s, " and ");
            push_mention(&mut s, opponent);
            push_str(&mut s, " has ended in a draw\n\n");
            let t = board_to_text(&b);
            push_str(&mut s, t.as_str());
            s
        },
        UserGameResult::NotYourTurn => String::from_str("It is not your turn!"),
        UserGameResult::IllegalMove => String::from_str("That move is illegal"),
    }
}

/// The game at `i` holds `player`; they played `column` (from 0), giving
/// the game `next` and the result `res`; `r` says so, and the manager went
/// from `before` to `after`: a win ends the game with a win and a loss, a
/// draw ends it, anything else leaves the game as `next`.
pub open spec fn played(before: Manager, after: Manager, player: u64, column: int, i: int, next: UserGame,
    res: UserGameResult, r: Result<String, MelodyCommandError>) -> bool
{
    let g = before.games()[i];
    let o = opponent_in(g, player);
    &&& 0 <= i < before.games().len()
    &&& g.has_player(player)
    &&& g.move_played(next, color_in(g, player), column, res)
    &&& r matches Ok(t) && t@ == play_text(res, player, o)
    &&& match res {
        UserGameResult::Victory(_) => {
            &&& after.games() == before.games().remove(i)
            &&& after.stats_of(player).wins == before.stats_of(player).wins + 1
            &&& after.stats_of(o).losses == before.stats_of(o).losses + 1
        },
        UserGameResult::Draw(_) => after.games() == before.games().remove(i) && after.same_stats(before),
        _ => after.games() == before.games().update(i, next) && after.same_stats(before),
    }
}

/// `player` drops a piece into `column` (1 to 7) of their game. A winning
/// move ends the game with a win and a loss; a move that fills the board
/// ends it as a draw. A column out of range is refused.
pub fn play_reply(m: &mut Manager, player: u64, column: i64) -> (r: Result<String, MelodyCommandError>)
    requires
        old(m).wf(),
        old(m).stats_of(player).wins < usize::MAX,
        forall|i: int| 0 <= i < old(m).games().len() && (#[trigger] old(m).games()[i]).has_player(player)
            ==> old(m).stats_of(opponent_in(old(m).games()[i], player)).losses < usize::MAX,
    ensures
        final(m).wf(),
        final(m).same_challenges(*old(m)),
        !old(m).playing(player) ==> (r matches Ok(t) && t@ == not_playing_text())
            && final(m).games() == old(m).games() && final(m).same_stats(*old(m)),
        old(m).playing(player) && !(1 <= column <= 7) ==>
            (r matches Err(MelodyCommandError::PreconditionViolation(e)) && e@ == "arguments"@)
            && final(m).games() == old(m).games() && final(m).same_stats(*old(m)),
        old(m).playing(player) && 1 <= column <= 7 ==> exists|i: int, next: UserGame, res: UserGameResult|
            #[trigger] played(*old(m), *final(m), player, column - 1, i, next, res, r),
{
    let game = match m.find_user_game(player) {
        Some((g, _)) => *g,
        None => {
            return Ok(String::from_str("You are not currently playing a game!"));
        },
    };
    let ghost i = choose|i: int| 0 <= i < m.games().len() && m.games()[i] == game && game.has_player(player);
    let opponent = if game.player1() == player { game.player2() } else { game.player1() };
    assert(opponent == opponent_in(game, player));
    let col = match validate_column(column) {
        Some(c) => c,
        None => {
            return Err(MelodyCommandError::precondition_violation("arguments"));
        },
    };
    let res = match m.play_user_game_move(player, col) {
        Some(x) => x,
        None => {
            proof { assert(false); }
            return Ok(String::from_str("You are not currently playing a game!"));
        },
    };
    let ghost mid = *m;
    proof {
        let k = choose|k: int| 0 <= k < old(m).games().len()
            && (#[trigger] old(m).games()[k]).has_player(player)
            && mid.games() == old(m).games().update(k, mid.games()[k])
            && old(m).games()[k].move_played(mid.games()[k], color_in(old(m).games()[k], player), col as int, res);
        lemma_one_game_each(*old(m), player, i, k);
        assert(mid.games()[i].has_player(player));
        assert(opponent_in(mid.games()[i], player) == opponent);
    }
    let text = play_text_of(res, player, opponent);
    let ghost next = mid.games()[i];
    match res {
        UserGameResult::Victory(_) => {
            proof { lemma_game_of_pair(mid, player, i); }
            let ended = m.end_user_game(player, opponent);
            proof {
                match ended {
                    Some(g2) => {
                        let j = choose|j: int| 0 <= j < mid.games().len() && mid.games()[j] == g2
                            && crate::connect_four::pair_of(g2) == PlayerPair::of(player, opponent)
                            && m.games() == mid.games().remove(j);
                        assert(crate::connect_four::pair_of(mid.games()[j]) == PlayerPair::of(player, opponent));
                        assert(mid.games().remove(i) =~= old(m).games().remove(i));
                    },
                    None => {
                        assert(crate::connect_four::pair_of(mid.games()[i]) == PlayerPair::of(player, opponent));
                    },
                }
            }
        },
        UserGameResult::Draw(_) => {
            proof { lemma_game_of_pair(mid, player, i); }
            let ended = m.end_user_game_draw(PlayerPair::new(player, opponent));
            proof {
                match ended {
                    Some(g2) => {
                        let j = choose|j: int| 0 <= j < mid.games().len() && mid.games()[j] == g2
                            && crate::connect_four::pair_of(g2) == PlayerPair::of(player, opponent)
                            && m.games() == mid.games().remove(j);
                        assert(crate::connect_four::pair_of(mid.games()[j]) == PlayerPair::of(player, opponent));
                        assert(mid.games().remove(i) =~= old(m).games().remove(i));
                    },
                    None => {
                        assert(crate::connect_four::pair_of(mid.games()[i]) == PlayerPair::of(player, opponent));
                    },
                }
            }
        },
        _ => {
            assert(mid.games() =~= old(m).games().update(i, next));
        },
    }
    let r = Ok(text);
    assert(played(*old(m), *m, player, column - 1, i, next, res, r));
    r
}

} // verus!

use melody::connect_four::{validate_column, Board, Color, Manager, PlayerPair, Stats, UserGame, UserGameResult};

fn play(board: Board, columns: &[usize]) -> Board {
    columns.iter().fold(board, |b, &c| b.apply_move(c).unwrap())
}

#[test]
fn color_other_and_flip() {
    assert_eq!(Color::Player1.other(), Color::Player2);
    assert_eq!(Color::Player2.other().other(), Color::Player2);
    let mut c = Color::Player1;
    c.flip();
    assert_eq!(c, Color::Player2);
}

#[test]
fn pieces_fall_to_the_bottom() {
    let b = Board::new(Color::Player2);
    assert_eq!(b.current_turn(), Color::Player2);
    let b = b.apply_move(3).unwrap();
    assert_eq!(b.get(3, 5), Some(Color::Player2));
    assert_eq!(b.get(3, 4), None);
    assert_eq!(b.current_turn(), Color::Player1);
    let b = b.apply_move(3).unwrap();
    assert_eq!(b.get(3, 4), Some(Color::Player1));
    assert_eq!(b.matrix()[4][3], Some(Color::Player1));
    let cells = b.iter_board();
    assert_eq!(cells.len(), 42);
    assert_eq!(cells[5 * 7 + 3], Some(Color::Player2));
}

#[test]
fn full_column_is_illegal() {
    let b = play(Board::new(Color::Player1), &[0, 0, 0, 0, 0]);
    assert!(b.is_move_legal(0));
    let b = b.apply_move(0).unwrap();
    assert!(!b.is_move_legal(0));
    assert_eq!(b.apply_move(0), None);
    assert!(b.is_move_legal(1));
}

#[test]
fn four_in_a_row_wins() {
    // Player1 fills the bottom row from column 0 to 3, Player2 stacks above.
    let b = play(Board::new(Color::Player1), &[0, 0, 1, 1, 2, 2]);
    assert!(!b.is_winning_position(Color::Player1));
    let b = b.apply_move(3).unwrap();
    assert!(b.is_winning_position(Color::Player1));
    assert!(!b.is_winning_position(Color::Player2));
}

#[test]
fn four_in_a_column_and_diagonal_win() {
    let b = play(Board::new(Color::Player1), &[4, 5, 4, 5, 4, 5, 4]);
    assert!(b.is_winning_position(Color::Player1));

    // a rising diagonal for Player1: (5,0) (4,1) (3,2) (2,3)
    let b = play(Board::new(Color::Player1), &[0, 1, 1, 2, 2, 3, 2, 3, 3, 6, 3]);
    assert!(b.is_winning_position(Color::Player1));
}

#[test]
fn full_board_is_draw() {
    let mut b = Board::new(Color::Player1);
    assert!(!b.is_draw());
    // column order that fills the board without four in a row
    let order = [0, 1, 0, 1, 0, 1, 1, 0, 1, 0, 1, 0, 2, 3, 2, 3, 2, 3, 3, 2, 3, 2, 3, 2, 4, 5, 4, 5, 4, 5, 5, 4, 5, 4, 5, 4,
        6, 6, 6, 6, 6, 6];
    for c in order {
        b = b.apply_move(c).unwrap();
    }
    assert!(b.is_draw());
    assert!(!b.is_winning_position(Color::Player1));
    assert!(!b.is_winning_position(Color::Player2));
}

#[test]
fn columns_typed_by_users() {
    assert_eq!(validate_column(1), Some(0));
    assert_eq!(validate_column(7), Some(6));
    assert_eq!(validate_column(0), None);
    assert_eq!(validate_column(8), None);
    assert_eq!(validate_column(i64::MIN), None);
}

#[test]
fn player_pairs_are_unordered() {
    assert_eq!(PlayerPair::new(1, 2), PlayerPair::new(2, 1));
    let p = PlayerPair::new(5, 9);
    assert!(p.contains(5) && p.contains(9) && !p.contains(7));
    assert_eq!(p.other(5), Some(9));
    assert_eq!(p.other(9), Some(5));
    assert_eq!(p.other(7), None);
}

#[test]
fn user_game_turns() {
    let mut g = UserGame::new_at(10, 20, (1_000, 500));
    assert_eq!(g.current_turn_user(), 20);
    assert_eq!(g.player_color(10), Some(Color::Player1));
    assert_eq!(g.player_color(20), Some(Color::Player2));
    assert_eq!(g.player_color(30), None);
    assert_eq!(g.play_move(Color::Player1, 0), UserGameResult::NotYourTurn);
    match g.play_move(Color::Player2, 0) {
        UserGameResult::Continuing(b) => assert_eq!(b.get(0, 5), Some(Color::Player2)),
        other => panic!("unexpected {other:?}"),
    }
    assert_eq!(g.current_turn_user(), 10);
    assert_eq!(g.last_played(), (1_000, 500));
    assert!(!g.can_claim_win_at((1_000 + 10_800, 500)));
    assert!(g.can_claim_win_at((1_000 + 10_800, 501)));
    assert!(g.can_claim_win_at((1_000 + 10_801, 0)));
    assert!(!g.can_claim_win_at((1_000 + 10_799, 999_999_999)));
    assert_eq!(g.players(), PlayerPair::new(20, 10));
}

#[test]
fn user_game_victory_and_illegal_move() {
    let mut g = UserGame::new_at(1, 2, (0, 0));
    // Player2 moves first
    for c in [0, 1, 0, 1, 0, 1] {
        let color = g.board().current_turn();
        assert!(matches!(g.play_move(color, c), UserGameResult::Continuing(_)));
    }
    assert!(matches!(g.play_move(Color::Player2, 0), UserGameResult::Victory(_)));

    let mut g = UserGame::new_at(1, 2, (0, 0));
    for _ in 0..6 {
        let color = g.board().current_turn();
        g.play_move(color, 3);
    }
    let color = g.board().current_turn();
    assert_eq!(g.play_move(color, 3), UserGameResult::IllegalMove);
}

#[test]
fn manager_challenges_and_games() {
    let mut m = Manager::new();
    assert!(!m.create_challenge(1, 1));
    assert!(m.create_challenge(1, 2));
    assert!(!m.create_challenge(1, 2));
    assert!(m.is_challenging(1, 2));
    assert!(!m.is_challenging(2, 1));
    assert!(m.accept_challenge(2, 1).is_none());
    let game = m.accept_challenge(1, 2).unwrap();
    assert_eq!(game.current_turn_user(), 2);
    assert!(!m.is_challenging(1, 2));
    assert!(m.is_playing(1) && m.is_playing_user(2) && !m.is_playing(3));
    // cannot challenge while playing
    assert!(!m.create_challenge(1, 3));
    assert!(m.get_user_game(PlayerPair::new(2, 1)).is_some());
    let (_, color) = m.find_user_game(1).unwrap();
    assert_eq!(color, Color::Player1);
    assert!(m.find_user_game(3).is_none());

    assert!(matches!(m.play_user_game_move(2, 3), Some(UserGameResult::Continuing(_))));
    assert_eq!(m.play_user_game_move(2, 3), Some(UserGameResult::NotYourTurn));
    assert_eq!(m.play_user_game_move(3, 3), None);

    assert!(m.resign_user_game(1).is_some());
    assert_eq!(m.get_stats(1), Stats { wins: 0, losses: 1 });
    assert_eq!(m.get_stats(2), Stats { wins: 1, losses: 0 });
    assert!(!m.is_playing(1));
    assert!(m.resign_user_game(1).is_none());
}

#[test]
fn manager_draws_and_wins() {
    let mut m = Manager::new();
    assert!(m.create_challenge(4, 5));
    assert!(m.accept_challenge(4, 5).is_some());
    assert!(m.end_user_game_draw(PlayerPair::new(5, 4)).is_some());
    assert_eq!(m.get_stats(4), Stats::default());
    assert!(m.end_user_game_draw(PlayerPair::new(5, 4)).is_none());

    assert!(m.create_challenge(4, 5));
    assert!(m.accept_challenge(4, 5).is_some());
    assert!(m.remove_challenge(4, 5) == false);
    assert!(m.end_user_game(4, 5).is_some());
    assert_eq!(m.get_stats(4).wins, 1);
    assert_eq!(m.get_stats(5).losses, 1);
    assert!(m.end_user_game(4, 5).is_none());
}

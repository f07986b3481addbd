use melody::framework_reply::{cooldown_reply, framework_failure_reply, FrameworkFailure};
use melody::connect_four::{Board, Color, Manager};
use melody::connect_four_replies::{
    accept_reply, board_reply, board_to_text, challenge_reply, claim_win_reply, decline_reply, play_reply,
    print_piece, resign_reply, stats_reply,
};
use melody::console::MelodyCommandError;
use melody::markup::{blockify, emoji_ids_from_captures, mention, parse_emojis, timestamp_text, TimestampFormat};

const EMPTY_ROW: &str = ":black_circle::black_circle::black_circle::black_circle::black_circle::black_circle::black_circle:";

fn empty_board() -> String {
    format!(":one::two::three::four::five::six::seven:\n{}", format!("{EMPTY_ROW}\n").repeat(6))
}

#[test]
fn markup_pieces() {
    assert_eq!(blockify("Error: x"), "`Error: x`");
    assert_eq!(mention(42), "<@42>");
    assert_eq!(timestamp_text(1_700_000_000_123, TimestampFormat::Relative), "<t:1700000000:R>");
    assert_eq!(timestamp_text(-1, TimestampFormat::ShortDate), "<t:-1:d>");
    assert_eq!(timestamp_text(-1000, TimestampFormat::LongTime), "<t:-1:T>");
    assert_eq!(timestamp_text(0, TimestampFormat::LongDateTime), "<t:0:F>");
    assert_eq!(TimestampFormat::ShortDateTime.to_str(), "f");
}

#[test]
fn custom_emojis_in_messages() {
    assert_eq!(parse_emojis("hi <:smile:123> and <a:dance:456>!"), vec![123, 456]);
    assert_eq!(parse_emojis("<:bad:> <:x:99999999999999999999999> <smile:1>"), Vec::<u64>::new());
    assert_eq!(parse_emojis("no emojis"), Vec::<u64>::new());
    assert_eq!(emoji_ids_from_captures(&vec!["7".to_owned(), "x".to_owned(), "8".to_owned()]), vec![7, 8]);
}

#[test]
fn boards_as_text() {
    assert_eq!(print_piece(Some(Color::Player1)), ":red_circle:");
    assert_eq!(print_piece(None), ":black_circle:");
    assert_eq!(board_to_text(&Board::new(Color::Player1)), empty_board());
    let b = Board::new(Color::Player2).apply_move(0).unwrap();
    let text = board_to_text(&b);
    assert!(text.ends_with(&format!(":blue_circle:{}\n", ":black_circle:".repeat(6))));
}

#[test]
fn challenge_accept_decline() {
    let mut m = Manager::new();
    assert_eq!(
        challenge_reply(&mut m, 1, 2),
        "<@2>, <@1> has challenged you to a game of connect-four\nUse `/connect-four accept` to accept this challenge"
    );
    assert_eq!(
        challenge_reply(&mut m, 1, 1),
        "You cannot challenge that user at this time\n(Are you already playing a game?)"
    );
    assert!(challenge_reply(&mut m, 3, 2).starts_with("<@2>, <@3>"));
    assert_eq!(decline_reply(&mut m, 3, 2), "You have declined a challenge from <@3>");
    assert_eq!(decline_reply(&mut m, 3, 2), "You do not have a pending challenge from this user");
    assert_eq!(
        accept_reply(&mut m, 1, 2),
        format!("You have accepted <@1>'s challenge\nIt is your turn to play\nYou are :blue_circle:, your opponent is :red_circle:\n\n{}", empty_board())
    );
    assert_eq!(accept_reply(&mut m, 1, 2), "You must finish your current game before starting a new one!");
    assert_eq!(accept_reply(&mut m, 5, 6), "You do not have a pending challenge from this user");
    assert_eq!(
        board_reply(&m, 1),
        format!("This is your current game's board\nIt is <@2>'s turn to play\n\n{}", empty_board())
    );
    assert_eq!(board_reply(&m, 9), "You are not currently playing a game!");
    assert_eq!(stats_reply(&m, 1), "You have won 0 games\nYou have lost 0 games");
}

#[test]
fn playing_moves() {
    let mut m = Manager::new();
    challenge_reply(&mut m, 1, 2);
    accept_reply(&mut m, 1, 2);
    assert_eq!(play_reply(&mut m, 9, 1), Ok("You are not currently playing a game!".to_owned()));
    assert_eq!(play_reply(&mut m, 2, 0), Err(MelodyCommandError::PreconditionViolation("arguments")));
    assert_eq!(play_reply(&mut m, 1, 1), Ok("It is not your turn!".to_owned()));
    let r = play_reply(&mut m, 2, 1).unwrap();
    assert!(r.starts_with("It is <@1>'s turn to play\n\n:one:"), "{r}");
    // player 2 stacks column 1, player 1 column 2, until player 2 has four
    for (p, c) in [(1, 2), (2, 1), (1, 2), (2, 1), (1, 2)] {
        assert!(play_reply(&mut m, p, c).unwrap().starts_with("It is"));
    }
    let r = play_reply(&mut m, 2, 1).unwrap();
    assert!(r.starts_with("<@2> has played the winning move against <@1>!\n\n"), "{r}");
    assert_eq!(stats_reply(&m, 2), "You have won 1 games\nYou have lost 0 games");
    assert_eq!(stats_reply(&m, 1), "You have won 0 games\nYou have lost 1 games");
    assert_eq!(board_reply(&m, 2), "You are not currently playing a game!");
}

#[test]
fn illegal_moves_resigning_and_claims() {
    let mut m = Manager::new();
    challenge_reply(&mut m, 1, 2);
    accept_reply(&mut m, 1, 2);
    for p in [2, 1, 2, 1, 2, 1] {
        play_reply(&mut m, p, 7).unwrap();
    }
    assert_eq!(play_reply(&mut m, 2, 7), Ok("That move is illegal".to_owned()));
    assert_eq!(claim_win_reply(&mut m, 2, (0, 0)), "You cannot claim a win when it is your turn!");
    let early = claim_win_reply(&mut m, 1, (i64::MIN, 0));
    assert!(early.starts_with("You cannot claim a win yet\nYour opponent's turn started <t:"), "{early}");
    assert!(early.ends_with(":R>"));
    let late = claim_win_reply(&mut m, 1, (i64::MAX, 0));
    assert!(late.starts_with("<@1> has claimed a win against <@2>\n\n:one:"), "{late}");
    assert_eq!(stats_reply(&m, 1), "You have won 1 games\nYou have lost 0 games");
    assert_eq!(claim_win_reply(&mut m, 1, (i64::MAX, 0)), "You are not currently playing a game!");

    challenge_reply(&mut m, 1, 2);
    accept_reply(&mut m, 1, 2);
    assert_eq!(resign_reply(&mut m, 2), "You have resigned your connect-four game with <@1>");
    assert_eq!(resign_reply(&mut m, 2), "You are not currently playing a game!");
    assert_eq!(stats_reply(&m, 2), "You have won 0 games\nYou have lost 2 games");
}

#[test]
fn framework_failure_replies() {
    let internal = "An unexpected internal error has occurred";
    assert_eq!(framework_failure_reply(&FrameworkFailure::Command), internal);
    assert_eq!(framework_failure_reply(&FrameworkFailure::CommandPanic), internal);
    assert_eq!(framework_failure_reply(&FrameworkFailure::CommandStructureMismatch), internal);
    assert_eq!(framework_failure_reply(&FrameworkFailure::ArgumentParse), internal);
    assert_eq!(
        framework_failure_reply(&FrameworkFailure::MissingBotPermissions("Manage Roles".to_string())),
        "I am missing 'Manage Roles' permissions"
    );
    assert_eq!(
        framework_failure_reply(&FrameworkFailure::MissingUserPermissions(Some("Ban Members".to_string()))),
        "You do not have permission to do that (missing 'Ban Members' permissions)"
    );
    assert_eq!(
        framework_failure_reply(&FrameworkFailure::MissingUserPermissions(None)),
        "You do not have permission to do that"
    );
    assert_eq!(
        framework_failure_reply(&FrameworkFailure::NotAnOwner),
        "You do not have permission to do that (you are not a bot owner)"
    );
    assert_eq!(framework_failure_reply(&FrameworkFailure::GuildOnly), "This command cannot be used in DM channels");
    assert_eq!(framework_failure_reply(&FrameworkFailure::DmOnly), "This command cannot be used in guild channels");
    assert_eq!(framework_failure_reply(&FrameworkFailure::NsfwOnly), "This command cannot be used in NSFW channels");
    assert_eq!(cooldown_reply("2.50"), "Please wait 2.50 seconds before using that action again");
}

#[test]
fn print_board_texts() {
    let board = Board::new(Color::Player1).apply_move(3).unwrap();
    let text = board.print(print_piece).to_text();
    assert_eq!(text, board_to_text(&board));
    let custom = board.print(|p| if p.is_none() { "." } else { "#" }).to_text();
    assert_eq!(custom, format!(":one::two::three::four::five::six::seven:\n{}...#...\n", ".......\n".repeat(5)));
}

#[test]
fn user_mentions_and_splices() {
    use_mentions();
}

fn use_mentions() {
    let text = "hi <@12> and <@!345>, not <@> nor <@123456789012345678901234567890>";
    let ms = melody::markup::user_mentions(text);
    assert_eq!(ms.len(), 4);
    assert_eq!(ms[0], melody::markup::Mention { start: 3, end: 8, user_id: Some(12) });
    assert_eq!(ms[1], melody::markup::Mention { start: 13, end: 20, user_id: Some(345) });
    assert_eq!(ms[2].user_id, None);
    assert_eq!(ms[3].user_id, None);
    let replacements = vec![Some("@ann".to_owned()), None, Some("@nobody".to_owned()), None];
    assert_eq!(
        melody::markup::splice_mentions(text, &ms, &replacements),
        "hi @ann and <@!345>, not @nobody nor <@123456789012345678901234567890>"
    );
    let accented = "é <@7>!";
    let ms = melody::markup::user_mentions(accented);
    assert_eq!(ms, vec![melody::markup::Mention { start: 2, end: 6, user_id: Some(7) }]);
    assert_eq!(melody::markup::splice_mentions(accented, &ms, &vec![Some("X".to_owned())]), "é X!");
}

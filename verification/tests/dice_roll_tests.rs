use melody::dice_roll::{parse_roll, Comparison, ExecutedRoll, Mode, ModeType, Roll, RollTarget};
use melody::dice_text::{parse_rollable, roll_message};

fn roll(dice: u8, sides: u32, modifier: i16, mode: Option<Mode>, target: Option<RollTarget>) -> Roll {
    Roll { dice, sides, modifier, mode, target }
}

#[test]
fn dice_plain() {
    assert_eq!(parse_roll("2d6"), Ok(roll(2, 6, 0, None, None)));
    assert_eq!(parse_roll("  3d8  "), Ok(roll(3, 8, 0, None, None)));
}

#[test]
fn dice_single_die_defaults() {
    assert_eq!(parse_roll("d20"), Ok(roll(1, 20, 0, None, None)));
    assert_eq!(parse_roll("D20"), Ok(roll(1, 20, 0, None, None)));
}

#[test]
fn dice_modifiers() {
    assert_eq!(parse_roll("2d6+3"), Ok(roll(2, 6, 3, None, None)));
    assert_eq!(parse_roll("2d6 - 1"), Ok(roll(2, 6, -1, None, None)));
    assert_eq!(parse_roll("1d4 +40000"), Err(melody::dice_roll::ParseRollError));
}

#[test]
fn dice_keep_modes() {
    assert_eq!(parse_roll("4d6 max 3"), Ok(roll(4, 6, 0, Some(Mode(ModeType::Max, 3)), None)));
    assert_eq!(parse_roll("2d20 min"), Ok(roll(2, 20, 0, Some(Mode(ModeType::Min, 1)), None)));
    assert_eq!(parse_roll("3d6 minimum 2"), Ok(roll(3, 6, 0, Some(Mode(ModeType::Min, 2)), None)));
    // a single die keeps nothing apart
    assert_eq!(parse_roll("1d20 max 2"), Ok(roll(1, 20, 0, None, None)));
}

#[test]
fn dice_advantage_syntax() {
    assert_eq!(parse_roll("d20 adv"), Ok(roll(2, 20, 0, Some(Mode(ModeType::Max, 1)), None)));
    assert_eq!(parse_roll("d20 disadvantage"), Ok(roll(2, 20, 0, Some(Mode(ModeType::Min, 1)), None)));
    assert_eq!(parse_roll("d8+2 advantage"), Ok(roll(2, 8, 2, Some(Mode(ModeType::Max, 1)), None)));
}

#[test]
fn dice_targets() {
    let t = |comparison, total| Some(RollTarget { total, comparison });
    assert_eq!(parse_roll("d20 >= 15"), Ok(roll(1, 20, 0, None, t(Comparison::GreaterThanEqualTo, 15))));
    assert_eq!(parse_roll("2d6, <7"), Ok(roll(2, 6, 0, None, t(Comparison::LessThan, 7))));
    assert_eq!(parse_roll("d20 \u{2265} 10"), Ok(roll(1, 20, 0, None, t(Comparison::GreaterThanEqualTo, 10))));
    assert_eq!(parse_roll("d6 != 3"), Ok(roll(1, 6, 0, None, t(Comparison::NotEqualTo, 3))));
    assert_eq!(parse_roll("d6 = 3"), Ok(roll(1, 6, 0, None, t(Comparison::EqualTo, 3))));
}

#[test]
fn dice_coins() {
    assert_eq!(parse_roll("coin"), Ok(Roll::new_coin(None)));
    assert_eq!(parse_roll("coin heads"), Ok(Roll::new_coin(Some(true))));
    assert_eq!(parse_roll("COIN, tails"), Ok(Roll::new_coin(Some(false))));
    assert_eq!(parse_roll("coin 1"), Ok(Roll::new_coin(Some(true))));
    assert_eq!(
        Roll::new_coin(Some(false)),
        roll(1, 2, 0, None, Some(RollTarget { total: 2, comparison: Comparison::EqualTo }))
    );
    assert_eq!(RollTarget::coin_heads(), RollTarget { total: 1, comparison: Comparison::EqualTo });
}

#[test]
fn dice_rejected_inputs() {
    for input in ["", "d1", "0d6", "2d", "2d6 foo", "300d6", "d20 > -1", "coin edge"] {
        assert!(parse_roll(input).is_err(), "{input:?} should not parse");
    }
}

#[test]
fn comparison_exec_and_symbols() {
    assert!(Comparison::GreaterThanEqualTo.exec(3, 3));
    assert!(!Comparison::GreaterThan.exec(3, 3));
    assert!(Comparison::LessThan.exec(2, 3));
    assert!(Comparison::NotEqualTo.exec(2, 3));
    assert_eq!(Comparison::GreaterThanEqualTo.to_str(), "\u{2265}");
    assert_eq!(Comparison::NotEqualTo.to_str(), "\u{2260}");
    assert_eq!(Comparison::EqualTo.to_str(), "=");
}

#[test]
fn executed_roll_totals() {
    let keep_high = ExecutedRoll {
        roll_results: vec![3, 5, 1],
        roll: roll(3, 6, 1, Some(Mode(ModeType::Max, 2)),
            Some(RollTarget { total: 10, comparison: Comparison::GreaterThanEqualTo })),
    };
    assert_eq!(keep_high.total(), 10);
    assert_eq!(keep_high.outcome(), Some(true));

    let keep_low = ExecutedRoll { roll_results: vec![1, 2, 3], roll: roll(3, 6, 0, Some(Mode(ModeType::Min, 2)), None) };
    assert_eq!(keep_low.total(), 3);
    assert_eq!(keep_low.outcome(), None);

    let all = ExecutedRoll { roll_results: vec![1, 2, 3], roll: roll(3, 6, -1, None, None) };
    assert_eq!(all.total(), 3);

    let single = ExecutedRoll { roll_results: vec![4], roll: roll(1, 6, -1, None,
        Some(RollTarget { total: 4, comparison: Comparison::LessThan })) };
    assert_eq!(single.total(), 3);
    assert_eq!(single.outcome(), Some(true));
}

#[test]
fn executing_rolls_stays_in_range() {
    let r = parse_roll("5d6 max 2").unwrap();
    let executed = r.execute();
    assert_eq!(executed.roll_results.len(), 5);
    assert!(executed.roll_results.iter().all(|&v| (1..=6).contains(&v)));
    assert_eq!(executed.roll, r);
    let coin = Roll::new_coin(None).execute();
    assert!(coin.roll_results[0] == 1 || coin.roll_results[0] == 2);
}

#[test]
fn dice_notation_text() {
    assert_eq!(Mode(ModeType::Max, 3).to_text(), "max 3");
    assert_eq!(Mode(ModeType::Min, 1).to_text(), "min");
    assert_eq!(roll(2, 6, 3, None, None).to_text(), "2d6 + 3");
    assert_eq!(roll(1, 20, 0, None, None).to_text(), "d20 - 0");
    assert_eq!(roll(2, 20, 0, Some(Mode(ModeType::Max, 1)), None).to_text(), "2d20 - 0 adv");
    assert_eq!(roll(2, 20, 2, Some(Mode(ModeType::Min, 1)), None).to_text(), "2d20 + 2 dis");
    assert_eq!(roll(4, 6, -1, Some(Mode(ModeType::Max, 3)), None).to_text(), "4d6 - 1 max 3");
}

#[test]
fn rolled_roll_messages() {
    let t = |comparison, total| Some(RollTarget { total, comparison });
    let e = |rs: Vec<u32>, r: Roll| ExecutedRoll { roll_results: rs, roll: r };
    assert_eq!(e(vec![4], roll(1, 6, 0, None, None)).to_text(), "**4**");
    assert_eq!(e(vec![4], roll(1, 6, -1, None, None)).to_text(), "(4) - 1 = **3**");
    assert_eq!(
        e(vec![3, 5, 1], roll(3, 6, 1, Some(Mode(ModeType::Max, 2)), t(Comparison::GreaterThanEqualTo, 10))).to_text(),
        "[(3) + 1 = 4, (5) + 1 = 6, (1) + 1 = 2] max 2 = **10** \u{2265} 10, **SUCCESS**"
    );
    assert_eq!(e(vec![1, 2, 3], roll(3, 6, 0, None, None)).to_text(), "[1, 2, 3] = **6**");
    assert_eq!(e(vec![1, 2], roll(2, 6, 0, Some(Mode(ModeType::Min, 1)), None)).to_text(), "[1, 2] min = **1**");
    assert_eq!(e(vec![4], roll(1, 6, 0, None, t(Comparison::GreaterThan, 5))).to_text(), "**4** > 5, **FAILURE**");
}

#[test]
fn roll_messages_from_notation() {
    let r = parse_rollable("3d6").unwrap().unwrap();
    let m = roll_message(r);
    assert!(m.starts_with('[') && m.contains("] = **"), "{m}");
    assert_eq!(parse_rollable("2d6 max 5"), Ok(None));
    assert!(parse_rollable("nonsense").is_err());
    let coin = roll_message(parse_rollable("coin heads").unwrap().unwrap());
    assert!(coin == "**1** = 1, **SUCCESS**" || coin == "**2** = 1, **FAILURE**", "{coin}");
    let many = roll_message(parse_rollable("255d4294967295 + 32767").unwrap().unwrap());
    assert_eq!(many, "The resulting message was too long to send...");
}

use melody::troll::{ping_reply, troll_case, troll_plan, troll_reply, TrollCase, TrollPlan, TrollTarget};

#[test]
fn troll_cases() {
    assert_eq!(troll_case(1, None, 9, true), TrollCase::Alone);
    assert_eq!(troll_case(1, Some(9), 9, true), TrollCase::Bot);
    assert_eq!(troll_case(1, Some(1), 9, true), TrollCase::Themselves);
    assert_eq!(troll_case(1, Some(2), 9, true), TrollCase::Lucky);
    assert_eq!(troll_case(1, Some(2), 9, false), TrollCase::Unlucky);
}

#[test]
fn troll_plans() {
    assert_eq!(troll_plan(TrollCase::Bot), TrollPlan { target: TrollTarget::Perpetrator, seconds: 30 });
    assert_eq!(troll_plan(TrollCase::Lucky), TrollPlan { target: TrollTarget::Victim, seconds: 10 });
    assert_eq!(troll_plan(TrollCase::Unlucky), TrollPlan { target: TrollTarget::Perpetrator, seconds: 10 });
    assert_eq!(troll_plan(TrollCase::Alone), TrollPlan { target: TrollTarget::Perpetrator, seconds: 10 });
    assert_eq!(troll_plan(TrollCase::Themselves), TrollPlan { target: TrollTarget::Perpetrator, seconds: 10 });
}

#[test]
fn troll_replies() {
    assert_eq!(troll_reply(TrollCase::Alone, 5, 0, true), "<@5> has been trolled.");
    assert_eq!(troll_reply(TrollCase::Alone, 5, 0, false), "Sorry, I cannot do that.");
    assert_eq!(troll_reply(TrollCase::Bot, 5, 9, false), "Not happening, buddy.");
    assert_eq!(
        troll_reply(TrollCase::Bot, 5, 9, true),
        "Impossible. Heresy. Unspeakable. Heresy. Heresy. Silence."
    );
    assert_eq!(troll_reply(TrollCase::Themselves, 5, 5, true), "<@5> has successfully trolled themselves.");
    assert_eq!(troll_reply(TrollCase::Lucky, 5, 7, true), "<@5> has successfully trolled <@7>.");
    assert_eq!(
        troll_reply(TrollCase::Lucky, 5, 7, false),
        "Sorry, even though you succeeded, I don't have permission to do that."
    );
    assert_eq!(troll_reply(TrollCase::Unlucky, 5, 7, true), "<@5>'s attempt at trollage was a royal failure.");
    assert_eq!(troll_reply(TrollCase::Unlucky, 5, 7, false), "Sorry, I don't have permission to do that.");
}

#[test]
fn ping_replies() {
    assert_eq!(ping_reply(true), "Pog");
    assert_eq!(ping_reply(false), "Pong");
}

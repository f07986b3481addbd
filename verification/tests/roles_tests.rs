use melody::blueprint_args::{RoleId, RoleOrUser, UserId};
use melody::guild_roles::{
    gate_refusal_text, role_change_reply, role_gate, role_granters_reply, with_bot_position_note, GuildRoles, RoleGate,
};
use melody::roles::{
    is_granter, member_role_position, role_description, stringify_grant_roles, stringify_granters_list,
    stringify_join_roles, user_description, Granter, JoinRoleFilter,
};

#[test]
fn join_role_filters() {
    assert!(JoinRoleFilter::All.applies(true) && JoinRoleFilter::All.applies(false));
    assert!(JoinRoleFilter::Bots.applies(true) && !JoinRoleFilter::Bots.applies(false));
    assert!(!JoinRoleFilter::Humans.applies(true) && JoinRoleFilter::Humans.applies(false));
    for f in [JoinRoleFilter::All, JoinRoleFilter::Bots, JoinRoleFilter::Humans] {
        assert_eq!(JoinRoleFilter::from_str(f.to_str()), Some(f));
    }
    assert_eq!(JoinRoleFilter::from_str("Bots"), None);
    assert_eq!(JoinRoleFilter::Humans.to_str(), "humans");
}

#[test]
fn granters() {
    assert_eq!(Granter::from_role_or_user(RoleOrUser::User(UserId(3))), Granter::User(UserId(3)));
    assert_eq!(Granter::from_role_or_user(RoleOrUser::Role(RoleId(4))), Granter::Role(RoleId(4)));
    assert_eq!(Granter::Role(RoleId(1)).type_str(), "role");
    assert_eq!(Granter::User(UserId(1)).type_str(), "user");
    let gs = vec![Granter::User(UserId(10)), Granter::Role(RoleId(77))];
    assert!(is_granter(&gs, 10, &vec![]));
    assert!(is_granter(&gs, 11, &vec![5, 77]));
    assert!(!is_granter(&gs, 11, &vec![5, 6]));
    assert!(!is_granter(&vec![], 10, &vec![77]));
}

#[test]
fn descriptions() {
    assert_eq!(role_description(42, Some("Mods")), "role `@Mods`");
    assert_eq!(role_description(42, None), "role `42`");
    assert_eq!(user_description(7, Some("ann")), "user `@ann`");
    assert_eq!(user_description(7, None), "user `7`");
    assert_eq!(stringify_granters_list(&vec![]), "none");
    assert_eq!(
        stringify_granters_list(&vec!["role `@Mods`".to_owned(), "user `7`".to_owned()]),
        "role `@Mods`, user `7`"
    );
}

#[test]
fn role_lists() {
    assert_eq!(stringify_grant_roles(&vec![]), "There are no grantable roles registered");
    assert_eq!(
        stringify_grant_roles(&vec![("role `@A`".to_owned(), "none".to_owned()), ("role `2`".to_owned(), "user `1`".to_owned())]),
        "There are 2 grantable roles:\n- role `@A`: none\n- role `2`: user `1`"
    );
    assert_eq!(stringify_join_roles(&vec![]), "There are no join roles registered");
    assert_eq!(
        stringify_join_roles(&vec![("role `@B`".to_owned(), JoinRoleFilter::Bots)]),
        "There are 1 join roles:\n- role `@B`: `bots`"
    );
}

#[test]
fn highest_role_position() {
    assert_eq!(member_role_position(&vec![]), 0);
    assert_eq!(member_role_position(&vec![3, 9, 2]), 9);
    assert_eq!(member_role_position(&vec![4]), 4);
}

#[test]
fn grantable_roles() {
    let mut g = GuildRoles::new();
    assert_eq!(g.add_granter(7, "Helper", Granter::User(UserId(1)), "user `@ann`"), "The role `@Helper` is not a grantable role");
    assert_eq!(
        g.add_grant_role(7, "Helper"),
        "Created new grant role for `@Helper` (Add granters with the `/grant-roles add-granter`)"
    );
    assert_eq!(
        g.add_granter(7, "Helper", Granter::User(UserId(1)), "user `@ann`"),
        "Added user `@ann` as a granter for grantable role `@Helper`"
    );
    assert_eq!(
        g.add_granter(7, "Helper", Granter::User(UserId(1)), "user `@ann`"),
        "That user is already a granter for grantable role `@Helper`"
    );
    g.add_granter(7, "Helper", Granter::Role(RoleId(9)), "role `@Mods`");
    assert_eq!(g.granters_of(7).unwrap().len(), 2);
    assert!(g.may_grant(7, 1, &vec![]));
    assert!(g.may_grant(7, 2, &vec![9]));
    assert!(!g.may_grant(7, 2, &vec![8]));
    assert!(!g.may_grant(8, 1, &vec![]));
    assert_eq!(
        g.remove_granter(7, "Helper", Granter::User(UserId(1)), "user `@ann`"),
        "Removed user `@ann` as a granter for grantable role `@Helper`"
    );
    assert_eq!(
        g.remove_granter(7, "Helper", Granter::User(UserId(1)), "user `@ann`"),
        "That user is not a granter for grantable role `@Helper`"
    );
    assert_eq!(g.granters_of(7), Some(vec![Granter::Role(RoleId(9))]));
    assert_eq!(g.add_grant_role(7, "Helper"), "Reset granters for existing grant role `@Helper`");
    assert_eq!(g.granters_of(7), Some(vec![]));
    assert_eq!(g.remove_grant_role(7, "Helper"), "Removed existing grant role `@Helper`");
    assert_eq!(g.remove_grant_role(7, "Helper"), "No grant role for `@Helper` was found");
    assert_eq!(g.granters_of(7), None);
}

#[test]
fn join_roles() {
    let mut g = GuildRoles::new();
    assert_eq!(g.add_join_role(1, "Bots", JoinRoleFilter::Bots), "Created new join role for `@Bots` with filter `bots`");
    assert_eq!(g.add_join_role(1, "Bots", JoinRoleFilter::Bots), "A join role already exists for `@Bots` with filter `bots`");
    assert_eq!(g.add_join_role(1, "Bots", JoinRoleFilter::All), "Replaced existing join role for `@Bots` with filter `all`");
    g.add_join_role(2, "Humans", JoinRoleFilter::Humans);
    g.add_join_role(3, "Gone", JoinRoleFilter::All);
    let mut entries = g.join_role_entries();
    entries.sort_by_key(|e| e.0);
    assert_eq!(entries, vec![(1, JoinRoleFilter::All), (2, JoinRoleFilter::Humans), (3, JoinRoleFilter::All)]);
    let (mut give, missing) = g.take_join_roles(false, &vec![1, 2, 5]);
    give.sort();
    assert_eq!(give, vec![1, 2]);
    assert_eq!(missing, vec![3]);
    assert_eq!(g.join_role_entries().len(), 2);
    let (give, missing) = g.take_join_roles(true, &vec![1, 2]);
    assert_eq!((give, missing), (vec![1], vec![]));
    assert_eq!(g.remove_join_role(2, "Humans"), "Removed existing join role for `@Humans` with filter `humans`");
    assert_eq!(g.remove_join_role(2, "Humans"), "No join role for `@Humans` was found");
}

#[test]
fn role_command_gates_and_replies() {
    assert_eq!(role_gate(true, 1, 5, true), RoleGate::Managed);
    assert_eq!(role_gate(false, 5, 5, false), RoleGate::UserTooLow);
    assert_eq!(role_gate(false, 5, 5, true), RoleGate::Proceed);
    assert_eq!(role_gate(false, 4, 5, false), RoleGate::Proceed);
    assert_eq!(
        gate_refusal_text(RoleGate::Managed).unwrap(),
        "The role you have specified is a managed role and may not be used"
    );
    assert!(gate_refusal_text(RoleGate::Proceed).is_none());
    assert_eq!(with_bot_position_note("ok".to_owned(), 2, 3), "ok");
    assert_eq!(
        with_bot_position_note("ok".to_owned(), 3, 3),
        "ok\nThe role you have specified is above my highest role and inaccessible to me"
    );
    assert_eq!(role_change_reply(true, true, true, "Helper", "ann"), "Granted role `@Helper` to user `@ann`");
    assert_eq!(role_change_reply(false, true, false, "Helper", "ann"), "Failed to revoke role `@Helper` from user `@ann`");
    assert_eq!(role_change_reply(false, false, true, "Helper", "ann"), "You cannot revoke this role");
    assert_eq!(
        role_granters_reply("Helper", Some("none")),
        "The role `@Helper` has the following granters:\nnone"
    );
    assert_eq!(role_granters_reply("Helper", None), "The role `@Helper` is not a grantable role");
}

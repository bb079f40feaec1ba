use freeq::channel::{BanEntry, ChannelState, HistoryMessage, MAX_HISTORY};
use freeq::modes::{
    channel_is_new, channel_modes, check_join, check_relay, check_send, did_op_change, join_invite_forms, role_mode,
    RoleMode, join_gets_op, mode_line, plan_mode,
    DidOpChange, JoinRefusal, ModeStep, SendRefusal,
};
use freeq::tags::TagMap;

#[test]
fn mode_query_lists_set_modes_in_order() {
    let mut ch = ChannelState::default();
    assert_eq!(channel_modes(&ch), "+");
    ch.no_ext_msg = true;
    ch.topic_locked = true;
    assert_eq!(channel_modes(&ch), "+nt");
    ch.invite_only = true;
    ch.moderated = true;
    ch.key = Some("k".into());
    assert_eq!(channel_modes(&ch), "+ntimk");
}

#[test]
fn mode_plan_reads_signs_and_letters() {
    assert_eq!(
        plan_mode("+it-n", false),
        vec![ModeStep::InviteOnly(true), ModeStep::TopicLock(true), ModeStep::NoExternal(false)]
    );
    assert_eq!(
        plan_mode("-o", true),
        vec![ModeStep::Member { adding: false, voice: false }]
    );
    assert_eq!(plan_mode("+v", true), vec![ModeStep::Member { adding: true, voice: true }]);
    assert_eq!(plan_mode("+m+x", false), vec![ModeStep::Moderated(true), ModeStep::Unknown('x')]);
}

#[test]
fn mode_plan_stops_where_the_command_does() {
    // +o without a nick: needs more params, nothing after it runs.
    assert_eq!(plan_mode("+ot", false), vec![ModeStep::NeedMoreParams]);
    // +b alone lists bans and stops.
    assert_eq!(plan_mode("+bi", false), vec![ModeStep::ListBans]);
    // -b alone ends silently.
    assert_eq!(plan_mode("+i-bt", false), vec![ModeStep::InviteOnly(true)]);
    // Keys.
    assert_eq!(plan_mode("+k", true), vec![ModeStep::SetKey]);
    assert_eq!(plan_mode("+k", false), vec![ModeStep::NeedMoreParams]);
    assert_eq!(plan_mode("-k", false), vec![ModeStep::ClearKey]);
    assert_eq!(plan_mode("+b-b", true), vec![ModeStep::AddBan, ModeStep::RemoveBan]);
    assert_eq!(plan_mode("", true), vec![]);
}

#[test]
fn flag_steps_change_the_channel() {
    let mut ch = ChannelState::default();
    ch.invites.insert("s1".into());
    assert_eq!(ch.apply_flag_step(ModeStep::InviteOnly(true), ""), None);
    assert!(ch.invite_only);
    assert_eq!(ch.invites.len(), 1);
    ch.apply_flag_step(ModeStep::InviteOnly(false), "");
    assert!(!ch.invite_only);
    assert!(ch.invites.is_empty());
    ch.apply_flag_step(ModeStep::SetKey, "secret");
    assert_eq!(ch.key.as_deref(), Some("secret"));
    assert_eq!(ch.apply_flag_step(ModeStep::ClearKey, ""), Some("secret".to_string()));
    assert_eq!(ch.key, None);
    assert_eq!(ch.apply_flag_step(ModeStep::ClearKey, ""), None);
    ch.apply_flag_step(ModeStep::Moderated(true), "");
    ch.apply_flag_step(ModeStep::NoExternal(true), "");
    ch.apply_flag_step(ModeStep::TopicLock(true), "");
    assert!(ch.moderated && ch.no_ext_msg && ch.topic_locked);
    ch.apply_flag_step(ModeStep::AddBan, "x");
    assert!(ch.bans.is_empty());
}

fn msg(i: u64) -> HistoryMessage {
    HistoryMessage { from: "a!b@c".into(), text: i.to_string(), timestamp: i, tags: TagMap::new() }
}

#[test]
fn history_keeps_the_newest_messages() {
    let mut ch = ChannelState::default();
    for i in 0..(MAX_HISTORY as u64 + 5) {
        ch.record_history(msg(i));
        assert!(ch.history.len() <= MAX_HISTORY);
    }
    assert_eq!(ch.history.len(), MAX_HISTORY);
    assert_eq!(ch.history.front().unwrap().timestamp, 5);
    assert_eq!(ch.history.back().unwrap().timestamp, MAX_HISTORY as u64 + 4);
}

#[test]
fn send_rules() {
    assert_eq!(check_send(true, false, false, false, false), Some(SendRefusal::NoExternal));
    assert_eq!(check_send(true, false, true, false, false), None);
    assert_eq!(check_send(false, true, true, false, false), Some(SendRefusal::Moderated));
    assert_eq!(check_send(false, true, true, false, true), None);
    assert_eq!(check_send(false, true, true, true, false), None);
    // +n is checked before +m.
    assert_eq!(check_send(true, true, false, false, false), Some(SendRefusal::NoExternal));
    assert!(check_relay(false, false, false, false));
    assert!(!check_relay(true, false, false, true));
    assert!(!check_relay(false, true, true, false));
    assert!(check_relay(true, true, true, true));
}

#[test]
fn join_rules() {
    // New channels skip key, ban and invite checks.
    assert_eq!(check_join(true, false, true, true, false, false, false, None), None);
    assert_eq!(check_join(false, false, true, true, false, false, false, None), Some(JoinRefusal::BadKey));
    assert_eq!(check_join(false, true, true, true, false, false, false, None), Some(JoinRefusal::Banned));
    assert_eq!(check_join(false, true, false, true, false, false, false, None), Some(JoinRefusal::InviteOnly));
    assert_eq!(check_join(false, true, false, true, true, false, false, None), None);
    // Policy: guests are refused, attested users pass, engine errors fail open.
    assert_eq!(check_join(false, true, false, false, false, true, false, None), Some(JoinRefusal::NeedsAuthentication));
    assert_eq!(check_join(false, true, false, false, false, true, true, Some(false)), Some(JoinRefusal::NeedsPolicyAcceptance));
    assert_eq!(check_join(false, true, false, false, false, true, true, Some(true)), None);
    assert_eq!(check_join(false, true, false, false, false, true, true, None), None);
}

#[test]
fn join_op_rules() {
    assert!(join_gets_op(true, false, false, false, true));
    assert!(join_gets_op(false, true, false, false, true));
    assert!(join_gets_op(false, false, true, true, false));
    assert!(!join_gets_op(false, false, true, false, false));
    assert!(!join_gets_op(false, false, true, true, true));
}

#[test]
fn founders_keep_their_operator_did() {
    assert_eq!(did_op_change(true, Some("did:plc:a"), Some("did:plc:a")), DidOpChange::Grant);
    assert_eq!(did_op_change(false, Some("did:plc:a"), Some("did:plc:a")), DidOpChange::Unchanged);
    assert_eq!(did_op_change(false, Some("did:plc:b"), Some("did:plc:a")), DidOpChange::Revoke);
    assert_eq!(did_op_change(false, Some("did:plc:b"), None), DidOpChange::Revoke);
    assert_eq!(did_op_change(true, None, None), DidOpChange::Unchanged);
}

#[test]
fn ban_lists_add_once_and_remove_all() {
    let mut ch = ChannelState::default();
    assert!(ch.add_ban(BanEntry { mask: "*!*@bad".into(), set_by: "op".into(), set_at: 1 }));
    assert!(!ch.add_ban(BanEntry { mask: "*!*@bad".into(), set_by: "op2".into(), set_at: 2 }));
    assert!(ch.add_ban(BanEntry { mask: "did:plc:x".into(), set_by: "op".into(), set_at: 3 }));
    assert_eq!(ch.bans.len(), 2);
    assert_eq!(ch.bans[0].set_by, "op");
    ch.remove_ban("*!*@bad");
    assert_eq!(ch.bans.len(), 1);
    assert_eq!(ch.bans[0].mask, "did:plc:x");
    ch.remove_ban("nothing");
    assert_eq!(ch.bans.len(), 1);
}

#[test]
fn mode_lines() {
    assert_eq!(mode_line("a!u@h", "#c", "+o", Some("bob")), ":a!u@h MODE #c +o bob\r\n");
    assert_eq!(mode_line("a!u@h", "#c", "-t", None), ":a!u@h MODE #c -t\r\n");
}

#[test]
fn joins_create_empty_channels() {
    assert!(channel_is_new(false, false, false, false, false, false));
    assert!(channel_is_new(true, true, true, true, true, true));
    assert!(!channel_is_new(true, true, true, false, true, true));
}

#[test]
fn invitations_come_in_three_forms() {
    assert_eq!(
        join_invite_forms("s1", Some("did:plc:a"), "al"),
        vec!["s1".to_string(), "did:plc:a".to_string(), "nick:al".to_string()]
    );
    assert_eq!(join_invite_forms("s1", None, "al"), vec!["s1".to_string(), "nick:al".to_string()]);
}

#[test]
fn policy_roles_bring_modes() {
    for r in ["op", "admin", "owner", "moderator"] {
        assert_eq!(role_mode(r), RoleMode::Op);
    }
    for r in ["voice", "voiced", "speaker"] {
        assert_eq!(role_mode(r), RoleMode::Voice);
    }
    assert_eq!(role_mode("member"), RoleMode::Member);
    assert_eq!(role_mode("OP"), RoleMode::Member);
}

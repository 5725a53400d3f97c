use rssbot::channel::{
    normalize_channel, ChannelAction, ChannelCheck, ChannelEvent, ChannelOutcome, ChannelStep,
};

#[test]
fn normalize_channel_examples() {
    assert_eq!(normalize_channel("1234567890"), "-1001234567890");
    assert_eq!(normalize_channel("-1001234567890"), "-1001234567890");
    assert_eq!(normalize_channel("mychannel"), "@mychannel");
    assert_eq!(normalize_channel("@mychannel"), "@mychannel");
    assert_eq!(normalize_channel("-5"), "-100-5");
    assert_eq!(normalize_channel("+5"), "-100+5");
    assert_eq!(normalize_channel("99999999999999999999"), "@99999999999999999999");
    assert_eq!(normalize_channel(""), "@");
}

#[test]
fn normalize_channel_twice() {
    for c in ["123", "-100123", "name", "@name", ""].iter() {
        let once = normalize_channel(c);
        assert_eq!(normalize_channel(&once), once);
    }
    // The input on which normalizing twice differs.
    assert_eq!(normalize_channel(&normalize_channel("-5")), "@-100-5");
}

fn start() -> ChannelCheck {
    let (check, action) = ChannelCheck::start(10, 20, 30, "mychannel");
    match action {
        ChannelAction::SendNotice { chat_id, text } => {
            assert_eq!(chat_id, 10);
            assert_eq!(text, "checking Channel");
        }
        other => panic!("unexpected {:?}", other),
    }
    assert_eq!(check.name, "@mychannel");
    check
}

fn to_chat(check: &mut ChannelCheck) {
    match check.next(ChannelEvent::NoticeSent { message_id: 5 }) {
        ChannelAction::GetChat { name } => assert_eq!(name, "@mychannel"),
        other => panic!("unexpected {:?}", other),
    }
}

fn expect_edit(action: ChannelAction, expected: &str) {
    match action {
        ChannelAction::EditNotice { chat_id, message_id, text } => {
            assert_eq!(chat_id, 10);
            assert_eq!(message_id, 5);
            assert_eq!(text, expected);
        }
        other => panic!("unexpected {:?}", other),
    }
}

#[test]
fn channel_check_passes() {
    let mut check = start();
    to_chat(&mut check);
    match check.next(ChannelEvent::ChatFound { kind: "channel".to_string(), id: -1001 }) {
        ChannelAction::GetAdmins { channel_id } => assert_eq!(channel_id, -1001),
        other => panic!("unexpected {:?}", other),
    }
    match check.next(ChannelEvent::AdminsFound { user_ids: vec![1, 30, 20] }) {
        ChannelAction::DeleteNotice { chat_id, message_id } => {
            assert_eq!((chat_id, message_id), (10, 5));
        }
        other => panic!("unexpected {:?}", other),
    }
    match check.next(ChannelEvent::Deleted) {
        ChannelAction::Finish(outcome) => assert_eq!(outcome, ChannelOutcome::Verified(-1001)),
        other => panic!("unexpected {:?}", other),
    }
    assert_eq!(check.step, ChannelStep::Done);
}

#[test]
fn channel_check_refuses_groups() {
    let mut check = start();
    to_chat(&mut check);
    let action = check.next(ChannelEvent::ChatFound { kind: "supergroup".to_string(), id: -7 });
    expect_edit(action, "the target must be Channel");
    match check.next(ChannelEvent::Edited) {
        ChannelAction::Finish(outcome) => assert_eq!(outcome, ChannelOutcome::Refused),
        other => panic!("unexpected {:?}", other),
    }
}

#[test]
fn channel_check_reports_unknown_channel() {
    let mut check = start();
    to_chat(&mut check);
    let action = check.next(ChannelEvent::Refusal { description: "Bad Request: chat not found".to_string() });
    expect_edit(action, "can not find the Channel: Bad Request: chat not found");
}

#[test]
fn channel_check_needs_bot_admin() {
    let mut check = start();
    to_chat(&mut check);
    check.next(ChannelEvent::ChatFound { kind: "channel".to_string(), id: -1001 });
    let action = check.next(ChannelEvent::AdminsFound { user_ids: vec![20] });
    expect_edit(action, "should set Bot as admin.");
}

#[test]
fn channel_check_needs_user_admin() {
    let mut check = start();
    to_chat(&mut check);
    check.next(ChannelEvent::ChatFound { kind: "channel".to_string(), id: -1001 });
    let action = check.next(ChannelEvent::AdminsFound { user_ids: vec![30] });
    expect_edit(action, "this command only available for Channel's admin.");
}

#[test]
fn channel_check_reports_admin_list_refusal() {
    let mut check = start();
    to_chat(&mut check);
    check.next(ChannelEvent::ChatFound { kind: "channel".to_string(), id: -1001 });
    let action = check.next(ChannelEvent::Refusal { description: "Forbidden".to_string() });
    expect_edit(action, "you should set Bot as this Channel's admin : Forbidden");
}

#[test]
fn channel_check_fails_on_request_failure() {
    let mut check = start();
    match check.next(ChannelEvent::Failure) {
        ChannelAction::Finish(outcome) => assert_eq!(outcome, ChannelOutcome::Failed),
        other => panic!("unexpected {:?}", other),
    }
    let mut check = start();
    to_chat(&mut check);
    check.next(ChannelEvent::ChatFound { kind: "channel".to_string(), id: -1001 });
    check.next(ChannelEvent::AdminsFound { user_ids: vec![20, 30] });
    match check.next(ChannelEvent::Failure) {
        ChannelAction::Finish(outcome) => assert_eq!(outcome, ChannelOutcome::Failed),
        other => panic!("unexpected {:?}", other),
    }
}

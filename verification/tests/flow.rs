use rssbot::channel::ChannelOutcome;
use rssbot::feed::Feed;
use rssbot::flow::{
    ByReplyFlow, ExportFlow, FeedNotice, FlowAction, FlowEvent, ListFlow, StoreError,
    SubscribeFlow, UnsubscribeFlow,
};

fn feed(title: &str, link: &str) -> Feed {
    Feed { title: title.to_string(), link: link.to_string() }
}

fn expect_send(action: FlowAction, chat: i64, expected: &str) {
    match action {
        FlowAction::Send { chat_id, text } => {
            assert_eq!(chat_id, chat);
            assert_eq!(text, expected);
        }
        other => panic!("unexpected {:?}", other),
    }
}

fn expect_finish(action: FlowAction) {
    assert!(matches!(action, FlowAction::Finish), "unexpected {:?}", action);
}

#[test]
fn list_usage() {
    let (mut flow, action) = ListFlow::start(1, "a b c");
    expect_send(action, 1, "usage: /list (${Channel-Username}) (display-url)");
    expect_finish(flow.next(FlowEvent::Sent));
}

#[test]
fn list_nothing() {
    let (mut flow, action) = ListFlow::start(1, "");
    assert!(matches!(action, FlowAction::ListFeeds { subscriber: 1 }));
    expect_send(flow.next(FlowEvent::FeedsListed(None)), 1, "you subscribe nothing.");
    expect_finish(flow.next(FlowEvent::Sent));
}

#[test]
fn list_links_of_channel() {
    let (mut flow, action) = ListFlow::start(1, "@chan display-url");
    match action {
        FlowAction::CheckChannel { name } => assert_eq!(name, "@chan"),
        other => panic!("unexpected {:?}", other),
    }
    let action = flow.next(FlowEvent::ChannelChecked(ChannelOutcome::Verified(-100)));
    assert!(matches!(action, FlowAction::ListFeeds { subscriber: -100 }));
    let action = flow.next(FlowEvent::FeedsListed(Some(vec![feed("b", "https://b"), feed("a", "https://a")])));
    match action {
        FlowAction::SendList { chat_id, feeds, show_links } => {
            assert_eq!(chat_id, 1);
            assert!(show_links);
            let links: Vec<String> = feeds.into_iter().map(|f| f.link).collect();
            assert_eq!(links, vec!["https://a", "https://b"]);
        }
        other => panic!("unexpected {:?}", other),
    }
}

#[test]
fn list_stops_when_channel_refused() {
    let (mut flow, _) = ListFlow::start(1, "@chan");
    expect_finish(flow.next(FlowEvent::ChannelChecked(ChannelOutcome::Refused)));
}

#[test]
fn subscribe_success() {
    let (mut flow, action) = SubscribeFlow::start(7, "http://x/rss");
    match action {
        FlowAction::CheckSubscribed { subscriber, link } => {
            assert_eq!(subscriber, 7);
            assert_eq!(link, "http://x/rss");
        }
        other => panic!("unexpected {:?}", other),
    }
    match flow.next(FlowEvent::IsSubscribed(false)) {
        FlowAction::Post { chat_id, text } => {
            assert_eq!(chat_id, 7);
            assert_eq!(text, "dealing...");
        }
        other => panic!("unexpected {:?}", other),
    }
    match flow.next(FlowEvent::Posted { message_id: 99 }) {
        FlowAction::Fetch { link } => assert_eq!(link, "http://x/rss"),
        other => panic!("unexpected {:?}", other),
    }
    match flow.next(FlowEvent::Fetched { title: "X".to_string(), source: "http://x/rss.xml".to_string() }) {
        FlowAction::Subscribe { subscriber, source } => {
            assert_eq!(subscriber, 7);
            assert_eq!(source, "http://x/rss.xml");
        }
        other => panic!("unexpected {:?}", other),
    }
    match flow.next(FlowEvent::Stored) {
        FlowAction::EditFeedNotice { chat_id, message_id, notice, link, title } => {
            assert_eq!((chat_id, message_id), (7, 99));
            assert_eq!(notice, FeedNotice::Subscribed);
            assert_eq!(link, "http://x/rss.xml");
            assert_eq!(title, "X");
        }
        other => panic!("unexpected {:?}", other),
    }
    expect_finish(flow.next(FlowEvent::Sent));
}

#[test]
fn subscribe_already() {
    let (mut flow, _) = SubscribeFlow::start(7, "http://x/rss");
    expect_send(flow.next(FlowEvent::IsSubscribed(true)), 7, "you've already subscribed this.");
}

#[test]
fn subscribe_to_channel_uses_channel_id() {
    let (mut flow, action) = SubscribeFlow::start(7, "@chan http://x/rss");
    assert!(matches!(action, FlowAction::CheckChannel { .. }));
    match flow.next(FlowEvent::ChannelChecked(ChannelOutcome::Verified(-1005))) {
        FlowAction::CheckSubscribed { subscriber, link } => {
            assert_eq!(subscriber, -1005);
            assert_eq!(link, "http://x/rss");
        }
        other => panic!("unexpected {:?}", other),
    }
}

fn subscribe_until_fetch() -> SubscribeFlow {
    let (mut flow, _) = SubscribeFlow::start(7, "http://x/rss");
    flow.next(FlowEvent::IsSubscribed(false));
    flow.next(FlowEvent::Posted { message_id: 99 });
    flow
}

fn expect_edit(action: FlowAction, expected: &str) {
    match action {
        FlowAction::Edit { chat_id, message_id, text } => {
            assert_eq!((chat_id, message_id), (7, 99));
            assert_eq!(text, expected);
        }
        other => panic!("unexpected {:?}", other),
    }
}

#[test]
fn subscribe_fetch_failure() {
    let mut flow = subscribe_until_fetch();
    let action = flow.next(FlowEvent::FetchFailed { reason: "timeout".to_string() });
    expect_edit(action, "subscribe failed : timeout");
}

#[test]
fn subscribe_store_failures() {
    let mut flow = subscribe_until_fetch();
    flow.next(FlowEvent::Fetched { title: "X".to_string(), source: "s".to_string() });
    let action = flow.next(FlowEvent::StoreFailed {
        error: StoreError::AlreadySubscribed,
        message: "already".to_string(),
    });
    expect_edit(action, "you've already subscribed this.");

    let mut flow = subscribe_until_fetch();
    flow.next(FlowEvent::Fetched { title: "X".to_string(), source: "s".to_string() });
    let action = flow.next(FlowEvent::StoreFailed { error: StoreError::Other, message: "disk full".to_string() });
    expect_edit(action, "error: disk full");
}

#[test]
fn subscribe_usage() {
    let (_, action) = SubscribeFlow::start(7, "");
    expect_send(action, 7, "usage: /subscribe (${Channel-Username}) ${rss-url}");
}

#[test]
fn unsubscribe_paths() {
    let (mut flow, action) = UnsubscribeFlow::start(3, "http://x/rss");
    match action {
        FlowAction::Unsubscribe { subscriber, link } => {
            assert_eq!(subscriber, 3);
            assert_eq!(link, "http://x/rss");
        }
        other => panic!("unexpected {:?}", other),
    }
    match flow.next(FlowEvent::Removed(feed("X", "http://x/rss"))) {
        FlowAction::SendFeedNotice { chat_id, notice, link, title } => {
            assert_eq!(chat_id, 3);
            assert_eq!(notice, FeedNotice::Unsubscribed);
            assert_eq!((link.as_str(), title.as_str()), ("http://x/rss", "X"));
        }
        other => panic!("unexpected {:?}", other),
    }
    let (mut flow, _) = UnsubscribeFlow::start(3, "http://x/rss");
    let action = flow.next(FlowEvent::StoreFailed { error: StoreError::NotSubscribed, message: "m".to_string() });
    expect_send(action, 3, "you do not subscribe this.");
    let (mut flow, _) = UnsubscribeFlow::start(3, "http://x/rss");
    let action = flow.next(FlowEvent::StoreFailed { error: StoreError::Other, message: "m".to_string() });
    expect_send(action, 3, "error: m");
    let (_, action) = UnsubscribeFlow::start(3, "a b c");
    expect_send(action, 3, "usage: /unsubscribe (${Channel-Username}) ${rss-url}");
}

#[test]
fn unsubscribe_by_reply_paths() {
    let (_, action) = ByReplyFlow::start(4, None);
    expect_send(
        action,
        4,
        "usage: use this directive to reply to RSS messege to unsubscribe that,not support Channel",
    );
    let (_, action) = ByReplyFlow::start(4, Some(None));
    expect_send(action, 4, "unknown messege");
    let (_, action) = ByReplyFlow::start(4, Some(Some(String::new())));
    expect_send(action, 4, "unknown messege");

    let (mut flow, action) = ByReplyFlow::start(4, Some(Some("Feed B\nnew item\nhttp://b/1".to_string())));
    assert!(matches!(action, FlowAction::ListFeeds { subscriber: 4 }));
    let listed = vec![feed("Feed A", "http://a"), feed("Feed B", "http://b"), feed("Feed B", "http://b2")];
    match flow.next(FlowEvent::FeedsListed(Some(listed))) {
        FlowAction::Unsubscribe { subscriber, link } => {
            assert_eq!(subscriber, 4);
            assert_eq!(link, "http://b");
        }
        other => panic!("unexpected {:?}", other),
    }
    match flow.next(FlowEvent::Removed(feed("Feed B", "http://b"))) {
        FlowAction::SendFeedNotice { notice, .. } => assert_eq!(notice, FeedNotice::UnsubscribedByReply),
        other => panic!("unexpected {:?}", other),
    }

    let (mut flow, _) = ByReplyFlow::start(4, Some(Some("Feed C".to_string())));
    expect_send(flow.next(FlowEvent::FeedsListed(None)), 4, "can not find the subscription");

    let (mut flow, _) = ByReplyFlow::start(4, Some(Some("Feed A".to_string())));
    flow.next(FlowEvent::FeedsListed(Some(vec![feed("Feed A", "http://a")])));
    let action = flow.next(FlowEvent::StoreFailed { error: StoreError::NotSubscribed, message: "gone".to_string() });
    expect_send(action, 4, "error: gone");
}

#[test]
fn export_paths() {
    let (mut flow, action) = ExportFlow::start(5, "");
    assert!(matches!(action, FlowAction::ListFeeds { subscriber: 5 }));
    expect_send(flow.next(FlowEvent::FeedsListed(None)), 5, "the subscription list is empty.");
    let (mut flow, _) = ExportFlow::start(5, "");
    match flow.next(FlowEvent::FeedsListed(Some(vec![feed("t", "l")]))) {
        FlowAction::SendOpml { chat_id, feeds } => {
            assert_eq!(chat_id, 5);
            assert_eq!(feeds.len(), 1);
        }
        other => panic!("unexpected {:?}", other),
    }
    let (_, action) = ExportFlow::start(5, "a b");
    expect_send(action, 5, "usage: /export <Channel ID>");
    let (mut flow, action) = ExportFlow::start(5, "123");
    assert!(matches!(action, FlowAction::CheckChannel { .. }));
    expect_finish(flow.next(FlowEvent::ChannelChecked(ChannelOutcome::Failed)));
}

#[test]
fn every_flow_ends() {
    let (mut flow, _) = SubscribeFlow::start(7, "@c http://x");
    let mut n = 0;
    loop {
        n += 1;
        if let FlowAction::Finish = flow.next(FlowEvent::Sent) {
            break;
        }
    }
    assert!(n <= 7);
}

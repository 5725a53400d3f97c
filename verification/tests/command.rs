use rssbot::command::{parse_export, parse_list, parse_subscribe, parse_unsubscribe, Target};
use rssbot::reply::Notice;

fn channel(t: &Target) -> Option<String> {
    match t {
        Target::CurrentChat => None,
        Target::Channel(c) => Some(c.clone()),
    }
}

#[test]
fn list_arguments() {
    let r = parse_list("").unwrap();
    assert_eq!((channel(&r.target), r.show_links), (None, false));
    let r = parse_list(" display-url ").unwrap();
    assert_eq!((channel(&r.target), r.show_links), (None, true));
    let r = parse_list("@chan").unwrap();
    assert_eq!((channel(&r.target), r.show_links), (Some("@chan".to_string()), false));
    let r = parse_list("@chan anything").unwrap();
    assert_eq!((channel(&r.target), r.show_links), (Some("@chan".to_string()), true));
    assert_eq!(parse_list("a b c").unwrap_err(), Notice::UsageList);
}

#[test]
fn subscribe_arguments() {
    let r = parse_subscribe("http://x/rss").unwrap();
    assert_eq!((channel(&r.target), r.link.as_str()), (None, "http://x/rss"));
    let r = parse_subscribe("@chan\thttp://x/rss").unwrap();
    assert_eq!((channel(&r.target), r.link.as_str()), (Some("@chan".to_string()), "http://x/rss"));
    assert_eq!(parse_subscribe("").unwrap_err(), Notice::UsageSubscribe);
    assert_eq!(parse_subscribe("a b c").unwrap_err(), Notice::UsageSubscribe);
}

#[test]
fn unsubscribe_arguments() {
    let r = parse_unsubscribe("http://x/rss").unwrap();
    assert_eq!((channel(&r.target), r.link.as_str()), (None, "http://x/rss"));
    assert_eq!(parse_unsubscribe("  ").unwrap_err(), Notice::UsageUnsubscribe);
}

#[test]
fn export_arguments() {
    assert_eq!(channel(&parse_export("").unwrap()), None);
    assert_eq!(channel(&parse_export("123").unwrap()), Some("123".to_string()));
    assert_eq!(parse_export("1 2").unwrap_err(), Notice::UsageExport);
}

#[test]
fn usage_texts() {
    assert_eq!(Notice::UsageList.text(), "usage: /list (${Channel-Username}) (display-url)");
    assert_eq!(Notice::UsageSubscribe.text(), "usage: /subscribe (${Channel-Username}) ${rss-url}");
    assert_eq!(Notice::UsageUnsubscribe.text(), "usage: /unsubscribe (${Channel-Username}) ${rss-url}");
    assert_eq!(Notice::UsageExport.text(), "usage: /export <Channel ID>");
    assert_eq!(
        Notice::UsageUnsubscribeThis.text(),
        "usage: \
         use this directive to reply to RSS messege to unsubscribe that,\
         not support Channel"
    );
}

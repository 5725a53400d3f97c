use rssbot::flow::FeedNotice;
use rssbot::reply::{feed_notice_html, list_line};

#[test]
fn feed_notices() {
    assert_eq!(
        feed_notice_html(FeedNotice::Subscribed, "http://x/rss", "X &amp; Y"),
        "《<a href=\"http://x/rss\">X &amp; Y</a>》subscribe success !"
    );
    assert_eq!(
        feed_notice_html(FeedNotice::Unsubscribed, "http://x/rss", "X"),
        "《<a href=\"http://x/rss\">X</a>》unsubscribe success !"
    );
    assert_eq!(
        feed_notice_html(FeedNotice::UnsubscribedByReply, "http://x/rss", "X"),
        "《<a href=\"http://x/rss\">X</a>》unsubscribe successfully"
    );
}

#[test]
fn list_lines() {
    assert_eq!(list_line(false, "X", "http://x/rss"), "<a href=\"http://x/rss\">X</a>");
    assert_eq!(list_line(true, "X", "http://x/rss"), "X: http://x/rss");
}

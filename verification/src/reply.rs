//! The texts the bot answers with.
use vstd::prelude::*;

use crate::flow::FeedNotice;

verus! {

/// A fixed answer of the bot.
#[derive(Clone, Copy, Debug, PartialEq, Eq, Structural)]
pub enum Notice {
    UsageList,
    UsageSubscribe,
    UsageUnsubscribe,
    UsageExport,
    UsageUnsubscribeThis,
    NothingSubscribed,
    AlreadySubscribed,
    Dealing,
    NotSubscribed,
    UnknownMessage,
    SubscriptionNotFound,
    EmptyList,
    CheckingChannel,
    NotAChannel,
    BotNotAdmin,
    UserNotAdmin,
    ListHeader,
}

/// The text of a fixed answer.
pub open spec fn notice_text(n: Notice) -> Seq<char> {
    match n {
        Notice::UsageList => "usage: /list (${Channel-Username}) (display-url)"@,
        Notice::UsageSubscribe => "usage: /subscribe (${Channel-Username}) ${rss-url}"@,
        Notice::UsageUnsubscribe => "usage: /unsubscribe (${Channel-Username}) ${rss-url}"@,
        Notice::UsageExport => "usage: /export <Channel ID>"@,
        Notice::UsageUnsubscribeThis => "usage: use this directive to reply to RSS messege to unsubscribe that,not support Channel"@,
        Notice::NothingSubscribed => "you subscribe nothing."@,
        Notice::AlreadySubscribed => "you've already subscribed this."@,
        Notice::Dealing => "dealing..."@,
        Notice::NotSubscribed => "you do not subscribe this."@,
        Notice::UnknownMessage => "unknown messege"@,
        Notice::SubscriptionNotFound => "can not find the subscription"@,
        Notice::EmptyList => "the subscription list is empty."@,
        Notice::CheckingChannel => "checking Channel"@,
        Notice::NotAChannel => "the target must be Channel"@,
        Notice::BotNotAdmin => "should set Bot as admin."@,
        Notice::UserNotAdmin => "this command only available for Channel's admin."@,
        Notice::ListHeader => "subscribe list:"@,
    }
}

impl Notice {
    /// The text of this answer.
    pub fn text(&self) -> (s: String)
        ensures
            s@ == notice_text(*self),
    {
        match self {
            Notice::UsageList => String::from_str("usage: /list (${Channel-Username}) (display-url)"),
            Notice::UsageSubscribe => String::from_str("usage: /subscribe (${Channel-Username}) ${rss-url}"),
            Notice::UsageUnsubscribe => String::from_str("usage: /unsubscribe (${Channel-Username}) ${rss-url}"),
            Notice::UsageExport => String::from_str("usage: /export <Channel ID>"),
            Notice::UsageUnsubscribeThis => String::from_str("usage: use this directive to reply to RSS messege to unsubscribe that,not support Channel"),
            Notice::NothingSubscribed => String::from_str("you subscribe nothing."),
            Notice::AlreadySubscribed => String::from_str("you've already subscribed this."),
            Notice::Dealing => String::from_str("dealing..."),
            Notice::NotSubscribed => String::from_str("you do not subscribe this."),
            Notice::UnknownMessage => String::from_str("unknown messege"),
            Notice::SubscriptionNotFound => String::from_str("can not find the subscription"),
            Notice::EmptyList => String::from_str("the subscription list is empty."),
            Notice::CheckingChannel => String::from_str("checking Channel"),
            Notice::NotAChannel => String::from_str("the target must be Channel"),
            Notice::BotNotAdmin => String::from_str("should set Bot as admin."),
            Notice::UserNotAdmin => String::from_str("this command only available for Channel's admin."),
            Notice::ListHeader => String::from_str("subscribe list:"),
        }
    }
}

/// An answer that ends with a detail given by Telegram, the feed fetcher or
/// the database.
#[derive(Clone, Copy, Debug, PartialEq, Eq, Structural)]
pub enum DetailKind {
    ChannelNotFound,
    BotNotAllowed,
    SubscribeFailed,
    Error,
}

/// The text before the detail.
pub open spec fn detail_prefix(k: DetailKind) -> Seq<char> {
    match k {
        DetailKind::ChannelNotFound => "can not find the Channel: "@,
        DetailKind::BotNotAllowed => "you should set Bot as this Channel's admin : "@,
        DetailKind::SubscribeFailed => "subscribe failed : "@,
        DetailKind::Error => "error: "@,
    }
}

impl DetailKind {
    /// The answer with `detail` at its end.
    pub fn text(&self, detail: &str) -> (s: String)
        ensures
            s@ == detail_prefix(*self) + detail@,
    {
        let prefix = match self {
            DetailKind::ChannelNotFound => String::from_str("can not find the Channel: "),
            DetailKind::BotNotAllowed => String::from_str("you should set Bot as this Channel's admin : "),
            DetailKind::SubscribeFailed => String::from_str("subscribe failed : "),
            DetailKind::Error => String::from_str("error: "),
        };
        prefix.concat(detail)
    }
}

/// The closing words of an answer about a single feed.
pub open spec fn feed_notice_tail(n: FeedNotice) -> Seq<char> {
    match n {
        FeedNotice::Subscribed => "subscribe success !"@,
        FeedNotice::Unsubscribed => "unsubscribe success !"@,
        FeedNotice::UnsubscribedByReply => "unsubscribe successfully"@,
    }
}

/// The HTML answer `notice` about a feed: the feed's title, as a link to
/// the feed, between 《 and 》, and the closing words. `link` and `title`
/// come already escaped for HTML.
pub fn feed_notice_html(notice: FeedNotice, link: &str, title: &str) -> (s: String)
    ensures
        s@ == "《<a href=\""@ + link@ + "\">"@ + title@ + "</a>》"@ + feed_notice_tail(notice),
{
    let tail = match notice {
        FeedNotice::Subscribed => "subscribe success !",
        FeedNotice::Unsubscribed => "unsubscribe success !",
        FeedNotice::UnsubscribedByReply => "unsubscribe successfully",
    };
    String::from_str("《<a href=\"").concat(link).concat("\">").concat(title).concat("</a>》").concat(
        tail,
    )
}

/// One line of a subscription list: `title: link` where links are shown,
/// else the title as a link to the feed. `title` and `link` come already
/// escaped for HTML.
pub fn list_line(show_links: bool, title: &str, link: &str) -> (s: String)
    ensures
        s@ == if show_links {
            title@ + ": "@ + link@
        } else {
            "<a href=\""@ + link@ + "\">"@ + title@ + "</a>"@
        },
{
    if show_links {
        String::from_str(title).concat(": ").concat(link)
    } else {
        String::from_str("<a href=\"").concat(link).concat("\">").concat(title).concat("</a>")
    }
}

} // verus!

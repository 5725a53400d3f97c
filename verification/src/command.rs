//! The arguments of the bot's commands.
use vstd::prelude::*;

use crate::reply::Notice;
use crate::text::{split_words, views, words};

verus! {

/// Whose subscriptions a command is about.
#[derive(Debug)]
pub enum Target {
    /// The chat the command was sent in.
    CurrentChat,
    /// A channel, by the name or id the user gave.
    Channel(String),
}

/// The channel name a target gives, none for the current chat.
pub open spec fn target_view(t: Target) -> Option<Seq<char>> {
    match t {
        Target::CurrentChat => None,
        Target::Channel(c) => Some(c@),
    }
}

/// What `/list` asks for.
#[derive(Debug)]
pub struct ListRequest {
    pub target: Target,
    /// Show links rather than titles.
    pub show_links: bool,
}

/// What `/subscribe` and `/unsubscribe` ask for.
#[derive(Debug)]
pub struct FeedRequest {
    pub target: Target,
    pub link: String,
}

/// The argument that asks `/list` for links.
pub open spec fn display_url() -> Seq<char> {
    "display-url"@
}

/// `/list (channel) (display-url)`: no word lists the current chat by title;
/// one word is `display-url` (the current chat by link) or a channel (by
/// title); two words give a channel, listed by link, whatever the second
/// word is; more words are refused.
pub open spec fn list_args_ok(w: Seq<Seq<char>>, r: ListRequest) -> bool {
    if w.len() == 0 {
        target_view(r.target) == None::<Seq<char>> && !r.show_links
    } else if w.len() == 1 && w[0] == display_url() {
        target_view(r.target) == None::<Seq<char>> && r.show_links
    } else if w.len() == 1 {
        target_view(r.target) == Some(w[0]) && !r.show_links
    } else {
        target_view(r.target) == Some(w[0]) && r.show_links
    }
}

/// Reads the arguments of `/list`.
pub fn parse_list(args: &str) -> (res: Result<ListRequest, Notice>)
    ensures
        words(args@).len() <= 2 <==> res is Ok,
        res matches Ok(r) ==> list_args_ok(words(args@), r),
        res matches Err(n) ==> n == Notice::UsageList,
{
    let mut w = split_words(args);
    let ghost wv = views(w@);
    assert(wv.len() == w@.len());
    if w.len() == 0 {
        Ok(ListRequest { target: Target::CurrentChat, show_links: false })
    } else if w.len() == 1 {
        let first = w.remove(0);
        assert(first@ == wv[0]);
        if first == String::from_str("display-url") {
            Ok(ListRequest { target: Target::CurrentChat, show_links: true })
        } else {
            Ok(ListRequest { target: Target::Channel(first), show_links: false })
        }
    } else if w.len() == 2 {
        let first = w.remove(0);
        assert(first@ == wv[0]);
        Ok(ListRequest { target: Target::Channel(first), show_links: true })
    } else {
        Err(Notice::UsageList)
    }
}

/// `(channel) link`: one word is a link for the current chat, two words a
/// channel and a link.
pub open spec fn feed_args_ok(w: Seq<Seq<char>>, r: FeedRequest) -> bool {
    if w.len() == 1 {
        target_view(r.target) == None::<Seq<char>> && r.link@ == w[0]
    } else {
        target_view(r.target) == Some(w[0]) && r.link@ == w[1]
    }
}

/// Reads `(channel) link`, refusing other word counts with `usage`.
fn parse_feed_args(args: &str, usage: Notice) -> (res: Result<FeedRequest, Notice>)
    ensures
        words(args@).len() == 1 || words(args@).len() == 2 <==> res is Ok,
        res matches Ok(r) ==> feed_args_ok(words(args@), r),
        res matches Err(n) ==> n == usage,
{
    let mut w = split_words(args);
    let ghost wv = views(w@);
    assert(wv.len() == w@.len());
    if w.len() == 1 {
        let link = w.remove(0);
        assert(link@ == wv[0]);
        Ok(FeedRequest { target: Target::CurrentChat, link })
    } else if w.len() == 2 {
        let channel = w.remove(0);
        assert(channel@ == wv[0]);
        let link = w.remove(0);
        assert(link@ == wv[1]);
        Ok(FeedRequest { target: Target::Channel(channel), link })
    } else {
        Err(usage)
    }
}

/// Reads the arguments of `/subscribe`.
pub fn parse_subscribe(args: &str) -> (res: Result<FeedRequest, Notice>)
    ensures
        words(args@).len() == 1 || words(args@).len() == 2 <==> res is Ok,
        res matches Ok(r) ==> feed_args_ok(words(args@), r),
        res matches Err(n) ==> n == Notice::UsageSubscribe,
{
    parse_feed_args(args, Notice::UsageSubscribe)
}

/// Reads the arguments of `/unsubscribe`.
pub fn parse_unsubscribe(args: &str) -> (res: Result<FeedRequest, Notice>)
    ensures
        words(args@).len() == 1 || words(args@).len() == 2 <==> res is Ok,
        res matches Ok(r) ==> feed_args_ok(words(args@), r),
        res matches Err(n) ==> n == Notice::UsageUnsubscribe,
{
    parse_feed_args(args, Notice::UsageUnsubscribe)
}

/// Reads the arguments of `/exporttoopml`: no word for the current chat,
/// one for a channel.
pub fn parse_export(args: &str) -> (res: Result<Target, Notice>)
    ensures
        words(args@).len() <= 1 <==> res is Ok,
        res matches Ok(t) ==> target_view(t) == (if words(args@).len() == 0 {
            None
        } else {
            Some(words(args@)[0])
        }),
        res matches Err(n) ==> n == Notice::UsageExport,
{
    let mut w = split_words(args);
    let ghost wv = views(w@);
    assert(wv.len() == w@.len());
    if w.len() == 0 {
        Ok(Target::CurrentChat)
    } else if w.len() == 1 {
        let channel = w.remove(0);
        assert(channel@ == wv[0]);
        Ok(Target::Channel(channel))
    } else {
        Err(Notice::UsageExport)
    }
}

} // verus!

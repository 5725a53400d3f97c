//! The conversations behind the bot's commands, as state machines: each
//! takes the answer to its last action and gives the next action; the
//! caller performs the actions against Telegram, the subscription database
//! and the feed fetcher.
use vstd::prelude::*;

use crate::channel::ChannelOutcome;
use crate::command::{
    display_url, parse_export, parse_list, parse_subscribe, parse_unsubscribe, FeedRequest,
    ListRequest, Target,
};
use crate::feed::{
    link_key, pinyin_of, sort_by_link, sort_by_title_pinyin, title_pinyin_key, Feed, PinyinSym,
};
use crate::order::{is_stable_sort, lex_lt};
use crate::reply::{detail_prefix, notice_text, DetailKind, Notice};
use crate::text::{first_line, first_line_of, words};

verus! {

/// Why the database refused a change.
#[derive(Clone, Copy, Debug, PartialEq, Eq, Structural)]
pub enum StoreError {
    AlreadySubscribed,
    NotSubscribed,
    Other,
}

/// The answer to the last action.
#[derive(Debug)]
pub enum FlowEvent {
    /// A message was sent, or edited.
    Sent,
    /// A message was sent as the message with this id.
    Posted { message_id: i64 },
    /// A request to Telegram failed.
    SendFailed,
    /// A channel check ended so.
    ChannelChecked(ChannelOutcome),
    /// The feeds a subscriber has, none when it has no entry.
    FeedsListed(Option<Vec<Feed>>),
    /// Whether the subscriber already has the feed.
    IsSubscribed(bool),
    /// The feed was fetched; it has this title and this source link.
    Fetched { title: String, source: String },
    /// The feed could not be fetched, for this reason.
    FetchFailed { reason: String },
    /// The subscription was stored.
    Stored,
    /// This feed was unsubscribed.
    Removed(Feed),
    /// The database refused the change, with this message.
    StoreFailed { error: StoreError, message: String },
}

/// Which answer about a single feed to send, as HTML with a link.
#[derive(Clone, Copy, Debug, PartialEq, Eq, Structural)]
pub enum FeedNotice {
    /// "subscribe success".
    Subscribed,
    /// "unsubscribe success", after `/unsubscribe`.
    Unsubscribed,
    /// "unsubscribe successfully", after a reply with `/unsubscribethis`.
    UnsubscribedByReply,
}

/// What to do next.
#[derive(Debug)]
pub enum FlowAction {
    /// Send `text` to the chat.
    Send { chat_id: i64, text: String },
    /// Send the answer `notice` about the feed at `link` titled `title`.
    SendFeedNotice { chat_id: i64, notice: FeedNotice, link: String, title: String },
    /// Check, for the user who sent the command, the channel the user
    /// wrote as `name`, and answer with how the check ended.
    CheckChannel { name: String },
    /// Look up the feeds of `subscriber`.
    ListFeeds { subscriber: i64 },
    /// Send the list of `feeds`, in this order, showing links or titles.
    SendList { chat_id: i64, feeds: Vec<Feed>, show_links: bool },
    /// Look up whether `subscriber` has the feed at `link`.
    CheckSubscribed { subscriber: i64, link: String },
    /// Send `text` and answer with the message's id.
    Post { chat_id: i64, text: String },
    /// Fetch the feed at `link`.
    Fetch { link: String },
    /// Subscribe `subscriber` to the feed just fetched, under `source`.
    Subscribe { subscriber: i64, source: String },
    /// Replace the text of message `message_id` by `text`.
    Edit { chat_id: i64, message_id: i64, text: String },
    /// Replace the text of message `message_id` by the answer `notice`
    /// about the feed at `link` titled `title`.
    EditFeedNotice { chat_id: i64, message_id: i64, notice: FeedNotice, link: String, title: String },
    /// Unsubscribe `subscriber` from the feed at `link`.
    Unsubscribe { subscriber: i64, link: String },
    /// Send `feeds` as an OPML document.
    SendOpml { chat_id: i64, feeds: Vec<Feed> },
    /// The command has been handled.
    Finish,
}

/// Where a `/list` stands.
#[derive(Clone, Copy, Debug, PartialEq, Eq, Structural)]
pub enum ListStep {
    AwaitChannel,
    AwaitFeeds,
    AwaitSend,
    Done,
}

/// The number of answers a `/list` can still take before it ends.
pub open spec fn list_rank(s: ListStep) -> nat {
    match s {
        ListStep::AwaitChannel => 3,
        ListStep::AwaitFeeds => 2,
        ListStep::AwaitSend => 1,
        ListStep::Done => 0,
    }
}

/// `/list`: shows the subscriptions of the chat or of a channel.
pub struct ListFlow {
    pub chat_id: i64,
    pub show_links: bool,
    pub step: ListStep,
}

/// Whether `out` is `feeds` in the order a list shows them: by link when
/// links are shown, else by the pinyin of the titles.
pub open spec fn list_order(out: Seq<Feed>, feeds: Seq<Feed>, show_links: bool) -> bool {
    if show_links {
        is_stable_sort::<char>(out, feeds, link_key())
    } else {
        is_stable_sort::<PinyinSym>(out, feeds, title_pinyin_key())
    }
}

impl ListFlow {
    /// Handles `/list args` sent in chat `chat_id`.
    pub fn start(chat_id: i64, args: &str) -> (res: (ListFlow, FlowAction))
        ensures
            res.0.chat_id == chat_id,
            ({
                let w = words(args@);
                if w.len() > 2 {
                    &&& res.0.step == ListStep::AwaitSend
                    &&& res.1 matches FlowAction::Send { chat_id: c, text }
                    &&& c == chat_id
                    &&& text@ == notice_text(Notice::UsageList)
                } else {
                    &&& (w.len() == 0 || (w.len() == 1 && w[0] == display_url()))
                        ==> {
                        &&& res.0.step == ListStep::AwaitFeeds
                        &&& res.1 == FlowAction::ListFeeds { subscriber: chat_id }
                    }
                    &&& !(w.len() == 0 || (w.len() == 1 && w[0] == display_url()))
                        ==> {
                        &&& res.0.step == ListStep::AwaitChannel
                        &&& res.1 matches FlowAction::CheckChannel { name }
                        &&& name@ == w[0]
                    }
                    &&& res.0.show_links == (w.len() == 2 || (w.len() == 1 && w[0]
                        == display_url()))
                }
            }),
    {
        match parse_list(args) {
            Err(usage) => (
                ListFlow { chat_id, show_links: false, step: ListStep::AwaitSend },
                FlowAction::Send { chat_id, text: usage.text() },
            ),
            Ok(ListRequest { target, show_links }) => match target {
                Target::CurrentChat => (
                    ListFlow { chat_id, show_links, step: ListStep::AwaitFeeds },
                    FlowAction::ListFeeds { subscriber: chat_id },
                ),
                Target::Channel(name) => (
                    ListFlow { chat_id, show_links, step: ListStep::AwaitChannel },
                    FlowAction::CheckChannel { name },
                ),
            },
        }
    }

    /// Takes the answer to the last action and gives the next action.
    pub fn next(&mut self, event: FlowEvent) -> (action: FlowAction)
        ensures
            final(self).chat_id == old(self).chat_id,
            final(self).show_links == old(self).show_links,
            final(self).step == ListStep::Done || list_rank(final(self).step) < list_rank(
                old(self).step,
            ),
            (match (old(self).step, event) {
                (ListStep::AwaitChannel, FlowEvent::ChannelChecked(ChannelOutcome::Verified(id))) => {
                    &&& final(self).step == ListStep::AwaitFeeds
                    &&& action == FlowAction::ListFeeds { subscriber: id }
                },
                (ListStep::AwaitFeeds, FlowEvent::FeedsListed(None)) => {
                    &&& final(self).step == ListStep::AwaitSend
                    &&& action matches FlowAction::Send { chat_id, text }
                    &&& chat_id == old(self).chat_id
                    &&& text@ == notice_text(Notice::NothingSubscribed)
                },
                (ListStep::AwaitFeeds, FlowEvent::FeedsListed(Some(feeds))) => {
                    &&& final(self).step == ListStep::AwaitSend
                    &&& action matches FlowAction::SendList { chat_id, feeds: out, show_links }
                    &&& chat_id == old(self).chat_id
                    &&& show_links == old(self).show_links
                    &&& list_order(out@, feeds@, show_links)
                },
                _ => {
                    &&& final(self).step == ListStep::Done
                    &&& action == FlowAction::Finish
                },
            }),
    {
        match (self.step, event) {
            (ListStep::AwaitChannel, FlowEvent::ChannelChecked(ChannelOutcome::Verified(id))) => {
                self.step = ListStep::AwaitFeeds;
                FlowAction::ListFeeds { subscriber: id }
            },
            (ListStep::AwaitFeeds, FlowEvent::FeedsListed(None)) => {
                self.step = ListStep::AwaitSend;
                FlowAction::Send { chat_id: self.chat_id, text: Notice::NothingSubscribed.text() }
            },
            (ListStep::AwaitFeeds, FlowEvent::FeedsListed(Some(feeds))) => {
                self.step = ListStep::AwaitSend;
                let out = if self.show_links {
                    sort_by_link(feeds)
                } else {
                    sort_by_title_pinyin(feeds)
                };
                FlowAction::SendList { chat_id: self.chat_id, feeds: out, show_links: self.show_links }
            },
            _ => {
                self.step = ListStep::Done;
                FlowAction::Finish
            },
        }
    }
}

/// Where a `/subscribe` stands.
#[derive(Clone, Copy, Debug, PartialEq, Eq, Structural)]
pub enum SubscribeStep {
    AwaitChannel,
    AwaitCheck,
    AwaitPost,
    AwaitFetch,
    AwaitStore,
    AwaitSend,
    Done,
}

/// The number of answers a `/subscribe` can still take before it ends.
pub open spec fn subscribe_rank(s: SubscribeStep) -> nat {
    match s {
        SubscribeStep::AwaitChannel => 6,
        SubscribeStep::AwaitCheck => 5,
        SubscribeStep::AwaitPost => 4,
        SubscribeStep::AwaitFetch => 3,
        SubscribeStep::AwaitStore => 2,
        SubscribeStep::AwaitSend => 1,
        SubscribeStep::Done => 0,
    }
}

/// `/subscribe`: subscribes the chat or a channel to a feed.
pub struct SubscribeFlow {
    pub chat_id: i64,
    /// The link the user gave.
    pub link: String,
    /// Who subscribes, once known.
    pub subscriber: i64,
    /// The id of the "dealing" message, once sent.
    pub notice: i64,
    /// The title and source link of the fetched feed, once fetched.
    pub title: String,
    pub source: String,
    pub step: SubscribeStep,
    /// What the lookup of the subscription answered, once asked.
    pub found: Ghost<Option<bool>>,
}

impl SubscribeFlow {
    /// The feed is fetched and stored only after the lookup found that the
    /// subscriber does not have it yet.
    pub open spec fn wf(&self) -> bool {
        match self.step {
            SubscribeStep::AwaitPost | SubscribeStep::AwaitFetch | SubscribeStep::AwaitStore => {
                self.found@ == Some(false)
            },
            SubscribeStep::AwaitChannel | SubscribeStep::AwaitCheck => self.found@ is None,
            _ => true,
        }
    }

    /// Handles `/subscribe args` sent in chat `chat_id`.
    pub fn start(chat_id: i64, args: &str) -> (res: (SubscribeFlow, FlowAction))
        ensures
            res.0.wf(),
            res.0.chat_id == chat_id,
            ({
                let w = words(args@);
                if w.len() == 1 {
                    &&& res.0.step == SubscribeStep::AwaitCheck
                    &&& res.0.subscriber == chat_id
                    &&& res.0.link@ == w[0]
                    &&& res.1 matches FlowAction::CheckSubscribed { subscriber, link }
                    &&& subscriber == chat_id
                    &&& link@ == w[0]
                } else if w.len() == 2 {
                    &&& res.0.step == SubscribeStep::AwaitChannel
                    &&& res.0.link@ == w[1]
                    &&& res.1 matches FlowAction::CheckChannel { name }
                    &&& name@ == w[0]
                } else {
                    &&& res.0.step == SubscribeStep::AwaitSend
                    &&& res.1 matches FlowAction::Send { chat_id: c, text }
                    &&& c == chat_id
                    &&& text@ == notice_text(Notice::UsageSubscribe)
                }
            }),
    {
        match parse_subscribe(args) {
            Err(usage) => (
                SubscribeFlow {
                    chat_id,
                    link: String::new(),
                    subscriber: chat_id,
                    notice: 0,
                    title: String::new(),
                    source: String::new(),
                    step: SubscribeStep::AwaitSend,
                    found: Ghost(None),
                },
                FlowAction::Send { chat_id, text: usage.text() },
            ),
            Ok(FeedRequest { target, link }) => match target {
                Target::CurrentChat => {
                    let action = FlowAction::CheckSubscribed { subscriber: chat_id, link: link.clone() };
                    (
                        SubscribeFlow {
                            chat_id,
                            link,
                            subscriber: chat_id,
                            notice: 0,
                            title: String::new(),
                            source: String::new(),
                            step: SubscribeStep::AwaitCheck,
                            found: Ghost(None),
                        },
                        action,
                    )
                },
                Target::Channel(name) => (
                    SubscribeFlow {
                        chat_id,
                        link,
                        subscriber: chat_id,
                        notice: 0,
                        title: String::new(),
                        source: String::new(),
                        step: SubscribeStep::AwaitChannel,
                        found: Ghost(None),
                    },
                    FlowAction::CheckChannel { name },
                ),
            },
        }
    }

    /// Takes the answer to the last action and gives the next action.
    pub fn next(&mut self, event: FlowEvent) -> (action: FlowAction)
        requires
            old(self).wf(),
        ensures
            final(self).wf(),
            // A subscription is stored only for a subscriber that the lookup
            // found without the feed.
            action matches FlowAction::Subscribe { subscriber, .. } ==> final(self).found@ == Some(
                false,
            ) && subscriber == old(self).subscriber,
            final(self).chat_id == old(self).chat_id,
            final(self).link == old(self).link,
            final(self).step == SubscribeStep::Done || subscribe_rank(final(self).step)
                < subscribe_rank(old(self).step),
            (match (old(self).step, event) {
                (
                    SubscribeStep::AwaitChannel,
                    FlowEvent::ChannelChecked(ChannelOutcome::Verified(id)),
                ) => {
                    &&& final(self).step == SubscribeStep::AwaitCheck
                    &&& final(self).subscriber == id
                    &&& action matches FlowAction::CheckSubscribed { subscriber, link }
                    &&& subscriber == id
                    &&& link@ == old(self).link@
                },
                (SubscribeStep::AwaitCheck, FlowEvent::IsSubscribed(true)) => {
                    &&& final(self).step == SubscribeStep::AwaitSend
                    &&& action matches FlowAction::Send { chat_id, text }
                    &&& chat_id == old(self).chat_id
                    &&& text@ == notice_text(Notice::AlreadySubscribed)
                },
                (SubscribeStep::AwaitCheck, FlowEvent::IsSubscribed(false)) => {
                    &&& final(self).step == SubscribeStep::AwaitPost
                    &&& final(self).subscriber == old(self).subscriber
                    &&& action matches FlowAction::Post { chat_id, text }
                    &&& chat_id == old(self).chat_id
                    &&& text@ == notice_text(Notice::Dealing)
                },
                (SubscribeStep::AwaitPost, FlowEvent::Posted { message_id }) => {
                    &&& final(self).step == SubscribeStep::AwaitFetch
                    &&& final(self).subscriber == old(self).subscriber
                    &&& final(self).notice == message_id
                    &&& action matches FlowAction::Fetch { link }
                    &&& link@ == old(self).link@
                },
                (SubscribeStep::AwaitFetch, FlowEvent::Fetched { title, source }) => {
                    &&& final(self).step == SubscribeStep::AwaitStore
                    &&& final(self).notice == old(self).notice
                    &&& final(self).title@ == title@
                    &&& final(self).source@ == source@
                    &&& action matches FlowAction::Subscribe { subscriber, source: s }
                    &&& subscriber == old(self).subscriber
                    &&& s@ == source@
                },
                (SubscribeStep::AwaitFetch, FlowEvent::FetchFailed { reason }) => {
                    &&& final(self).step == SubscribeStep::AwaitSend
                    &&& action matches FlowAction::Edit { chat_id, message_id, text }
                    &&& chat_id == old(self).chat_id
                    &&& message_id == old(self).notice
                    &&& text@ == detail_prefix(DetailKind::SubscribeFailed) + reason@
                },
                (SubscribeStep::AwaitStore, FlowEvent::Stored) => {
                    &&& final(self).step == SubscribeStep::AwaitSend
                    &&& action matches FlowAction::EditFeedNotice {
                        chat_id,
                        message_id,
                        notice,
                        link,
                        title,
                    }
                    &&& chat_id == old(self).chat_id
                    &&& message_id == old(self).notice
                    &&& notice == FeedNotice::Subscribed
                    &&& link@ == old(self).source@
                    &&& title@ == old(self).title@
                },
                (SubscribeStep::AwaitStore, FlowEvent::StoreFailed { error, message }) => {
                    &&& final(self).step == SubscribeStep::AwaitSend
                    &&& action matches FlowAction::Edit { chat_id, message_id, text }
                    &&& chat_id == old(self).chat_id
                    &&& message_id == old(self).notice
                    &&& text@ == if error == StoreError::AlreadySubscribed {
                        notice_text(Notice::AlreadySubscribed)
                    } else {
                        detail_prefix(DetailKind::Error) + message@
                    }
                },
                _ => {
                    &&& final(self).step == SubscribeStep::Done
                    &&& action == FlowAction::Finish
                },
            }),
    {
        match (self.step, event) {
            (SubscribeStep::AwaitChannel, FlowEvent::ChannelChecked(ChannelOutcome::Verified(id))) => {
                self.step = SubscribeStep::AwaitCheck;
                self.subscriber = id;
                FlowAction::CheckSubscribed { subscriber: id, link: self.link.clone() }
            },
            (SubscribeStep::AwaitCheck, FlowEvent::IsSubscribed(already)) => {
                self.found = Ghost(Some(already));
                if already {
                    self.step = SubscribeStep::AwaitSend;
                    FlowAction::Send { chat_id: self.chat_id, text: Notice::AlreadySubscribed.text() }
                } else {
                    self.step = SubscribeStep::AwaitPost;
                    FlowAction::Post { chat_id: self.chat_id, text: Notice::Dealing.text() }
                }
            },
            (SubscribeStep::AwaitPost, FlowEvent::Posted { message_id }) => {
                self.step = SubscribeStep::AwaitFetch;
                self.notice = message_id;
                FlowAction::Fetch { link: self.link.clone() }
            },
            (SubscribeStep::AwaitFetch, FlowEvent::Fetched { title, source }) => {
                self.step = SubscribeStep::AwaitStore;
                let action = FlowAction::Subscribe { subscriber: self.subscriber, source: source.clone() };
                self.title = title;
                self.source = source;
                action
            },
            (SubscribeStep::AwaitFetch, FlowEvent::FetchFailed { reason }) => {
                self.step = SubscribeStep::AwaitSend;
                FlowAction::Edit {
                    chat_id: self.chat_id,
                    message_id: self.notice,
                    text: DetailKind::SubscribeFailed.text(reason.as_str()),
                }
            },
            (SubscribeStep::AwaitStore, FlowEvent::Stored) => {
                self.step = SubscribeStep::AwaitSend;
                FlowAction::EditFeedNotice {
                    chat_id: self.chat_id,
                    message_id: self.notice,
                    notice: FeedNotice::Subscribed,
                    link: self.source.clone(),
                    title: self.title.clone(),
                }
            },
            (SubscribeStep::AwaitStore, FlowEvent::StoreFailed { error, message }) => {
                self.step = SubscribeStep::AwaitSend;
                let text = if error == StoreError::AlreadySubscribed {
                    Notice::AlreadySubscribed.text()
                } else {
                    DetailKind::Error.text(message.as_str())
                };
                FlowAction::Edit { chat_id: self.chat_id, message_id: self.notice, text }
            },
            _ => {
                self.step = SubscribeStep::Done;
                FlowAction::Finish
            },
        }
    }
}

/// Where an `/unsubscribe` stands.
#[derive(Clone, Copy, Debug, PartialEq, Eq, Structural)]
pub enum UnsubscribeStep {
    AwaitChannel,
    AwaitRemove,
    AwaitSend,
    Done,
}

/// The number of answers an `/unsubscribe` can still take before it ends.
pub open spec fn unsubscribe_rank(s: UnsubscribeStep) -> nat {
    match s {
        UnsubscribeStep::AwaitChannel => 3,
        UnsubscribeStep::AwaitRemove => 2,
        UnsubscribeStep::AwaitSend => 1,
        UnsubscribeStep::Done => 0,
    }
}

/// `/unsubscribe`: unsubscribes the chat or a channel from a feed.
pub struct UnsubscribeFlow {
    pub chat_id: i64,
    pub link: String,
    pub step: UnsubscribeStep,
}

impl UnsubscribeFlow {
    /// Handles `/unsubscribe args` sent in chat `chat_id`.
    pub fn start(chat_id: i64, args: &str) -> (res: (UnsubscribeFlow, FlowAction))
        ensures
            res.0.chat_id == chat_id,
            ({
                let w = words(args@);
                if w.len() == 1 {
                    &&& res.0.step == UnsubscribeStep::AwaitRemove
                    &&& res.0.link@ == w[0]
                    &&& res.1 matches FlowAction::Unsubscribe { subscriber, link }
                    &&& subscriber == chat_id
                    &&& link@ == w[0]
                } else if w.len() == 2 {
                    &&& res.0.step == UnsubscribeStep::AwaitChannel
                    &&& res.0.link@ == w[1]
                    &&& res.1 matches FlowAction::CheckChannel { name }
                    &&& name@ == w[0]
                } else {
                    &&& res.0.step == UnsubscribeStep::AwaitSend
                    &&& res.1 matches FlowAction::Send { chat_id: c, text }
                    &&& c == chat_id
                    &&& text@ == notice_text(Notice::UsageUnsubscribe)
                }
            }),
    {
        match parse_unsubscribe(args) {
            Err(usage) => (
                UnsubscribeFlow { chat_id, link: String::new(), step: UnsubscribeStep::AwaitSend },
                FlowAction::Send { chat_id, text: usage.text() },
            ),
            Ok(FeedRequest { target, link }) => match target {
                Target::CurrentChat => {
                    let action = FlowAction::Unsubscribe { subscriber: chat_id, link: link.clone() };
                    (UnsubscribeFlow { chat_id, link, step: UnsubscribeStep::AwaitRemove }, action)
                },
                Target::Channel(name) => (
                    UnsubscribeFlow { chat_id, link, step: UnsubscribeStep::AwaitChannel },
                    FlowAction::CheckChannel { name },
                ),
            },
        }
    }

    /// Takes the answer to the last action and gives the next action.
    pub fn next(&mut self, event: FlowEvent) -> (action: FlowAction)
        ensures
            final(self).chat_id == old(self).chat_id,
            final(self).link == old(self).link,
            final(self).step == UnsubscribeStep::Done || unsubscribe_rank(final(self).step)
                < unsubscribe_rank(old(self).step),
            (match (old(self).step, event) {
                (
                    UnsubscribeStep::AwaitChannel,
                    FlowEvent::ChannelChecked(ChannelOutcome::Verified(id)),
                ) => {
                    &&& final(self).step == UnsubscribeStep::AwaitRemove
                    &&& action matches FlowAction::Unsubscribe { subscriber, link }
                    &&& subscriber == id
                    &&& link@ == old(self).link@
                },
                (UnsubscribeStep::AwaitRemove, FlowEvent::Removed(feed)) => {
                    &&& final(self).step == UnsubscribeStep::AwaitSend
                    &&& action matches FlowAction::SendFeedNotice { chat_id, notice, link, title }
                    &&& chat_id == old(self).chat_id
                    &&& notice == FeedNotice::Unsubscribed
                    &&& link@ == feed.link@
                    &&& title@ == feed.title@
                },
                (UnsubscribeStep::AwaitRemove, FlowEvent::StoreFailed { error, message }) => {
                    &&& final(self).step == UnsubscribeStep::AwaitSend
                    &&& action matches FlowAction::Send { chat_id, text }
                    &&& chat_id == old(self).chat_id
                    &&& text@ == if error == StoreError::NotSubscribed {
                        notice_text(Notice::NotSubscribed)
                    } else {
                        detail_prefix(DetailKind::Error) + message@
                    }
                },
                _ => {
                    &&& final(self).step == UnsubscribeStep::Done
                    &&& action == FlowAction::Finish
                },
            }),
    {
        match (self.step, event) {
            (UnsubscribeStep::AwaitChannel, FlowEvent::ChannelChecked(ChannelOutcome::Verified(id))) => {
                self.step = UnsubscribeStep::AwaitRemove;
                FlowAction::Unsubscribe { subscriber: id, link: self.link.clone() }
            },
            (UnsubscribeStep::AwaitRemove, FlowEvent::Removed(feed)) => {
                self.step = UnsubscribeStep::AwaitSend;
                FlowAction::SendFeedNotice {
                    chat_id: self.chat_id,
                    notice: FeedNotice::Unsubscribed,
                    link: feed.link,
                    title: feed.title,
                }
            },
            (UnsubscribeStep::AwaitRemove, FlowEvent::StoreFailed { error, message }) => {
                self.step = UnsubscribeStep::AwaitSend;
                let text = if error == StoreError::NotSubscribed {
                    Notice::NotSubscribed.text()
                } else {
                    DetailKind::Error.text(message.as_str())
                };
                FlowAction::Send { chat_id: self.chat_id, text }
            },
            _ => {
                self.step = UnsubscribeStep::Done;
                FlowAction::Finish
            },
        }
    }
}

/// The position of the first feed titled `title` in `feeds`, if any.
pub open spec fn first_titled(feeds: Seq<Feed>, title: Seq<char>) -> Option<int> {
    if exists|i: int| 0 <= i < feeds.len() && #[trigger] feeds[i].title@ == title {
        Some(
            choose|i: int|
                0 <= i < feeds.len() && #[trigger] feeds[i].title@ == title && forall|j: int|
                    0 <= j < i ==> #[trigger] feeds[j].title@ != title,
        )
    } else {
        None
    }
}

/// The position of the first feed titled `title` in `feeds`.
pub fn find_titled(feeds: &Vec<Feed>, title: &String) -> (res: Option<usize>)
    ensures
        match res {
            Some(i) => {
                &&& i < feeds.len()
                &&& feeds@[i as int].title@ == title@
                &&& forall|j: int| 0 <= j < i ==> #[trigger] feeds@[j].title@ != title@
            },
            None => forall|j: int| 0 <= j < feeds.len() ==> #[trigger] feeds@[j].title@ != title@,
        },
        res matches Some(i) ==> first_titled(feeds@, title@) == Some(i as int),
        res is None ==> first_titled(feeds@, title@) is None,
{
    let mut i: usize = 0;
    while i < feeds.len()
        invariant
            i <= feeds.len(),
            forall|j: int| 0 <= j < i ==> #[trigger] feeds@[j].title@ != title@,
        decreases feeds.len() - i,
    {
        if feeds[i].title == *title {
            proof {
                let w = choose|k: int|
                    0 <= k < feeds@.len() && #[trigger] feeds@[k].title@ == title@ && forall|j: int|
                        0 <= j < k ==> #[trigger] feeds@[j].title@ != title@;
                assert(0 <= i < feeds@.len() && feeds@[i as int].title@ == title@ && forall|j: int|
                    0 <= j < i ==> #[trigger] feeds@[j].title@ != title@);
                if w < i {
                } else if w > i {
                    assert(feeds@[i as int].title@ != title@);
                }
            }
            return Some(i);
        }
        i = i + 1;
    }
    None
}

/// Where an `/unsubscribethis` stands.
#[derive(Clone, Copy, Debug, PartialEq, Eq, Structural)]
pub enum ByReplyStep {
    AwaitFeeds,
    AwaitRemove,
    AwaitSend,
    Done,
}

/// The number of answers an `/unsubscribethis` can still take before it
/// ends.
pub open spec fn by_reply_rank(s: ByReplyStep) -> nat {
    match s {
        ByReplyStep::AwaitFeeds => 3,
        ByReplyStep::AwaitRemove => 2,
        ByReplyStep::AwaitSend => 1,
        ByReplyStep::Done => 0,
    }
}

/// `/unsubscribethis`, sent as a reply to an update the bot posted:
/// unsubscribes the chat from the feed whose title is the first line of
/// that update.
pub struct ByReplyFlow {
    pub chat_id: i64,
    /// The title read from the replied-to message.
    pub title: String,
    pub step: ByReplyStep,
}

impl ByReplyFlow {
    /// Handles `/unsubscribethis` sent in chat `chat_id`; `reply` is the
    /// message it replies to, if any, by its text, if it has one.
    pub fn start(chat_id: i64, reply: Option<Option<String>>) -> (res: (ByReplyFlow, FlowAction))
        ensures
            res.0.chat_id == chat_id,
            match reply {
                None => {
                    &&& res.0.step == ByReplyStep::AwaitSend
                    &&& res.1 matches FlowAction::Send { chat_id: c, text }
                    &&& c == chat_id
                    &&& text@ == notice_text(Notice::UsageUnsubscribeThis)
                },
                Some(text) => match (match text {
                    Some(t) => first_line_of(t@),
                    None => None,
                }) {
                    None => {
                        &&& res.0.step == ByReplyStep::AwaitSend
                        &&& res.1 matches FlowAction::Send { chat_id: c, text }
                        &&& c == chat_id
                        &&& text@ == notice_text(Notice::UnknownMessage)
                    },
                    Some(line) => {
                        &&& res.0.step == ByReplyStep::AwaitFeeds
                        &&& res.0.title@ == line
                        &&& res.1 == FlowAction::ListFeeds { subscriber: chat_id }
                    },
                },
            },
    {
        match reply {
            None => (
                ByReplyFlow { chat_id, title: String::new(), step: ByReplyStep::AwaitSend },
                FlowAction::Send { chat_id, text: Notice::UsageUnsubscribeThis.text() },
            ),
            Some(text) => {
                let line = match text {
                    Some(t) => first_line(t.as_str()),
                    None => None,
                };
                match line {
                    None => (
                        ByReplyFlow { chat_id, title: String::new(), step: ByReplyStep::AwaitSend },
                        FlowAction::Send { chat_id, text: Notice::UnknownMessage.text() },
                    ),
                    Some(title) => (
                        ByReplyFlow { chat_id, title, step: ByReplyStep::AwaitFeeds },
                        FlowAction::ListFeeds { subscriber: chat_id },
                    ),
                }
            },
        }
    }

    /// Takes the answer to the last action and gives the next action.
    pub fn next(&mut self, event: FlowEvent) -> (action: FlowAction)
        ensures
            final(self).chat_id == old(self).chat_id,
            final(self).title == old(self).title,
            final(self).step == ByReplyStep::Done || by_reply_rank(final(self).step) < by_reply_rank(
                old(self).step,
            ),
            (match (old(self).step, event) {
                (ByReplyStep::AwaitFeeds, FlowEvent::FeedsListed(listed)) => {
                    let feeds = match listed {
                        Some(f) => f@,
                        None => Seq::<Feed>::empty(),
                    };
                    match first_titled(feeds, old(self).title@) {
                        Some(i) => {
                            &&& final(self).step == ByReplyStep::AwaitRemove
                            &&& action matches FlowAction::Unsubscribe { subscriber, link }
                            &&& subscriber == old(self).chat_id
                            &&& link@ == feeds[i].link@
                        },
                        None => {
                            &&& final(self).step == ByReplyStep::AwaitSend
                            &&& action matches FlowAction::Send { chat_id, text }
                            &&& chat_id == old(self).chat_id
                            &&& text@ == notice_text(Notice::SubscriptionNotFound)
                        },
                    }
                },
                (ByReplyStep::AwaitRemove, FlowEvent::Removed(feed)) => {
                    &&& final(self).step == ByReplyStep::AwaitSend
                    &&& action matches FlowAction::SendFeedNotice { chat_id, notice, link, title }
                    &&& chat_id == old(self).chat_id
                    &&& notice == FeedNotice::UnsubscribedByReply
                    &&& link@ == feed.link@
                    &&& title@ == feed.title@
                },
                (ByReplyStep::AwaitRemove, FlowEvent::StoreFailed { message, .. }) => {
                    &&& final(self).step == ByReplyStep::AwaitSend
                    &&& action matches FlowAction::Send { chat_id, text }
                    &&& chat_id == old(self).chat_id
                    &&& text@ == detail_prefix(DetailKind::Error) + message@
                },
                _ => {
                    &&& final(self).step == ByReplyStep::Done
                    &&& action == FlowAction::Finish
                },
            }),
    {
        match (self.step, event) {
            (ByReplyStep::AwaitFeeds, FlowEvent::FeedsListed(listed)) => {
                let feeds = match listed {
                    Some(f) => f,
                    None => Vec::new(),
                };
                match find_titled(&feeds, &self.title) {
                    Some(i) => {
                        self.step = ByReplyStep::AwaitRemove;
                        FlowAction::Unsubscribe { subscriber: self.chat_id, link: feeds[i].link.clone() }
                    },
                    None => {
                        self.step = ByReplyStep::AwaitSend;
                        FlowAction::Send { chat_id: self.chat_id, text: Notice::SubscriptionNotFound.text() }
                    },
                }
            },
            (ByReplyStep::AwaitRemove, FlowEvent::Removed(feed)) => {
                self.step = ByReplyStep::AwaitSend;
                FlowAction::SendFeedNotice {
                    chat_id: self.chat_id,
                    notice: FeedNotice::UnsubscribedByReply,
                    link: feed.link,
                    title: feed.title,
                }
            },
            (ByReplyStep::AwaitRemove, FlowEvent::StoreFailed { message, .. }) => {
                self.step = ByReplyStep::AwaitSend;
                FlowAction::Send { chat_id: self.chat_id, text: DetailKind::Error.text(message.as_str()) }
            },
            _ => {
                self.step = ByReplyStep::Done;
                FlowAction::Finish
            },
        }
    }
}

/// Where an `/exporttoopml` stands.
#[derive(Clone, Copy, Debug, PartialEq, Eq, Structural)]
pub enum ExportStep {
    AwaitChannel,
    AwaitFeeds,
    AwaitSend,
    Done,
}

/// The number of answers an `/exporttoopml` can still take before it ends.
pub open spec fn export_rank(s: ExportStep) -> nat {
    match s {
        ExportStep::AwaitChannel => 3,
        ExportStep::AwaitFeeds => 2,
        ExportStep::AwaitSend => 1,
        ExportStep::Done => 0,
    }
}

/// `/exporttoopml`: sends the subscriptions of the chat or of a channel as
/// an OPML document.
pub struct ExportFlow {
    pub chat_id: i64,
    pub step: ExportStep,
}

impl ExportFlow {
    /// Handles `/exporttoopml args` sent in chat `chat_id`.
    pub fn start(chat_id: i64, args: &str) -> (res: (ExportFlow, FlowAction))
        ensures
            res.0.chat_id == chat_id,
            ({
                let w = words(args@);
                if w.len() == 0 {
                    &&& res.0.step == ExportStep::AwaitFeeds
                    &&& res.1 == FlowAction::ListFeeds { subscriber: chat_id }
                } else if w.len() == 1 {
                    &&& res.0.step == ExportStep::AwaitChannel
                    &&& res.1 matches FlowAction::CheckChannel { name }
                    &&& name@ == w[0]
                } else {
                    &&& res.0.step == ExportStep::AwaitSend
                    &&& res.1 matches FlowAction::Send { chat_id: c, text }
                    &&& c == chat_id
                    &&& text@ == notice_text(Notice::UsageExport)
                }
            }),
    {
        match parse_export(args) {
            Err(usage) => (
                ExportFlow { chat_id, step: ExportStep::AwaitSend },
                FlowAction::Send { chat_id, text: usage.text() },
            ),
            Ok(Target::CurrentChat) => (
                ExportFlow { chat_id, step: ExportStep::AwaitFeeds },
                FlowAction::ListFeeds { subscriber: chat_id },
            ),
            Ok(Target::Channel(name)) => (
                ExportFlow { chat_id, step: ExportStep::AwaitChannel },
                FlowAction::CheckChannel { name },
            ),
        }
    }

    /// Takes the answer to the last action and gives the next action.
    pub fn next(&mut self, event: FlowEvent) -> (action: FlowAction)
        ensures
            final(self).chat_id == old(self).chat_id,
            final(self).step == ExportStep::Done || export_rank(final(self).step) < export_rank(
                old(self).step,
            ),
            (match (old(self).step, event) {
                (ExportStep::AwaitChannel, FlowEvent::ChannelChecked(ChannelOutcome::Verified(id))) => {
                    &&& final(self).step == ExportStep::AwaitFeeds
                    &&& action == FlowAction::ListFeeds { subscriber: id }
                },
                (ExportStep::AwaitFeeds, FlowEvent::FeedsListed(None)) => {
                    &&& final(self).step == ExportStep::AwaitSend
                    &&& action matches FlowAction::Send { chat_id, text }
                    &&& chat_id == old(self).chat_id
                    &&& text@ == notice_text(Notice::EmptyList)
                },
                (ExportStep::AwaitFeeds, FlowEvent::FeedsListed(Some(feeds))) => {
                    &&& final(self).step == ExportStep::AwaitSend
                    &&& action matches FlowAction::SendOpml { chat_id, feeds: out }
                    &&& chat_id == old(self).chat_id
                    &&& out == feeds
                },
                _ => {
                    &&& final(self).step == ExportStep::Done
                    &&& action == FlowAction::Finish
                },
            }),
    {
        match (self.step, event) {
            (ExportStep::AwaitChannel, FlowEvent::ChannelChecked(ChannelOutcome::Verified(id))) => {
                self.step = ExportStep::AwaitFeeds;
                FlowAction::ListFeeds { subscriber: id }
            },
            (ExportStep::AwaitFeeds, FlowEvent::FeedsListed(None)) => {
                self.step = ExportStep::AwaitSend;
                FlowAction::Send { chat_id: self.chat_id, text: Notice::EmptyList.text() }
            },
            (ExportStep::AwaitFeeds, FlowEvent::FeedsListed(Some(feeds))) => {
                self.step = ExportStep::AwaitSend;
                FlowAction::SendOpml { chat_id: self.chat_id, feeds }
            },
            _ => {
                self.step = ExportStep::Done;
                FlowAction::Finish
            },
        }
    }
}

/// `first_titled` finds the first feed with the title: the feed it names
/// has that title and no feed before it has; where it finds none, no feed
/// has the title.
pub proof fn lemma_first_titled_meaning(feeds: Seq<Feed>, title: Seq<char>)
    ensures
        first_titled(feeds, title) matches Some(i) ==> 0 <= i < feeds.len() && feeds[i].title@
            == title && forall|j: int| 0 <= j < i ==> #[trigger] feeds[j].title@ != title,
        first_titled(feeds, title) is None ==> forall|j: int|
            0 <= j < feeds.len() ==> #[trigger] feeds[j].title@ != title,
{
    if exists|i: int| 0 <= i < feeds.len() && #[trigger] feeds[i].title@ == title {
        let w = choose|i: int| 0 <= i < feeds.len() && #[trigger] feeds[i].title@ == title;
        // The least position with the title exists.
        let m = least_titled(feeds, title, w);
        assert(0 <= m < feeds.len() && feeds[m].title@ == title && forall|j: int|
            0 <= j < m ==> #[trigger] feeds[j].title@ != title);
    }
}

proof fn least_titled(feeds: Seq<Feed>, title: Seq<char>, w: int) -> (m: int)
    requires
        0 <= w < feeds.len(),
        feeds[w].title@ == title,
    ensures
        0 <= m <= w,
        feeds[m].title@ == title,
        forall|j: int| 0 <= j < m ==> #[trigger] feeds[j].title@ != title,
    decreases w,
{
    if exists|j: int| 0 <= j < w && #[trigger] feeds[j].title@ == title {
        let j = choose|j: int| 0 <= j < w && #[trigger] feeds[j].title@ == title;
        least_titled(feeds, title, j)
    } else {
        w
    }
}

/// A list shown with links has the same feeds, no link before a smaller
/// one; a list shown by title has the same feeds, no title before one whose
/// pinyin key is smaller.
pub proof fn lemma_list_order_meaning(out: Seq<Feed>, feeds: Seq<Feed>, show_links: bool)
    requires
        list_order(out, feeds, show_links),
    ensures
        out.to_multiset() == feeds.to_multiset(),
        show_links ==> forall|i: int, j: int|
            0 <= i < j < out.len() ==> !lex_lt::<char>(#[trigger] out[j].link@, #[trigger] out[i].link@),
        !show_links ==> forall|i: int, j: int|
            0 <= i < j < out.len() ==> !lex_lt::<PinyinSym>(
                pinyin_of(#[trigger] out[j].title@),
                pinyin_of(#[trigger] out[i].title@),
            ),
{
    if show_links {
        assert forall|i: int, j: int| 0 <= i < j < out.len() implies !lex_lt::<char>(
            #[trigger] out[j].link@,
            #[trigger] out[i].link@,
        ) by {
            assert((link_key())(out[j]) == out[j].link@);
            assert((link_key())(out[i]) == out[i].link@);
        }
    } else {
        assert forall|i: int, j: int| 0 <= i < j < out.len() implies !lex_lt::<PinyinSym>(
            pinyin_of(#[trigger] out[j].title@),
            pinyin_of(#[trigger] out[i].title@),
        ) by {
            assert((title_pinyin_key())(out[j]) == pinyin_of(out[j].title@));
            assert((title_pinyin_key())(out[i]) == pinyin_of(out[i].title@));
        }
    }
}

} // verus!

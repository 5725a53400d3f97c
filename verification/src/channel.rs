//! Naming a channel and checking that the bot and the user administer it.
use vstd::prelude::*;

use crate::reply::{detail_prefix, notice_text, DetailKind, Notice};
use crate::text::{is_digit, parse_i64, parse_i64_of, starts_with};

verus! {

/// The prefix of a numeric channel id as Telegram writes it.
pub open spec fn channel_id_prefix() -> Seq<char> {
    seq!['-', '1', '0', '0']
}

/// The channel a user's word names: a number is a channel id, written with
/// the `-100` prefix; anything else is a username, written with `@`.
pub open spec fn normalized_channel(c: Seq<char>) -> Seq<char> {
    if parse_i64_of(c) is Some {
        if channel_id_prefix().is_prefix_of(c) {
            c
        } else {
            channel_id_prefix() + c
        }
    } else if c.len() > 0 && c[0] == '@' {
        c
    } else {
        seq!['@'] + c
    }
}

/// Writes the channel that `channel` names in the form Telegram looks up.
pub fn normalize_channel(channel: &str) -> (res: String)
    ensures
        res@ == normalized_channel(channel@),
{
    proof {
        reveal_strlit("-100");
        reveal_strlit("@");
        assert("-100"@ =~= channel_id_prefix());
        assert("@"@ =~= seq!['@']);
        if channel@.len() > 0 {
            assert(channel@.take(1)[0] == channel@[0]);
            if channel@[0] == '@' {
                assert(channel@.take(1) =~= seq!['@']);
            }
        }
    }
    let numeric = parse_i64(channel).is_some();
    if numeric {
        let has_prefix = starts_with(channel, "-100");
        assert(has_prefix == channel_id_prefix().is_prefix_of(channel@));
        if has_prefix {
            String::from_str(channel)
        } else {
            let r = String::from_str("-100").concat(channel);
            assert(r@ == channel_id_prefix() + channel@);
            r
        }
    } else {
        let has_at = starts_with(channel, "@");
        assert(has_at == (channel@.len() > 0 && channel@[0] == '@'));
        if has_at {
            String::from_str(channel)
        } else {
            let r = String::from_str("@").concat(channel);
            assert(r@ == seq!['@'] + channel@);
            r
        }
    }
}

/// Where a channel check stands.
#[derive(Clone, Copy, Debug, PartialEq, Eq, Structural)]
pub enum ChannelStep {
    /// The "checking" notice is being sent.
    AwaitNotice,
    /// The channel is being looked up; `notice` is the notice's message id.
    AwaitChat { notice: i64 },
    /// The administrators of channel `channel_id` are being listed.
    AwaitAdmins { notice: i64, channel_id: i64 },
    /// The notice is being edited to say why the check failed.
    AwaitEdit,
    /// The notice is being deleted after channel `channel_id` passed.
    AwaitDelete { channel_id: i64 },
    /// The check has ended.
    Done,
}

/// The number of answers a channel check can still take before it ends.
pub open spec fn channel_rank(s: ChannelStep) -> nat {
    match s {
        ChannelStep::AwaitNotice => 4,
        ChannelStep::AwaitChat { .. } => 3,
        ChannelStep::AwaitAdmins { .. } => 2,
        ChannelStep::AwaitEdit => 1,
        ChannelStep::AwaitDelete { .. } => 1,
        ChannelStep::Done => 0,
    }
}

/// How a channel check ended.
#[derive(Clone, Copy, Debug, PartialEq, Eq, Structural)]
pub enum ChannelOutcome {
    /// The channel with this id may be acted on.
    Verified(i64),
    /// The user was told why the channel may not be acted on.
    Refused,
    /// A request to Telegram failed.
    Failed,
}

/// What the outside world answered the last action with.
#[derive(Debug)]
pub enum ChannelEvent {
    /// The notice was sent as the message with this id.
    NoticeSent { message_id: i64 },
    /// The chat looked up has this type and id.
    ChatFound { kind: String, id: i64 },
    /// The chat's administrators are the users with these ids.
    AdminsFound { user_ids: Vec<i64> },
    /// Telegram refused the request with this description.
    Refusal { description: String },
    /// The request failed otherwise.
    Failure,
    /// The notice was edited.
    Edited,
    /// The notice was deleted.
    Deleted,
}

/// What to do next.
#[derive(Debug)]
pub enum ChannelAction {
    /// Send `text` to the chat the command came from.
    SendNotice { chat_id: i64, text: String },
    /// Look up the chat named `name`.
    GetChat { name: String },
    /// List the administrators of the channel.
    GetAdmins { channel_id: i64 },
    /// Replace the text of the notice by `text`.
    EditNotice { chat_id: i64, message_id: i64, text: String },
    /// Delete the notice.
    DeleteNotice { chat_id: i64, message_id: i64 },
    /// The check has ended.
    Finish(ChannelOutcome),
}

/// A check that a channel exists, and that the bot and the user who sent
/// the command administer it.
pub struct ChannelCheck {
    pub chat_id: i64,
    pub user_id: i64,
    pub bot_id: i64,
    /// The channel, as Telegram looks it up.
    pub name: String,
    pub step: ChannelStep,
    /// The type and id of the chat found, once it is known.
    pub chat: Ghost<Option<(Seq<char>, i64)>>,
    /// The administrators of the channel, once they are known.
    pub admins: Ghost<Option<Seq<i64>>>,
}

/// The chat type of a channel.
pub open spec fn channel_kind() -> Seq<char> {
    "channel"@
}

impl ChannelCheck {
    /// What the check has learnt so far agrees with where it stands.
    pub open spec fn wf(&self) -> bool {
        &&& self.step matches ChannelStep::AwaitAdmins { channel_id, .. } ==> self.chat@ == Some(
            (channel_kind(), channel_id),
        )
        &&& self.step matches ChannelStep::AwaitDelete { channel_id } ==> {
            &&& self.chat@ == Some((channel_kind(), channel_id))
            &&& self.admins@ matches Some(a)
            &&& a.contains(self.bot_id)
            &&& a.contains(self.user_id)
        }
    }

    /// Starts checking the channel that `channel` names for the user
    /// `user_id` who wrote in chat `chat_id`; the bot's own user id is
    /// `bot_id`. The first action sends the "checking" notice.
    pub fn start(chat_id: i64, user_id: i64, bot_id: i64, channel: &str) -> (res: (
        ChannelCheck,
        ChannelAction,
    ))
        ensures
            res.0.wf(),
            res.0.chat_id == chat_id,
            res.0.user_id == user_id,
            res.0.bot_id == bot_id,
            res.0.name@ == normalized_channel(channel@),
            res.0.step == ChannelStep::AwaitNotice,
            res.0.chat@ == None::<(Seq<char>, i64)>,
            res.0.admins@ == None::<Seq<i64>>,
            res.1 matches ChannelAction::SendNotice { chat_id: c, text } && c == chat_id
                && text@ == notice_text(Notice::CheckingChannel),
    {
        let name = normalize_channel(channel);
        let check = ChannelCheck {
            chat_id,
            user_id,
            bot_id,
            name,
            step: ChannelStep::AwaitNotice,
            chat: Ghost(None),
            admins: Ghost(None),
        };
        (check, ChannelAction::SendNotice { chat_id, text: Notice::CheckingChannel.text() })
    }

    fn refuse(&mut self, message_id: i64, text: String) -> (action: ChannelAction)
        ensures
            final(self).step == ChannelStep::AwaitEdit,
            final(self).chat_id == old(self).chat_id,
            final(self).user_id == old(self).user_id,
            final(self).bot_id == old(self).bot_id,
            final(self).name == old(self).name,
            final(self).chat == old(self).chat,
            final(self).admins == old(self).admins,
            action matches ChannelAction::EditNotice { chat_id, message_id: m, text: t } && chat_id
                == old(self).chat_id && m == message_id && t@ == text@,
    {
        self.step = ChannelStep::AwaitEdit;
        ChannelAction::EditNotice { chat_id: self.chat_id, message_id, text }
    }

    fn finish(&mut self, outcome: ChannelOutcome) -> (action: ChannelAction)
        ensures
            final(self).step == ChannelStep::Done,
            final(self).chat_id == old(self).chat_id,
            final(self).user_id == old(self).user_id,
            final(self).bot_id == old(self).bot_id,
            final(self).name == old(self).name,
            final(self).chat == old(self).chat,
            final(self).admins == old(self).admins,
            action == ChannelAction::Finish(outcome),
    {
        self.step = ChannelStep::Done;
        ChannelAction::Finish(outcome)
    }

    /// Takes the answer to the last action and gives the next action.
    pub fn next(&mut self, event: ChannelEvent) -> (action: ChannelAction)
        requires
            old(self).wf(),
        ensures
            final(self).wf(),
            final(self).step == ChannelStep::Done || channel_rank(final(self).step) < channel_rank(
                old(self).step,
            ),
            final(self).chat_id == old(self).chat_id,
            final(self).user_id == old(self).user_id,
            final(self).bot_id == old(self).bot_id,
            final(self).name == old(self).name,
            (match (old(self).step, event) {
                (ChannelStep::AwaitNotice, ChannelEvent::NoticeSent { message_id }) => {
                    &&& final(self).step == ChannelStep::AwaitChat { notice: message_id }
                    &&& action matches ChannelAction::GetChat { name } && name@ == old(self).name@
                },
                (ChannelStep::AwaitChat { notice }, ChannelEvent::ChatFound { kind, id }) => {
                    &&& final(self).chat@ == Some((kind@, id))
                    &&& if kind@ == channel_kind() {
                        &&& final(self).step == ChannelStep::AwaitAdmins { notice, channel_id: id }
                        &&& action == ChannelAction::GetAdmins { channel_id: id }
                    } else {
                        &&& final(self).step == ChannelStep::AwaitEdit
                        &&& action matches ChannelAction::EditNotice { chat_id, message_id, text }
                        &&& chat_id == old(self).chat_id
                        &&& message_id == notice
                        &&& text@ == notice_text(Notice::NotAChannel)
                    }
                },
                (ChannelStep::AwaitChat { notice }, ChannelEvent::Refusal { description }) => {
                    &&& final(self).step == ChannelStep::AwaitEdit
                    &&& action matches ChannelAction::EditNotice { chat_id, message_id, text }
                    &&& chat_id == old(self).chat_id
                    &&& message_id == notice
                    &&& text@ == detail_prefix(DetailKind::ChannelNotFound) + description@
                },
                (
                    ChannelStep::AwaitAdmins { notice, channel_id },
                    ChannelEvent::AdminsFound { user_ids },
                ) => {
                    &&& final(self).admins@ == Some(user_ids@)
                    &&& if !user_ids@.contains(old(self).bot_id) {
                        &&& final(self).step == ChannelStep::AwaitEdit
                        &&& action matches ChannelAction::EditNotice { chat_id, message_id, text }
                        &&& chat_id == old(self).chat_id
                        &&& message_id == notice
                        &&& text@ == notice_text(Notice::BotNotAdmin)
                    } else if !user_ids@.contains(old(self).user_id) {
                        &&& final(self).step == ChannelStep::AwaitEdit
                        &&& action matches ChannelAction::EditNotice { chat_id, message_id, text }
                        &&& chat_id == old(self).chat_id
                        &&& message_id == notice
                        &&& text@ == notice_text(Notice::UserNotAdmin)
                    } else {
                        &&& final(self).step == ChannelStep::AwaitDelete { channel_id }
                        &&& action == ChannelAction::DeleteNotice {
                            chat_id: old(self).chat_id,
                            message_id: notice,
                        }
                    }
                },
                (ChannelStep::AwaitAdmins { notice, .. }, ChannelEvent::Refusal { description }) => {
                    &&& final(self).step == ChannelStep::AwaitEdit
                    &&& action matches ChannelAction::EditNotice { chat_id, message_id, text }
                    &&& chat_id == old(self).chat_id
                    &&& message_id == notice
                    &&& text@ == detail_prefix(DetailKind::BotNotAllowed) + description@
                },
                (ChannelStep::AwaitEdit, ChannelEvent::Edited) => {
                    &&& final(self).step == ChannelStep::Done
                    &&& action == ChannelAction::Finish(ChannelOutcome::Refused)
                },
                (ChannelStep::AwaitDelete { channel_id }, ChannelEvent::Deleted) => {
                    &&& final(self).step == ChannelStep::Done
                    &&& action == ChannelAction::Finish(ChannelOutcome::Verified(channel_id))
                },
                _ => {
                    &&& final(self).step == ChannelStep::Done
                    &&& action == ChannelAction::Finish(ChannelOutcome::Failed)
                },
            }),
            // A channel passes only when it was found as a channel with that
            // id and both the bot and the user are among its administrators.
            action matches ChannelAction::Finish(ChannelOutcome::Verified(id)) ==> {
                &&& final(self).chat@ == Some((channel_kind(), id))
                &&& final(self).admins@ matches Some(a)
                &&& a.contains(final(self).bot_id)
                &&& a.contains(final(self).user_id)
            },
    {
        match (self.step, event) {
            (ChannelStep::AwaitNotice, ChannelEvent::NoticeSent { message_id }) => {
                self.step = ChannelStep::AwaitChat { notice: message_id };
                ChannelAction::GetChat { name: self.name.clone() }
            },
            (ChannelStep::AwaitChat { notice }, ChannelEvent::ChatFound { kind, id }) => {
                self.chat = Ghost(Some((kind@, id)));
                if kind == String::from_str("channel") {
                    self.step = ChannelStep::AwaitAdmins { notice, channel_id: id };
                    ChannelAction::GetAdmins { channel_id: id }
                } else {
                    self.refuse(notice, Notice::NotAChannel.text())
                }
            },
            (ChannelStep::AwaitChat { notice }, ChannelEvent::Refusal { description }) => {
                self.refuse(notice, DetailKind::ChannelNotFound.text(description.as_str()))
            },
            (ChannelStep::AwaitAdmins { notice, channel_id }, ChannelEvent::AdminsFound { user_ids }) => {
                self.admins = Ghost(Some(user_ids@));
                if !contains_id(&user_ids, self.bot_id) {
                    self.refuse(notice, Notice::BotNotAdmin.text())
                } else if !contains_id(&user_ids, self.user_id) {
                    self.refuse(notice, Notice::UserNotAdmin.text())
                } else {
                    self.step = ChannelStep::AwaitDelete { channel_id };
                    ChannelAction::DeleteNotice { chat_id: self.chat_id, message_id: notice }
                }
            },
            (ChannelStep::AwaitAdmins { notice, .. }, ChannelEvent::Refusal { description }) => {
                self.refuse(notice, DetailKind::BotNotAllowed.text(description.as_str()))
            },
            (ChannelStep::AwaitEdit, ChannelEvent::Edited) => self.finish(ChannelOutcome::Refused),
            (ChannelStep::AwaitDelete { channel_id }, ChannelEvent::Deleted) => {
                self.finish(ChannelOutcome::Verified(channel_id))
            },
            _ => self.finish(ChannelOutcome::Failed),
        }
    }
}

/// Whether `id` is among `ids`.
pub fn contains_id(ids: &Vec<i64>, id: i64) -> (b: bool)
    ensures
        b == ids@.contains(id),
{
    let mut i: usize = 0;
    while i < ids.len()
        invariant
            i <= ids.len(),
            forall|m: int| 0 <= m < i ==> ids@[m] != id,
        decreases ids.len() - i,
    {
        if ids[i] == id {
            assert(ids@[i as int] == id);
            return true;
        }
        i = i + 1;
    }
    false
}

/// Every name `normalize_channel` writes is a channel id, starting with
/// `-100`, or a username, starting with `@`.
pub proof fn lemma_normalized_form(c: Seq<char>)
    ensures
        channel_id_prefix().is_prefix_of(normalized_channel(c)) || (normalized_channel(c).len()
            > 0 && normalized_channel(c)[0] == '@'),
{
    let p = channel_id_prefix();
    if parse_i64_of(c) is Some && !p.is_prefix_of(c) {
        assert((p + c).subrange(0, 4) =~= p);
    }
}

/// Normalizing a name twice gives what normalizing it once gives. This
/// fails only for a number without the `-100` prefix that is no `i64` any
/// more once the prefix is written before it (such as `-5`, which becomes
/// `-100-5` and then `@-100-5`).
pub proof fn lemma_normalize_idempotent(c: Seq<char>)
    requires
        parse_i64_of(c) is Some && !channel_id_prefix().is_prefix_of(c) ==> parse_i64_of(
            channel_id_prefix() + c,
        ) is Some,
    ensures
        normalized_channel(normalized_channel(c)) == normalized_channel(c),
{
    let p = channel_id_prefix();
    if parse_i64_of(c) is Some {
        if !p.is_prefix_of(c) {
            assert((p + c).subrange(0, 4) =~= p);
        }
    } else if !(c.len() > 0 && c[0] == '@') {
        let n = seq!['@'] + c;
        assert(n[0] == '@');
        assert(!is_digit(n[0]));
        assert(parse_i64_of(n) is None);
    }
}

/// What normalizing writes: the name given, after `-100` when it is a number
/// that does not start with `-100`, after `@` when it is no number and does
/// not start with `@`, and unchanged otherwise.
pub proof fn lemma_normalize_meaning(c: Seq<char>)
    ensures
        ({
            let n = normalized_channel(c);
            &&& c.is_suffix_of(n)
            &&& parse_i64_of(c) is Some ==> channel_id_prefix().is_prefix_of(n)
            &&& parse_i64_of(c) is None ==> n.len() > 0 && n[0] == '@'
            &&& n.len() == c.len() || n.len() == c.len() + 1 || n.len() == c.len() + 4
            &&& (parse_i64_of(c) is Some && channel_id_prefix().is_prefix_of(c)) ==> n == c
            &&& (parse_i64_of(c) is None && c.len() > 0 && c[0] == '@') ==> n == c
            &&& (parse_i64_of(c) is Some && !channel_id_prefix().is_prefix_of(c)) ==> n
                == channel_id_prefix() + c
            &&& (parse_i64_of(c) is None && !(c.len() > 0 && c[0] == '@')) ==> n == seq!['@'] + c
        }),
{
    let p = channel_id_prefix();
    let n = normalized_channel(c);
    if parse_i64_of(c) is Some && !p.is_prefix_of(c) {
        assert((p + c).subrange(0, 4) =~= p);
        assert((p + c).subrange(4, (p + c).len() as int) =~= c);
    } else if parse_i64_of(c) is None && !(c.len() > 0 && c[0] == '@') {
        assert((seq!['@'] + c).subrange(1, c.len() as int + 1) =~= c);
    } else {
        assert(n.subrange(0, n.len() as int) =~= n);
    }
}

} // verus!

# rssbot

The command handling of a Telegram bot that subscribes chats and channels to
RSS feeds, verified with Verus.

- `src/text.rs`: whitespace, word splitting, prefixes, first lines, decimal
  integers.
- `src/command.rs`: the arguments of `/list`, `/subscribe`, `/unsubscribe`
  and `/exporttoopml`.
- `src/channel.rs`: the naming of channels and the check that the bot and the
  user administer a channel, as a state machine.
- `src/order.rs`, `src/feed.rs`: the stable sort of feeds by link and by the
  pinyin of their titles (the pinyin key comes from the
  `pinyin-order` crate).
- `src/flow.rs`: each command's conversation as a state machine that takes
  the answer to its last action and gives the next action.
- `src/reply.rs`: the bot's answers.
- `src/cli.rs`: the program's command line.
- `app/`: the program around the library: Telegram, the reactor, and the
  backend interface.

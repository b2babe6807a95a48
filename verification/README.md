# girlpound

The game logic, text and bookkeeping of the girl pound discord bot, written in
Verus and proved against its contracts.

- `src/` is the verified library. Each module states its behaviour in `requires` /
  `ensures` over spec functions and views; the laws that span several calls are
  public proof functions named `law_*`.
  - card games: `cards`, `hand`, `poker`, `poker_events`, `duel`
  - catcoin: `wallet`, `pulls`, `nsfw_bets`
  - members and profiles: `birthday`, `profile`, `classes`, `links`, `interactions`,
    `community`, `draft`, `emoji`, `emojirank`, `genimg`, `reminders`, `verses`,
    `autocomplete`
  - game servers: `servers`, `maps`, `order`, `moderation`, `seeder`, `logs`,
    `server_logs`
  - shared helpers: `text`, `keyed`, `idmap`
  - calls into outside crates, each behind a trusted item: `patterns` (`regex`,
    `emojito`), `rng` (`rand`), `reminders::parse_wait` (`humantime`),
    `autocomplete::to_lowercase` and `text::push_char` / `text::char_from_u32`
    (std).
- `app/` is a small console front end: it reads the environment and files, keeps
  the clock, writes the emoji counts out, runs drafts and duels from console
  input, and holds what works on floating point
  numbers (rate limits and random picks) and the "uwu" rewriting of verses, whose
  call panics on processors without SSE4.1.
- `tests/` exercises the library on concrete values.

# Reciprocity Bot

A music bot for Discord: several bot accounts serve the same guilds together and play through
Lavalink.

- `src/` is the library. It holds the decisions: what a player does with its queues, which bot joins
  a voice channel, what a message, a reaction or a report leads to, how tasks are handed out. Every
  function has a contract that Verus proves. Where an event needs the outside world, the library
  takes it in steps: each step says what to do next, and what that came to goes into the step after
  it.
- `app/` is the program around it. It talks to Discord, to Lavalink and to companions, and carries
  out what the library says.
- `tests/` runs the library.

| Module | What it decides |
| --- | --- |
| `player`, `track` | a player's track, playlist and history |
| `guild` | one guild: messages, voice updates, the main message, clearing the channel |
| `guild::player_manager`, `multi_key_map` | the players of a guild |
| `guild::message_manager`, `context` | search messages and the main message |
| `guild::scheduler`, `task_handle`, `scheduler` | tasks and the bots that carry them out |
| `event_handler` | which events of several bots are duplicates |
| `lavalink_handler`, `lavalink_supervisor` | Lavalink clients and their reports |
| `bots`, `config` | the bots and the configuration |
| `net` | companions |
| `voice_handler`, `player_manager`, `message_manager`, `guild_handler` | voice tasks for a whole network of bots |

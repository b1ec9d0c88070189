# twitchbot

A Twitch chat bot whose rules are a verified library.

- `src/` is the library, checked by Verus: splitting chat lines into words
  (`text`), reading numbers (`number`), command arguments (`args`), the
  guards on who may run a command (`guards`), the command registry and the
  dispatch of a line to a command (`command`), clocks and cooldowns
  (`time`), automatic replies to watched words (`watcher`), random choices
  (`random`), the bot's commands (`commands`) and its economy (`economy`),
  and the login step (`client`).
- `app/` is the program around it: the Twitch connection, the database,
  the event loop, and the randomizer commands, whose answers rest on
  floating-point numbers.
- `tests/` runs the library on concrete inputs.

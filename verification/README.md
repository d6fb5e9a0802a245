# ssne_bot

A Discord bot that links the members of a Discord server to their Minecraft
names, gives them the verified role, and keeps the list in step with the
members of a Wynncraft guild.

- `src/` is the verified library (Verus): the name database format, the
  guild settings, reading the Mojang and Wynncraft API answers, the command
  handler and the hourly update as step functions, and the text handling they
  need. Each public function has a contract, and the laws (read-after-write of
  the name database, decimal round trips, permission requirements of the
  commands, and others) are proof functions.
- `app/` is the program around it: Discord (serenity), HTTP (reqwest), the
  files on disk, and the loops that perform what the step functions ask for.
- `tests/` runs the library on concrete values.

# debilek_bot

A Discord bot that greets users when they join a voice channel, plays audio
clips discovered from an `assets` folder (files become commands, subfolders
become commands with options) and speaks text through a text-to-speech service.

- `src/` is the verified library (Verus): greetings, asset discovery, command
  resolution and autocompletion, text-to-speech query building, and the
  voice-channel decisions.
- `app/main.rs` is the program around it: Discord (poise/serenity), voice
  playback (songbird), HTTP (reqwest), the file system and the environment.
- `tests/` exercises the library on concrete values.

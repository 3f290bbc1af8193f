# discordloops

The verified core of a Discord rich-presence companion for FL Studio.

- `src/text.rs`: character-level string operations (`replace`, prefix tests,
  decimal numerals, UTF-16 encoding) proved against their specifications.
- `src/config.rs`: the configuration, its defaults, and the start-up plan that
  decides where the configuration and the logs live.
- `src/proj_info.rs`: the project line and the plugin line shown on the profile.
- `src/tray.rs`: what the tray window does with each message, the tray menu's
  choices and the tooltip buffer.
- `app/`: the Windows program around it (window queries, the tray window,
  Discord, files, logging).

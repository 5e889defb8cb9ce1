# autoraise-rs

Focus-follows-mouse for macOS, aware of the AeroSpace tiling window manager.

- `src/` is the verified library: the raise decision for each mouse event
  (`raiser`), the AeroSpace state and the queries that refresh it
  (`aerospace`), the configuration and its command-line overrides
  (`config`), the border colour (`color`) and the text handling they share
  (`text`).
- `app/` is the daemon around it: command line, configuration file, the
  CGEventTap run loop, accessibility and window-server calls, running the
  `aerospace` client, and drawing the border.
- `tests/` runs the library on concrete inputs.

# capsule_core (verified prompt composition)

The prompt-composition core of capsule, a zsh prompt engine, written in Verus.

- `text`: characters of strings, terminal width with SGR escape sequences,
  width-bounded truncation, joining of parts.
- `style`: colors, color maps, styles and their SGR rendering.
- `segment`: prompt segments (connector, icon, styled body) and their rendering.
- `config`: the prompt configuration, its defaults, and the segment each
  configured element produces.
- `render`: prompt lines, width-bounded lines of segments, right alignment.
- `prompt`: the two-line and fish layouts, built from fast and slow module
  outputs; `prompt_laws` holds the properties proved of them.
- `path`, `directory`: unix path components and the compact working-directory
  display.
- `modules`: the exit-status, command-duration and clock modules, and presets.
- `shell`: zsh single quoting, with its read-back property.

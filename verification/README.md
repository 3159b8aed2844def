# WinNas Launcher

A fullscreen, TV-style launcher for Windows mini PCs: a grid of programs
driven by a remote, an IR receiver, a gamepad or a keyboard, that keeps the
desktop out of sight and takes the focus back when a program ends.

## Layout

- `src/` — the verified library (Verus). Every public function states its
  result in `ensures`, over the spec functions and views of its module, and
  the public `lemma_*` proof functions state the properties that hold across
  calls.
  - `config` — grid items and their order (pinned first, moved-to-end last,
    the rest by launch count, then name), and the edits on the list.
  - `scanner` — which Start Menu shortcuts and Uninstall entries become grid
    items, de-duplicated by name.
  - `process` — how a path is launched or its running instance activated,
    matching processes and windows to a program, the activation polling.
  - `state`, `focus` — the Idle / AppRunning state machine, pinning that
    follows the focus, reclaiming the focus, maintenance mode.
  - `keyhook`, `keyhook_probe`, `input` — which key strokes are swallowed and
    what they do; keys and gamepad buttons to semantic actions.
  - `power`, `system_state`, `autostart`, `settings`, `i18n`, `icon`, `log`,
    `paths`, `system`, `text` — power-button handling, crash self-healing,
    start with Windows, settings, language detection, icon data URLs, log
    lines, file locations, system commands, text helpers.
- `tests/` — tests of the library on concrete values.
- `app/` — the Windows host (Tauri window and commands, Win32 calls, files,
  registry, processes), which performs what the library decides.

# android_adb_run

Automation of an Android game over ADB: timed taps and screenshots, a
pause while a human touches the screen, reconnection after a USB
disconnect, and the bookkeeping of template images for image matching.

The library in `src/` is verified with Verus:

- `adb/` reads what a device answers (`adb devices -l`, `wm size`,
  `getevent -p`, `ip route`), builds the shell commands sent to it, turns
  framebuffer captures into PNG images, and tracks touch activity.
- `game_automation/` holds the timed events, their configuration, and the
  automation core: a state machine that takes commands and the clock and
  returns the next state and the actions to perform.
- `game_automation/match_image/` holds search regions, template sidecars and
  the loaded templates, listed by category and name.
- `text.rs`, `encode.rs`, `args.rs` and `clock.rs` hold string handling,
  Base64, the command line and the clock.

`app/` is the program around it: device access over USB through
`adb_client` (the Rust backend) or through the `adb` program (the shell
backend, picked with `--impl=shell` or `ADB_IMPL=shell`), the
configuration and sidecar files, pixel correlation for template matching,
and the loop that performs what the automation core decides.

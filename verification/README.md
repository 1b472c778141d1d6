# waybar_toys

Three small status-bar widgets, with their logic verified by Verus:

- **wayherdr** shows how many agents of a herdr server are working,
  blocked, done, idle or unknown (`src/status.rs`, `src/client.rs`,
  socket lookup in `src/paths.rs`).
- **waycat** animates a running cat whose speed follows the CPU load
  (`src/cpu.rs` reads `/proc/stat`, `src/framer.rs` cycles frames,
  `src/formatter.rs` fills the output template, `src/args.rs` checks the
  settings).
- **waycodex** shows OpenAI Codex usage windows, banked resets and the
  countdown to the next reset (`src/usage.rs`, credentials in
  `src/credentials.rs`, auth-file lookup in `src/paths.rs`).

`src/text.rs` holds the character-level helpers they share: search and
replace, decimal numbers, whitespace and words.

`app/` is the program around the library: flag parsing, sockets, HTTP,
files, threads, and the floating-point parts (CPU load smoothing, frame
rates, percentages). It runs as `wayherdr`, `waycat` or `waycodex` by the
name it is started under, or by its first argument.

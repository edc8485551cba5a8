# macro_recorder

A desktop macro recorder and auto-clicker: it records mouse and keyboard
input, plays it back, compresses recordings, schedules macros, matches
images on screen, expands `{variable}` tokens in typed text, and checks a
licence.

The project has two parts.

- `src/` is the library, written in Verus. The decisions the application
  makes about its data live here with contracts that Verus proves: macro
  compression, schedule evaluation (interval, one-off, daily and five-field
  cron schedules), the recording session and its timestamps, variable
  substitution and counters, template matching by the sum of absolute
  differences, pixel checks, window lookup, key and button names, profile
  selection, licence caching and the machine id, and the auto-clicker's
  choices. Floating-point values (coordinates, speeds, confidences) travel
  through the library as their bit patterns and are never computed with.
  The calls into `base64`, `image`, `hex`, `hmac`/`sha2`, `chrono`, `uuid`
  and `rand` sit behind small trusted wrappers whose contracts are stated in
  their doc comments.
- `app/` is the Tauri application around it: commands, tray icon, global
  hotkeys, the input listener and injector, screen capture, files on disk,
  the Rhai script engine, the online licence check, the floating-point
  arithmetic on coordinates and confidences, and the loops that wait on the
  clock: the scheduler's ten-second ticker, the polling deadlines of the
  pixel and image waits, and the auto-clicker's pauses between clicks.

`tests/` exercises the library on concrete values, including one test per
law that the library proves.

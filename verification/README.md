# Affine IO

Runtimes for the `segatools` I/O ABI (`aimeio`, `mai2io`, `chuniio`,
`mercuryio`) that drive the Affine serial controllers and the Monica card
reader.

## Layout

- `src/` is the library, verified with Verus: the frame encoders and
  decoders of every link (slider, maimai board, touch HID stream, card
  reader), the card reader's command logic, the input/output pages shared
  with the game and the decisions of the device loops, the configuration
  parser, the port-name matching and the log-line formatting. Each public
  function carries a contract; the proof functions state the laws that hold
  across calls (what is sent is read back, a coin counts once per press, a
  touch frame is delivered once, LED output catches up, and so on).
- `app/` is the DLL around it: the exported C ABI, Win32 serial ports,
  SetupAPI enumeration, shared memory, HID access through `hidapi`, threads
  and timers. It hands the library plain values and acts on what comes back.
- `tests/` runs the library on concrete inputs.

The configuration is read from `SEGATOOLS_CONFIG_PATH`, or `.\segatools.ini`.

# CursorLight

A desk light with three lamps that shows what a coding assistant is doing: thinking, running a
tool, waiting for the user, done, failed. Hooks of the assistant hand events to a daemon on the
desktop; the daemon turns them into a mode and writes it to the light over Bluetooth Low Energy;
the light's firmware turns the mode into brightness, and can be replaced over the air.

This crate is the logic of all three, verified with Verus.

| Module | What it decides |
| --- | --- |
| `light_core` | the brightness of the lamps over time, the words for the modes, the boot record |
| `firmware` | frames and fades, what a Bluetooth write means, downloads and the plans that write them to the flash |
| `daemon` | messages, the state of a turn, sessions, the link to the light, the state file |
| `client` | the message that a hook sends, and how long it tries |
| `protocol` | what the daemon and the light take for granted of each other |
| `json`, `text` | JSON through `serde_json`, and strings |

Contracts speak of spec functions on plain values. What holds across functions is stated in public
proof functions, such as `firmware::session::a_committed_image_is_what_was_sent`,
`daemon::state::results_are_not_overwritten` or `client::a_payload_is_one_message`.

Calls into other crates stand behind small functions whose contracts are trusted: SHA-256 (`sha2`),
bounded strings (`heapless`), advertisements (`trouble-host`), JSON (`serde_json`), identifiers
(`uuid`). Each says in its comment what it claims of the outside function.

`app/` holds what does the input and output: the command lines, the named pipe, the radio, the
files, and the board of the light.

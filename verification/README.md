# rahgozar

The logic of the rahgozar proxy's desktop client and of its tunnel through a
shared Drive folder, written in Rust and proved with Verus.

- `src/` is the library. Its functions carry contracts that Verus proves, but
  for the trusted items named below; what holds across functions stands as
  public proof functions whose names begin with `law_`.
- `tests/` runs the library on concrete values.
- `app/` is the program around it: the window, the desktop shell's command
  server, files, sockets, TLS and processes.

## The tunnel

Each connection is a session. Both ends put numbered, sealed frames into one
folder and take the other end's frames out in order.

| module | what it is about |
|---|---|
| `frame` | the bytes of a frame |
| `filename` | the names of files in the folder |
| `connect` | the destination in a Connect frame |
| `address`, `destination` | which destinations a relay may dial |
| `listing`, `poll`, `replay` | what a poll makes of the folder, and in which order frames are taken |
| `schedule` | how long to wait between polls |
| `session` | a session on the relay's side |
| `drive_client` | a session on the client's side |
| `tunnel` | both sides together |

## The desktop client

| module | what it is about |
|---|---|
| `config`, `wire` | the configuration, and the document it is saved as |
| `json`, `custom_params` | documents, and the members that no field stands for |
| `form` | the form over the configuration |
| `fronting`, `naming`, `sni` | fronting groups and the SNI pool |
| `commands`, `lifecycle` | the desktop shell's commands |
| `engine`, `notices`, `panel`, `profiles` | the window's state and what it shows |
| `log_view`, `log_filter` | the log panel and its filter |
| `bot_block` | hints on pages that turn the relay away |
| `camouflage` | which certificate names are accepted |
| `text`, `numeral` | characters and numerals |

What the library takes from outside crates (`bytes`, `serde_json`,
`tracing-subscriber`, the TLS library's name parser) and two functions of the
standard library are called through items whose doc comments begin with
"Trusted". Their contracts are not proved: Verus believes them, and they are held
to the outside source by reading.

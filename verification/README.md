# pi-whim

The engine behind a desktop client for the Pi coding agent: what its sessions,
its conversation and its settings do, stated in contracts and proved with Verus.

## Layout

- `src/` is the library. Every function in it is verified, but for the few under
  "What is trusted", whose contracts are believed.
  - `text`, `views`, `keyed`, `json`, `ids`: text, lists, maps, documents and
    identifiers, and what the rest is written in.
  - `domain`: the data that the application holds, and the changes to it.
  - `protocol`, `events`, `controls`: what Pi reports, and what that does to the
    state.
  - `changes`, `state`, `replay`: committing changes, and following them.
  - `mailbox`, `pool`: the live sessions and their identities.
  - `commands`, `slash_commands`, `dialogs`, `notice`, `composer`: what a person
    asks for and is asked.
  - `providers`, `settings`, `session`, `launch`: configuration.
  - `thinking`, `typewriter`: reasoning inside a reply, and its reveal.
  - `chat`, `chrome`, `shell`: what the window shows, as plain values, and
    `strings`: its words, by key and language.
- `app/` is what surrounds the library: threads, files, the network and
  fractions of a pixel.
- `tests/` runs the library.

## What is trusted

A few functions call outside crates, and their contracts are believed without
proof. Each says in its comment what it claims:

- `json`: reading and writing documents is the work of `serde_json`.
- `ids`: identifiers are made and written by `uuid`.
- `typewriter`: grapheme clusters are those of `unicode-segmentation`.
- `text`: lower case is that of `str::to_lowercase`, and `String::push` appends.
- `commands`: a quoted text is one as Rust writes it for debugging.

## Models

A `str` or `String` is modelled by its characters, a record by a record of the
same fields over such models, and a document by a tree. A type that is named
`..View` is the model of a type of the library.

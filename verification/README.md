# tamako

The memory, persona, store and vision layers of a group-chat companion, written in
Verus. The library decides and plans; the code around it runs the databases.

- `src/memory` holds the graph memory of a group: the plans of batch writes, merges,
  rollbacks and manual changes, the reads, and the model of the graph that the laws
  about them are stated on.
- `src/store` holds the relational store of a group: its schema, its statements, the
  rows they give back, and the rules of the message log, the embedding queue, the
  related pairs and the search.
- `src/persona` renders the preamble, the suffix and the clock of the persona.
- `src/vision` normalizes inbound images to JPEG.
- `src/text`, `src/timestamp`, `src/chat_id` and `src/sequence` are shared.

Every function of `src` carries a contract that Verus proves. Properties that span
functions are public proof functions whose names begin with `law_`. What the library
takes from other crates stands behind small wrappers; the doc comment of each names
the function it calls and what is taken for granted of it.

`app` holds the parts with a world attached: SQLite and LadybugDB connections, files,
TOML and JSON forms. `tests` runs the library on concrete values, the store on a real
SQLite and the memory on a graph in memory.

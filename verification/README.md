# balatro_seed_engine

The surface of a Balatro seed engine that a page talks to, verified with Verus.

- `scan_chunk` and `scan_chunk_parallel` search a range of seeds and pack what they find into
  records of seventeen bytes: eight bytes of rank, the lowest first, one byte of score, and the
  seed with blanks behind it up to eight bytes.
- `inspect_seed` says of a single seed which clauses of a filter it meets, and where, as a JSON
  report.
- `analyze_seed_basic` gives an overview of what the antes of a seed offer, as JSON.
- `v3_diagnostic_cpu` and `v3_diagnostic_shader_source` hand through the engine's diagnostic.

## The dialogue

Only the game engine can draw from a seed. The functions of `src/` are handed the engine's
replies so far. Where these suffice they return their result; where they do not they stop with
the request that comes next. The caller has the engine answer, appends the reply and calls
again. `src/dialogue.rs` holds the requests and replies, `app/engine.rs` the loop.

## Where things stand

- `state`, `filter`, `draws`, `search`: the data.
- `text`, `json`: text and JSON documents, and how they are written.
- `dialogue`: requests, replies and the tape of replies.
- `inspect`, `report`: the verdict on each clause, and the report on a seed.
- `analyze`: the overview of a seed.
- `scan`: the search and the diagnostic.
- `reading`: every JSON text that the library writes reads back as the document it stands for.
- `steady`: further replies never change what came before them.
- `meaning`: what the verdicts and the overview say of the replies they rest on.
- `agreement`: a clause judges what the overview shows.

`app/` holds the JSON form of filters, the trait of the game engine, and the functions that carry
a dialogue to its end.

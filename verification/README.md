# loco

A small on-device agent (LiteRT-LM + Gemma 4 E4B) with session memory and
topic tracking, written in Verus.

- `src/` is the verified library: deixis rules and query expansion, topic
  resolution and clarification, session memory and the context compiler,
  the model catalog and cache layout, tool-call parsing and the tool loop's
  decisions, the tool declarations and the messages and tool answers sent
  to the model, consent, the serve protocol's tool merging, and the evaluation
  checks. Contracts are stated over `Seq`/`Map` models; laws that relate
  several functions are public proof functions (`law_*`).
- `app/` is the `loco` command line: file and network I/O, the LiteRT-LM
  conversation, the ONNX embedders and the floating-point embedding stage of
  topic resolution, and the JSON shapes of memory and the serve protocol.
- `tests/` exercises the library from outside.

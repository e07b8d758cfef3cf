# tongues_tts

The decisions of a neural speech synthesis library, verified with Verus: how
configurations are read and refused, which layers a network has, what a request asks of
a model, how durations spread tokens over frames, when a decoder stops, which losses a
training step computes, and how a waveform is cut into chunks.

- `src/` is the library. Every function has a contract; laws that relate several
  functions are public proof functions.
- `tests/` runs the library on concrete values.
- `app/` holds the Burn networks around the library: tensors, floating point, files and
  serialization.

Numbers with a fraction are bit patterns to the library (`double::Double`): it compares,
classifies and rounds them, and leaves arithmetic to the networks. Errors are enums with a
`describe` method, and contracts state their messages exactly.

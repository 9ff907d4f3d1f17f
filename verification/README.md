# sh4der_jockey

The logic of Sh4derJockey, a tool for shader coding and live performances,
written in Verus: the functions in `src/` carry contracts that Verus
proves. The calls that Verus cannot see into (the YAML parser of
`serde_yaml`, the clock, and the building of a string from characters)
stand in small wrappers marked `external_body`, whose contracts are
trusted.

- `src/yaml.rs`: the YAML values that descriptions are read from, and the
  parsing of YAML text into them.
- `src/texture.rs`: texture descriptions and the textures they ask for.
- `src/stage.rs`, `src/uniform.rs`: one render stage of a pipeline and its
  custom uniforms (with the transposition of matrices).
- `src/pipeline.rs`: the pipeline description (audio textures, images, NDI
  sources, stages) and the planning of render targets.
- `src/preprocess.rs`, `src/directive.rs`, `src/text.rs`: expansion of the
  file directives of shader sources and the mapping of compiler messages back
  to file names.
- `src/midi.rs`, `src/audio.rs`, `src/ringbuffer.rs`, `src/interleave.rs`,
  `src/beatsync.rs`: MIDI messages and bindings, audio input buffers, tap
  tempo.
- `src/imagedata.rs`, `src/viewport.rs`: the pixel data handed to the
  viewport renderer, and what the platform layer remembers of a window.
- `src/messages.rs`: the texts shown for refused descriptions.
- `src/config.rs`, `src/events.rs`, `src/cache.rs`, `src/ndi.rs`: the
  project configuration, the decisions of the main loop, the image cache,
  the choice of NDI video sources.

`app/` holds the command-line front end: it reads files and hands their
text to the library. `tests/` exercises the library on
concrete inputs.

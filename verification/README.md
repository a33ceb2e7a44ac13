# maolan_editor

The Maolan audio editor: open an audio file or a clip of one, fade, gain,
reverse and delete ranges with undo and redo, place and detect markers,
export the ranges between markers, and play the result through the Maolan
audio engine.

- `src/` is the editor's core, verified with Verus. Its contracts speak of
  the document's frames and edit list, the undo history, markers, the audio
  device setup, the preferences file's text and the engine requests the
  editor sends. `session.rs` holds the editor state: each user action or
  engine event is a method that returns the outside work to do next.
- `app/` is the program around it: the iced window, file dialogs, decoding
  and encoding audio, the ALSA device probes, the engine client, and the
  sample arithmetic in floating point (fades, gains, levels, resampling),
  which the core takes as closures.
- `tests/` exercise the core with `f32` samples.

# prism_engine

The verified core of a ray-tracing scene editor. `src/` holds the logic,
each public function with a contract that Verus proves: assembling meshes
and gathering the visible geometry, the entity component world and the scene
database kept in step with the runtime, the keyboard, pointer and play-mode
state machines, the renderer's per-frame decisions, the editor surface's
selection bookkeeping, adding objects from the "Add" menu, and the matching
of project-file names to the built-in scenes and objects. Laws that span several functions stand in
`src/` as public proof functions named `lemma_*`.

`app/` is the unverified shell around it: floating-point geometry and camera
math on `glam`, the conversion of `winit` and `egui` events into the
library's events, and the window title. `tests/` runs the library on
concrete values.

# parametric_ui

A small toolkit that builds a tree of drawable components from a JSON screen
description and lets named components be re-parameterised through hooks.

- `src/` is the verified library (Verus): the built-in components' names and
  child limits (`components`), split-layout axis selection (`layout`), hooks and
  their merging into component data (`hooks`, over `serde_json` objects declared
  in `json`), and the component catalogue with the reading of a screen's JSON
  text into a screen description and the construction of the component tree
  from it (`tree`).
- `app/` is the drawing side in ordinary Rust: zones, the `Component` trait,
  the built-in components' floating-point layout and nanovg drawing, and the
  reading of screen files from disk; it calls the library for every decision
  above.
- `tests/` exercises the library.

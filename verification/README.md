# zhazba

The core of a modal terminal text editor, verified with Verus.

- `src/` is the library: actions and key bindings (`action`, `key`), the
  editor's state machine (`editor`), settings (`config`), buffers backed by a
  rope (`buffer`, with the rope's operations in `rope`), the plugin registry
  (`registry`), the interface tree and text boxes (`render`), string helpers
  (`text`) and properties of all of these (`laws`).
- `app/` is the program around it: terminal input and drawing, Lua
  configuration and plugins, logging and the event loop. It hands key events
  to `EditorInner::handle_input`, runs the queue with
  `EditorInner::execute_next`, and performs the callbacks and redraws that
  the steps ask for.

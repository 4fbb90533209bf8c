# frame

A Wayland-native screenshot and annotation tool: region, full, window and scrolling
capture, a floating preview with save and copy, and an annotation editor.

`src/` is the library, verified with Verus: what the program decides, and what it computes
on integers, pixels and text. `app/` is the program around it: the Wayland connections,
the windows, files, the clipboard and the command socket, and what is computed in floating
point, which is the drawing of annotations and of the cursor marker, the size of the preview
and the mapping between screen and image coordinates. `tests/` runs the library.

| Module | What it holds |
| --- | --- |
| `raster`, `imaging` | Images, cropping and scaling |
| `capture`, `globals` | Grabbing an output: globals, outputs, the frame handshake, pixel formats |
| `overlay` | Selecting a region or picking a window, and what is painted meanwhile |
| `monitor`, `json`, `window` | What the compositor says: the focused output and the visible windows |
| `scroll` | Matching and stitching the frames of a scrolling capture |
| `indicator` | The outline around the region that is being captured |
| `editor`, `qao` | The annotation document, the editor's input, the preview's actions |
| `output`, `paths` | PNG files, where they go, and the clipboard helper |
| `sock` | The command socket |
| `session` | A run of the program as a state machine |
| `text` | Text helpers |

Laws that span several functions stand beside them as public proof functions named
`law_...`. What the library takes on trust of other crates stands in functions marked
`external_body`, each with a comment that says what is claimed.

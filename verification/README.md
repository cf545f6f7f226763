# starfold_ui

The terminal layer of STAR/FOLD, a file manager whose directories stack up
behind you, as a library checked by Verus: every public function carries a
contract, and the properties the interface promises are stated and proved
as proof functions named `law_*`.

## Layout

- `src/` — the verified library.
  - `keys`, `keymap`, `dispatch`: key presses, the key table, the order in
    which a key or a mouse event is offered to the layers of the interface,
    and the key document generated from the table.
  - `layout`, `geometry`, `panels/`, `status`: the column of three modules,
    how it tiles the terminal, what each module shows and what a click on
    it lands on.
  - `overlays/`: the modal boxes — confirmation, conflicts, rename, file
    actions and destinations, new entries, search.
  - `places`: the Places picker, its search, its confirmations and the
    selected drive's details.
  - `dnd`, `uri`, `remote`, `offer`: the OSC 72 drag-and-drop wire format,
    `file://` URIs, receiving a remote drop under a staging directory, and
    walking an outgoing drag.
  - `editor`, `labels`, `ops`, `input`, `text`: the embedded editor's
    command line and keys, the words rows are made of, operations, the text
    field, and string helpers.
  - `width`: how many terminal columns text takes, and cutting it between
    grapheme clusters to fit. The measuring and the splitting into grapheme
    clusters come from `unicode-width` and `unicode-segmentation`, the
    crates terminal toolkits measure text with; the toolkit this interface
    was drawn with is not a dependency of the library.
  - `act`, `refresh`: what an action does to the interface and asks of the
    file manager's core, and the view rebuilt from a snapshot of the core.
- `app/` — the edges that touch the machine: the terminal's output stream,
  the disk, the OS machine ID, and the editor's pseudo-terminal.

The application's event loop, the file manager's core it drives, and the
painting of each picture onto the terminal are not part of this crate:
the library decides what each frame shows and where input goes, and
leaves the loop and the drawing to the program that embeds it.
- `tests/` — the library's tests.

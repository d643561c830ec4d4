# rab

A terminal user interface toolkit, written in Verus: each function of the
library carries a contract, and Verus proves the code meets it.

## Layout

- `src/` — the verified library.
  - `tui/` — the toolkit: text measurement and wrapping with ANSI styling
    (`util`, `wrap`, `sgr`, `unicode`), word navigation (`word_nav`), key
    events and keybindings (`keys`, `keybindings`), the kill ring and undo
    stack, terminal colour reports, image data URLs, the differential screen
    renderer (`screen`, `terminal`), autocomplete (`autocomplete`), overlay
    placement and compositing (`overlay`, `composite`), and the components
    (`components/`: the multi-line editor, the one-line input, select lists,
    text, loaders, diffs, table and list layout and more).
  - `ui/` — the application's theme and help overlay.
- `tests/` — tests of the library, run against the compiled crate.
- `app/` — what stays outside the proofs: terminal input and output, the
  keybindings file, image files, and the file system and `fd` program that
  path completion reads through the library's `FileSource` trait.

## What rests on trust

Calls into `unicode-segmentation`, `unicode-width`, `regex`, `base64`,
`crossterm` and a few std functions stand behind small trusted wrappers,
each with a doc comment that says what its contract claims. Grapheme
clustering, character widths, lowercase mapping and Unicode digits are
named rather than spelled out; what the library proves of text widths holds
for whatever those tables give.

Reading Markdown needs a parser, which the library does not carry; the
layout of tables and of (nested) lists, given their cells and items, is
here (`components/table`, `components/list`).

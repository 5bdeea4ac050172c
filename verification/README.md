# abz

A desktop tool that converts archives between zip, tar.gz and 7z.

- `src/` is the library, verified with Verus:
  - `format.rs`: the formats, their extensions, and reading a format from a
    file name;
  - `status.rs`: the state of a conversion, its listing order, text and
    colour family;
  - `archive.rs`: an archive chosen for conversion, and how it is converted
    (which converter, which file name);
  - `order.rs`: the stable sort of the archive list;
  - `state.rs`: the converter's state machine: each message updates the state
    and names the outside work to do;
  - `convert.rs`, `scan.rs`: the decisions of the converters and of the
    folder search.
- `app/` is the program around it: the window (iced), file dialogs (rfd),
  the folder walk, and the converters that stream entries between zip, tar.gz
  and 7z files.
- `tests/` runs the library on concrete values.

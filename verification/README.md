# nadi_md

Turns NADI markdown documents into Typst. Code blocks whose info string reads
`task run`, `table run` or `stp run` (also `string-template run`) hold NADI
code; their results are shown after the block.

- `src/` is the verified library:
  - `text`: string helpers (splitting, trimming, searching, joining),
    stated over `Seq<char>`;
  - `events`: the markdown events that the library reads;
  - `code_args`: which blocks run, with which handler and options;
  - `scan`: finding the blocks to run in a document's events;
  - `code_run`: task scripts of task and table blocks, and the state machine
    that runs their tasks and decides what a block reports;
  - `dates`: finding date-time tokens of a task script that are not valid
    date-times, which are reported as parse errors;
  - `template`: the variables and the report of string template blocks;
  - `nadi`: the calls into `nadi_core`;
  - `typst`: rendering events as Typst markup.
- `app/` is the program: it reads the document, parses its markdown, runs
  the tasks in a shared NADI context with stdout captured, and writes the
  `.typ` file.

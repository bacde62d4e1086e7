# remarkable_oxide

A viewer that draws a 1000 x 1000 canvas from commands that users leave as remarks on a
Substrate chain, and keeps its progress in a file.

- `src/` is the verified library:
  - `command`: the command format and its parser;
  - `scale`, `chain_data`, `chain_data::v4`: the SCALE decoders of extrinsics, addresses,
    signatures, eras, nonces, fees and calls;
  - `block`: the commands of a block, and the number of a header;
  - `persist`: the file layout, the writes that persist a chunk, and the proof that what is
    read back is what was written;
  - `service`: the queue of commands handed to the viewer and the status line;
  - `comm`: the state of the link to the node and its decisions on each event;
  - `block_feed`, `extendable_range`, `latest`, `watchdog`, `config`, `service_config`.
- `app/` is the program around it: the window, the files, the network and the tasks.
- `tests/` runs the library on concrete values.

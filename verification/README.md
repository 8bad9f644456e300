# imt_cli

A command-line front end for a containerised file store. Every store
subcommand (`create`, `add`, `update`, `find`, `rollback`, `rollforward`,
`wormhole-send`, `wormhole-recv`) runs
`sudo docker run -it -v <home>/immutag:/root/immutag immutag:0.0.11 <subcommand> ...`;
`calc` sums numbers and the default action greets.

- `src/` is the verified library (Verus): `numeric` (reading and writing
  decimal integers), `calculator`, `messages`, `invocation` (the docker runs),
  `paths` (staging and the link that `find` makes), `commands` (the
  command-line surface), `text` (helpers).
- `app/main.rs` reads the command line with seahorse, finds the home
  directory, copies files, runs the processes and prints.
- `tests/` runs the library on concrete inputs.

# cross-device-link

A daemon that keeps target files in step with their sources, across devices where
hard links cannot reach. It watches both files of each pair with inotify and copies
the source over the target, as the user who asked for it, whenever one of them
changes.

- `src/` is the library, verified with Verus: how paths compare (`path`), the records
  in force (`records`), the watching side as a machine of small steps (`watching`), the
  copies (`syncing`), the requests of clients (`cdl_msg`), a channel of questions and
  answers (`reply`), and what holds of it all (`laws`).
- `app/` is the program around it: command line, socket, inotify, processes.
- `tests/` runs the library.

Each step of `watching` names one thing to do outside, such as making a watch, and
takes what became of it. The program does that thing and hands the outcome back; it
decides nothing.

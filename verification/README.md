# zym

A fermenting todo list. Tasks age through lifecycle bands (hot, decaying, dormant,
bubbling) that are computed from when they were last touched, never stored.

- `src/` is the library: tasks, settings, the command line's and the interactive
  list's behaviour, what is on screen, and the order in which files are written.
  It reads and writes no files. Every function in it is verified with Verus; the
  few calls into `std` and `dirs` that are taken on trust are declared as such.
  `src/guarantees.rs` states what holds of the interactive list as a whole; other
  modules state their own laws next to the functions they speak of.
- `app/` is the program around it: argument parsing, files, the terminal.
- `tests/` exercises the library through its public interface.

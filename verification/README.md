# leapoh

A calm terminal creature that compresses your morning into a glance: a
mood (the pose) picked from a handful of signals, and a few one-line
observations beside it.

- `src/` is the verified library: argument parsing, configuration
  defaults, merging and ranking observer readings, pose selection, the
  creature's line, ANSI styling and the side-by-side layout, and the
  pure parts of each observer (turning what git, `gh`, `df`, sysfs or the
  streak file said into a reading).
- `app/` is the program around it: environment, files, processes, the
  weather request, threads and printing.
- `tests/` runs the library on concrete values.

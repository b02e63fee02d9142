# sat_bench

Tools to benchmark SAT solvers, with their decision logic verified by Verus.

`src/` is the verified library:

- `benchm`: the configuration of a benchmark run (with the home directory put in place of
  `~` in its directories), the queue of tasks shared by the workers,
  a worker's turn, the monitor that reports finished tasks in order (with the record lines
  of the SR19 sets), the command that starts a solver, and the verdict on its output.
- `report`: which files of a directory are answer files and of which problems, the totals, the table of
  strategies (sorted by name) and one row per problem.
- `answer`: reading an answer file line by line, after checking that it can be read (at
  most one verdict line); `number` decides which texts parse as floating point numbers.
- `runner`: the runs of the small benchmark over 3-SAT sets, structured problems or given
  files, the command of each run, and what follows a run (count it, stop the set, or skip
  the file, with or without a timeout line).
- `satbench2csv`: the configuration of the CSV conversion.
- `bench18`: the problems of the 2018 main track.
- `text`: character-level helpers (words, decimal numerals, path joining).
- `pattern`: regular expressions, compiled and run by the `regex` crate.

Only the problems of the 2018 main track are bundled: the problem lists of the 2019 sets are
built from the files of the data directory, sorted by name and numbered from 1.

`app/` holds the three programs (`benchm`, `sat-bench`, `satbench2csv`), chosen by the first
argument: argument parsing, processes, files, threads, timing and printing.

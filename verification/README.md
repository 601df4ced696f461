# grrs

Scores open-source packages given by a file of GitHub or npm URLs and prints
them best first.

- `src/` is the verified library: resolving a URL to the `owner/repo` of its
  GitHub repository (`url_handler`, with regular expressions from the `regex`
  crate in `pattern`), the integer parts of the metric formulas (`metrics`),
  the ranking queue that reports packages best first (`ranking`), and the
  choice of log level (`logging`).
- `app/` is the command-line program: it reads the URL file, fetches npm
  registry documents, runs the Python metric collector, computes the
  floating-point scores and prints one JSON line per package.
- `tests/` exercises the library.

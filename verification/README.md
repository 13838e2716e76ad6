# grepdef

Quick search for symbol definitions in various programming languages (Rust, JS or
TypeScript, Python, PHP and Ruby), like "Go to definition" in an IDE but by text
patterns.

```text
$ grepdef --type js -n parseQuery ./src
./src/queries.js:17:function parseQuery {
```

Layout:

- `src/` is the library, written and proved with Verus: the search configuration,
  file types and the extension of a path, the regular expression of a query, the
  pre-scans, the line-by-line match, the result limit and the output formats (grep
  lines and JSON).
- `app/` is the `grepdef` command: argument parsing, walking directories, reading
  files, threads and printing. It hands the library what it read.
- `tests/` exercises the library on concrete inputs.

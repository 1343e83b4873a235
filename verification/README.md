# fungus

Convenience utilities for paths, files, iterators, errors, git repositories and system
information, with their behaviour stated as Verus contracts and proved.

## Layout

- `src/` is the verified library.
  - `path.rs`: Unix paths held as strings, split into components exactly as
    `std::path::Path::components` splits them; cleaning, joining, expanding `~`, absolute
    and relative forms, trimming. `path_laws.rs` proves how these relate: splitting and
    rebuilding a path gives its components back, cleaning is idempotent, joining appends
    components, trimming removes one component, absolute forms are absolute, and making
    the relative form of a path absolute again gives the path back.
  - `order.rs`: the order of paths as `Path` orders them, and a verified sort.
  - `iter.rs`: iterator adaptors over the items of a vector (`slice`, `drop`, `single`, ...).
  - `file.rs`: permission (`Chmod`) and copy (`Copyfile`) options and the decisions they
    lead to; extracting strings with regular expressions; BLAKE2b digests.
  - `pattern.rs`: a regular expression kept with the pattern it was compiled from, so that
    what a match finds is stated as a function of the pattern and the text.
  - `logs.rs`: the decisions of a console logger: its level and the names of levels, which
    records it lets through, how it shows their levels and to which outputs it writes.
  - `exec.rs`, `git.rs`, `arch.rs`, `os.rs`, `term.rs`, `gzip.rs`, `string.rs`,
    `option.rs`, `text.rs`: the logic of the corresponding parts of the library.
  - `errors.rs`: the error types and the messages they display.
- `app/` does what the library decides: it reads and writes the file system, reads the
  environment, talks to git remotes, writes archives and runs the console logger.
- `tests/` runs the library on concrete values.

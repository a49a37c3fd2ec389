# skyspell

A spell checker for source code, with its rules proved by Verus.

Source files are cut into words the way programmers write them
(`camelCase`, `snake_case`, `HTTPError`, escapes such as `\n`), URLs, e-mails
and hashes are skipped, and each word is looked up in a dictionary. A word
that the dictionary does not know is an error, unless one of the ignore lists
covers it: the global list, the list of the file's extension, of the project,
or of the file. Whole files can be skipped by name (`Cargo.lock`) or by path.

Errors are handled in three ways: interactively on the terminal (add the word
to a list, skip the file, skip the error, quit), as a report that fails the
check, or inside the Kakoune editor, where errors are listed in a
`*spelling*` buffer and highlighted in the open buffers.

## Layout

- `src/` is the library, verified by Verus:
  - `text.rs`, `words.rs`, `token.rs`, `tokens.rs`: text helpers and the two
    tokenizers;
  - `search.rs`: the calls into `regex` and std's Unicode tables;
  - `project.rs`: projects and relative paths (`pathdiff`);
  - `table.rs`, `repository.rs`, `repo.rs`: the stores of ignore and skip
    rules, with in-memory implementations stated over sets;
  - `dictionary.rs`, `interactor.rs`, `checker.rs`, `checker/`, `handler.rs`:
    what is done with each word and each error;
  - `kak/`: the Kakoune integration (parsing of Kakoune's values, the
    commands written back, the actions);
  - `cli.rs`: the command line actions;
  - `laws.rs`: properties across operations (a read after a write, what a
    removal undoes, how moving between errors wraps around, what is read back
    of what was written).
- `tests/`: the tests.
- `app/`: the `skyspell` program: command line parsing, files, environment,
  terminal, the SQLite store and the Enchant dictionaries.

# drop_app

The verified core of the Drop desktop client, written in Verus.

`src/` holds the decisions the client takes, each with a contract that Verus
proves: how a game's manifest is cut into drops and buckets, which chunks are
complete, when a bucket is retried, what the records say after a download
completes, is cancelled or is uninstalled, which launcher starts a game and
with which command line, how playtime accumulates, how release tags compare,
how request URLs are built, and the user-facing text of every error.

Calls into other crates (`url`, `md5`, `hex`, `humansize`, `shell-words`,
`page_size`) and a few parts of `std` stand behind small trusted wrappers
whose contracts say what the library relies on.

`app/` shows how the library is driven from the outside: a selection of the
client's HTTP requests, file-system work, environment and clock reads, each
handing plain values to the library and carrying out its answers. It does not
hold the whole client (the download pipeline, process spawning and the
desktop shell are not there). `tests/` exercises the library on concrete
values.

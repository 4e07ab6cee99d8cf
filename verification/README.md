# arisa

The decisions of a chat bridge server, verified with Verus.

- `src/config.rs`: the configuration, from environment variables and the application's files
- `src/media/`: uploads, message by message (`chunks.rs`) and as one message (`whole.rs`), and how
  long their files are kept (`retention.rs`); `chunk_laws.rs` says what holds of whole uploads
- `src/service.rs`: requests and their answers
- `src/status.rs`, `src/text.rs`, `src/names.rs`: failures, text, names for new files
- `app/`: the server around the library

## Environment variables

- `ARISA_BIND`: the address to listen on, by default `0.0.0.0:3000`
- `ARISA_UID`: the Android user id
- `ARISA_CALLING_PKG`: the package that calls are made in the name of, by default
  `com.android.shell`
- `ARISA_DB_PULL_DELAY`: the time between two looks at the database in milliseconds, by default
  `100`
- `ARISA_EXIT_ON_STDIN_CLOSE`: whether to exit when the standard input is closed, by default `true`

## What is trusted

The name of a new file comes from the `uuid` crate. That it has the shape of a random UUID is
trusted; that two of them differ is not claimed.

# adoptopenjdk_installer

An installer for AdoptOpenJDK builds on Linux, with its decisions verified by Verus.

- `src/` is the verified library: the request path of a binary, the API's
  addresses and the judgement of its answers, the error texts, the listing of
  available releases, the installer's settings, the order in which an
  archive's entries are unpacked, the install paths and tool registration,
  and the header handling of a resumable download; `text` holds the decimal
  rendering and parsing of integers and field splitting they rest on.
- `app/` is the command-line program around it: HTTP requests, JSON, files,
  archives, processes and the terminal.
- `tests/` runs the library on concrete values.

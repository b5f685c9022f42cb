# narou_rust_core

A downloader and EPUB builder for web novels (the Syosetu sites and
Kakuyomu), with its logic written in Verus and proved against its
contracts.

- `src/` is the verified library: target parsing, the reading of novel
  pages (through `scraper`) and of text patterns (through `regex`), the conversion of episodes to Aozora Bunko
  markup, the database kept in key order, the record written after a
  download, which episodes an update fetches, request pacing, the
  `doctor` and `repair` checks and reports, error reports, and the
  decisions of the command line.
- `app/` is the program around it: the command line and the interactive
  menu, HTTP requests, files on disk, YAML and JSON, running Java for
  AozoraEpub3, and the settings whose pauses are fractional seconds.
- `tests/` runs the library on concrete inputs.

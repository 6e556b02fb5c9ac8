# wget

A small HTTP downloader in the manner of `wget`, whose logic is a library
verified with Verus.

- `src/` — the verified library:
  - `text`: decimal rendering and parsing, whitespace trimming, character
    search, each proved against a short specification;
  - `web::http::http_client`: splitting a URL into host, port and path, and
    the HEAD/GET requests sent for it;
  - `web::http::http_requests`: request messages and their wire text;
  - `web::http::response`: collecting a response head, finding where the
    body starts (through `twoway::find_bytes`) and reading `Content-Length`;
  - `file_writer`: how the destination file is opened, where a continued
    download resumes, and progress accounting;
  - `log`: download events and their `DEBUG: ` lines;
  - `cli`, `parameter_process`: the command-line options.
- `app/` — the program: command-line parsing with clap, sockets, files and
  printing, driving the library.
- `tests/` — tests of the library.

# app_server

A web service that drives an Epson Perfection V600 flatbed scanner through a
`scanimage` wrapper, and the verified library at its core.

- `src/` is the library, verified with Verus: which file names a client may
  use and where they lead, the scanner's description, which scan requests it
  accepts, the command line of a scan, directory listings newest first, human
  readable sizes, and the answers to each request.
- `app/` is the program around it: command line, settings file, HTTP routes,
  file and process I/O, and the JSON forms of the library's types.
- `tests/` runs the library on concrete values.

# archipelag

The verified core of the command-line client for the Archipelag.io
distributed compute network, with the program around it.

- `src/` is the library, verified with Verus: the command tree (`cli`), the
  API's data (`models`), the requests each API call sends and how failed
  answers are reported (`client`), the choice of API key (`config`), the
  decisions of the commands (`commands`), job durations (`duration`), the
  text layouts of every resource (`output`), and the text and colour
  building blocks (`text`, `paint`, `json`).
- `app/` is the program (installed as `archipelagio`): clap parsing, the config file, HTTP with
  reqwest and server-sent events, NATS, and printing.
- `tests/` runs the library on concrete values.

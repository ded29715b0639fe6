# deepseek-arkey

A terminal program for talking to DeepSeek models: a docked chat, an agent that
works inside one directory, and one-off prompts. What the program decides from
plain values (how input, replies, state and requests are read, and what is done
next) is a verified library. The program around it reads, draws and sends; it
also holds the few steps that cannot be told apart from files, processes,
threads and the network.

## Layout

- `src/` is the library, verified with Verus.
  - `text`, `text_sort`, `paths`, `json`: texts, paths and JSON values, each
    operation with its mathematical meaning.
  - `safety`: capping texts and hiding secrets.
  - `terminal_width`, `terminal_markdown`, `answer_format`: how answers look on
    a terminal.
  - `input`: the line editor and the docked composer. Events go in, drawing
    steps and actions come out.
  - `provider`, `internet`, `headers`: requests to the model and to the web, and
    what the answers mean.
  - `session`, `runtime`, `features`, `workspace`, `intent`, `cli`, `ui`: state,
    settings, routing and texts.
  - `repl`: commands, routing and the docked chat, as functions from a state and
    an event to the next state and what is to be done.
  - `agent`: decisions of the model, the run of an agent step by step, its tools
    and its records.
- `app/` is the program: the command line, the terminal, files, processes,
  threads and the network.
- `tests/` runs the library from outside.

## Reading the contracts

A function that builds or reads something has a spec function beside it that
says what the result is, over sequences of characters and views of the types.
State machines (`input::composer`, `repl::chat`, `agent::run`) are stated as
transitions on a view of the state. What holds across functions stands in
proof functions whose names begin with `law_`.

Outside code is called behind a few trusted functions: JSON text is the work of
`serde_json`, URLs are taken apart by `url` (by way of `reqwest`), and a few
functions of the standard library are given their meaning by name.

# Letronna

A personal assistant that chats with OpenAI-compatible gateways (AILE's
free guest models, OpenAI, OpenRouter, a local Ollama, or any custom base
URL), keeps its sessions on disk, and can read, search, write and edit files
in an attached project folder or run a command there, with the user's
approval.

## Layout

- `src/` is the library, written in Verus. Its own functions carry
  contracts and are proved against them; the few small functions that call
  std, serde_json or reqwest directly are trusted, and their contracts say
  what they claim of the call. `backend::now` reads the clock and states
  nothing of it.
  - `text`: trimming, searching, line splitting and decimal formatting,
    specified over `Seq<char>`.
  - `json`: JSON documents as a plain tree; parsing and printing are
    serde_json's.
  - `backend`: endpoint validation, the request body and its context
    window, provider replies, the event stream, model lists and the AILE
    guest session.
  - `store`: sessions, their ids and age labels.
  - `chat`: what the chat window decides: sending, the session list and its
    operations, exports, labels, and the queue of tool calls.
  - `tools`: the tools the model may call, their schemas, previews and
    outputs.
  - `gateway`, `plugins`, `install`, `backdrop`: gateway presets, the
    plugin choices and Discord presence state, Windows registration text,
    and the frosted backdrop's image filters.
- `app/` is the program around it: the data folder, HTTP, the file system
  and shell, plugin threads, Windows registration, and a console prompt.
- `tests/` runs the library on concrete values.

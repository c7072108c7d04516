# Hearsay

A local, on-device voice agent: click Go, talk, and have a spoken conversation that you can
interrupt mid-sentence. This crate is its verified core.

- `src/` is the library. Verus proves the contracts of its functions. What they rest on is
  declared in `json`, `ring`, `text`, `tts` and `models`: short wrappers and specifications of
  outside functions, whose contracts are believed. The traits in `ports` are implemented around
  the library and promise little.
  - Signal: `audio`, `binary32`, `vad`, `aggregator`, `capture`, `ring`, `player`, `file_source`,
    `mic`.
  - Words: `text`, `word`, `stabilize`, `transcript`, `whisper`, `pipeline`.
  - Dialog: `conversation`, `dialogue`, `controller`, `engine`, `events`.
  - Protocols: `json`, `llm`, `tts`, `sidecar`, `models`.
  - The shell: `shell`, `config`, `error`, `ports`.
- `tests/` runs the library on concrete values.
- `app/` is the program around it: threads, sockets, devices, processes, and the floating-point
  arithmetic on the signal.

Samples are generic in the library, or held by their bit patterns; levels and scores are
binary32 numbers by their bits, which the library compares and never calculates with.

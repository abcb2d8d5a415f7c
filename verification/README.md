# stt

Speech-to-text for desktop and mobile applications. The logic of the plugin is
a Verus library: what it does is stated in contracts and proved. Around it
stands an ordinary Tauri plugin that drives devices, files, the network and the
decoder.

## Layout

- `src/` is the library.
  - `models`, `error`: the values that cross the plugin's boundary.
  - `catalog`: the models on offer, how a language selects one, and when a model
    counts as installed.
  - `install`, with `download`, `fetch`, `digest` and `extract`: bringing a
    model onto the disk, verified, as sequences of steps.
  - `request`: getting the model of a language, installed where it is missing,
    loaded.
  - `pcm`, `audio`, `stream`, `desktop`: listening sessions on a microphone.
  - `recognizer`, `decoding`, `ios_stream`: sessions that a host feeds with
    audio itself.
  - `text`, `rounding`: what they share. `rounding` computes percentages and
    rates with whole numbers, to the result that floating point gives.
- `tests/` runs the library on concrete values.
- `app/` is the Tauri plugin.

## Steps

Work that alternates with the outside world is a state machine in the library:
it says which step comes next, the plugin performs it and hands back the
outcome. Each machine has a model, a transition function over it, and laws over
whole runs: nothing is installed that was not verified, a model is fetched
once, a resumed download is the archive byte for byte, no archive entry is
written outside its directory and none is left out, audio of one session never
reaches the next, no hypothesis is reported twice in a row, nothing follows the
end of a session, and a cancelled session gets no transcript.

## What is taken on trust

- `String::push` and `Arc::clone` of the standard library.
- `new`, `update` and `finalize` of the `md-5` crate. What the MD5 of given
  bytes is has a name, `md5_digest`, and nothing is said of it but its length.

# audio_ext

A SourceMod extension that plays sound as the voice of a client. Plugins give a
player a file or a web page; `ffmpeg` decodes it to 16-bit mono samples at
22050 Hz, the samples are mixed with what the client itself says, and the mix is
sent as the client's voice.

## Layout

- `src/` is the logic, verified with Verus. It holds no threads, processes or
  pointers: it says what to do next, and is told what came of it.
  - `sample`, `scratch`: mixing little-endian samples into a frame
  - `pipe`, `reader`: the byte queues that frames are read from
  - `player`, `mixer`, `pace`, `round`: one source, one slot, when to pull how much,
    and the order of a mixing round
  - `extension`, `lifecycle`: all slots, packets for the game frame, start and stop
  - `handle`, `play`, `ffmpeg`, `source`, `headers`, `json`: what a plugin asks for,
    the steps of playing it, and the commands that this comes to
  - `host`, `codec`, `cstr`, `text`: small rules and messages
- `app/` is the shared library around it: threads, child processes, the codec
  library, and the C interface.
- `extras/glue/` is the C++ side, which speaks to SourceMod and the game. It is
  compiled against their SDKs and linked with `app/`.
- `tests/` run the verified library on concrete values.

Contracts are stated over models: a buffered reader is a queue, an end flag and
who is woken by the outstanding read; a frame is the buffer, its mix and its size;
a mixer is its players in order and the client's voice. Public proof functions named `law_..` state what
holds across functions, for example that a reader hands out the bytes that arrived
in their order, or that a lone source is played bit for bit.

`byteorder` and `serde_json` are called through the few functions in `sample` and
`json` whose contracts are trusted; each says in its comment what it claims.

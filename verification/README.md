# Super Shuckie

The core of an emulator frontend: sessions that can be recorded, played back, sought in, published,
followed and linked by cable, the tools that watch a console's memory, and a server that hands the
pictures and the sound of a replay to another program.

`src/` is the library, proved with Verus:

- `emulator`: what a console core does for the rest (`console`), its memory map, its input, link
  cables, frame pacing, and what the Game Boy, Game Boy Advance, Nintendo DS and Nintendo 3DS need
  around their emulators.
- `replay`: the events of a recording, and a player that walks them.
- `session`: `SuperShuckieCore`, a running game. Its methods are spread over modules by what they
  are about; `state` holds the fields. A session does no I/O: it appends what has to be written,
  published, sent or played to its `effects`, in order. `fidelity` holds the laws that make a
  recording play back as it was played.
- `play_together`: live replays (`live`), link frames and the two ends of a cable.
- `memory_monitor`: samples, traces, freezes and edits of a console's memory.
- `ordered`: maps in the order of their keys.
- `export`, `audio`: composited pictures and the ring of samples a sound device reads.
- `core_thread`: what the thread a session runs on decides.
- `frame_server`: the wire protocol, its round trips, and the server's decisions.

Consoles are driven through the trait `EmulatorCore`. Each implementation keeps a ghost log of what
it was asked and what it answered; the contracts of a session say exactly what is asked of the
console, whatever it answers.

`app/` is the program around it: the emulators themselves, replay files, threads, pipes and the
command line. `tests/` run the library on stand-in consoles.

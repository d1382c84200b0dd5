# playastation

A PlayStation (PSX) emulator core whose logic is verified with Verus.

## Layout

- `src/` — the verified library.
  - `cpu/` — the R3000A register file, the system coprocessor (COP0:
    exception entry and return, interrupt masking), instruction decoding and
    evaluation, two pipeline models, and a block decoder.
  - `run/` — the block executor: decoding a block of instructions from the
    bus, the interpreter, and the step that finishes a block (jump, exception
    or interrupt).
  - `interconnect/` — the bus: address translation (KUSEG/KSEG0/KSEG1
    mirrors), RAM, BIOS, scratchpad and the memory-mapped devices.
  - `devices/` — interrupt controller, timers, DMA controller and its
    transfers (ordering-table clear, block and linked-list transfers to the
    GPU), GPU command processing (GP0/GP1) into VRAM.
  - `mem/`, `dma/` — a flat memory and a small DMA model used by the simple
    pipeline.
  - `render/` — software rasterisation helpers (triangle fill, VRAM uploads
    and downloads).
- `tests/` — tests of the library.
- `app/` — the program around the library: BIOS loading, the main loop, and
  the threaded software renderer.

Blocks run on the interpreter only: there is no JIT compiler (native code
generation lies outside what can be verified here).

Every function of `src/` carries a contract over a mathematical model of its
data; the laws that relate several functions are public proof functions
whose names start with `law_`.

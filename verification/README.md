# switch_charging

Verified logic for a four-MOSFET switching controller on a Raspberry Pi:
a rotary encoder sets the switching frequency (0.1 Hz to 10 kHz) or picks
one of eight switching sequences, and a TM1637 7-segment display shows the
frequency or the sequence.

- `src/mosfet.rs`: the switch states, the eight sequences, and the pin
  levels that apply a state (P-channel active-low, N-channel active-high).
- `src/bus.rs`: the TM1637 two-wire bus: start/stop conditions, bytes,
  commands, and a receiver's view of the lines, with the proof that a
  command reads back as the bytes written.
- `src/tm1637.rs`: segment codes and the waveforms for the display
  commands.
- `src/rotary.rs`: encoder step counting and button press timing.
- `src/controller.rs`: one pass of the main loop as a function from state
  and inputs (time, encoder count, button) to the next state and the
  MOSFET actions, with the laws it keeps.
- `app/main.rs`: the program: GPIO pins, interrupts, the clock, and the
  loop that plays what the library decides.

Frequencies are kept in tenths of a hertz and times in nanoseconds.

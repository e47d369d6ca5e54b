# zapolab_mixer

Verified control logic of an RP2040 two-deck USB MIDI controller for Mixxx.

- `src/` is the library, checked by Verus: potentiometer averaging, scaling
  and change reporting (`controls::volume`), play, shift and deck-select
  buttons (`controls::play`, `controls::shift`, `controls::deck`), the
  USB-MIDI packet format and the decoding of Mixxx's LED feedback (`midi`),
  and the drawing plans of the status display (`display`).
- `app/` is the firmware around it: Embassy tasks that read the pins, the ADC
  and the USB endpoints, hand the values to the library, and carry out what it
  returns (sending packets, storing shared state, drawing with
  embedded-graphics on the SSD1306). The exponential smoothing of the pots
  runs there, in floating point.
- `tests/` runs the library on concrete values.

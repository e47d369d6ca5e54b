//! Control logic of a two-deck USB MIDI mixer: potentiometer scaling and
//! de-duplication, play/shift/deck buttons, the USB-MIDI wire format in both
//! directions, and the drawing plan of the 64 x 128 status display.
//!
//! Everything here is plain computation on plain values. Talking to the ADC,
//! the GPIO pins, the USB endpoints and the display is left to the firmware
//! around the library, which feeds in what it read and carries out what the
//! library decided.

pub mod controls;
pub mod display;
pub mod midi;

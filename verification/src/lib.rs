//! Transmission of infrared remote-control commands as timed pulse trains.
//!
//! A protocol encoder turns a command into a sequence of pulse durations,
//! which a fixed-capacity buffer accumulates. A tick-driven state machine
//! then consumes the buffer over real time, reporting on every tick whether
//! the carrier is on, off, idle or in error, so that a hardware sender can
//! gate a PWM output accordingly.

pub mod sender;

//! Closed-loop fan-speed control for a laptop thermal subsystem.
//!
//! The crate holds the verified core of a fan controller. Once per interval
//! the controller takes the CPU temperature, looks up the duty cycle that a
//! temperature [`curve`] asks for, and has it written to the fan channels if
//! it differs from the one written last.
//!
//! - [`curve`]: the curve, its scaling from percentages to duty cycles, its
//!   evaluation and its text form.
//! - [`control`]: the control loop as a state machine, with the laws of
//!   change suppression.
//! - [`sensor`]: the sensor's raw text and the temperature it denotes.
//! - [`pwm`]: the actuator's decisions for its three channels.
//! - [`discovery`]: the choice of a device by its name.
//! - [`decimal`], [`lines`], [`text`]: decimal numbers, lines and whitespace
//!   in text, which the modules above rest on.
//!
//! The crate touches no file and no device. The program that embeds it
//! reads the sensor, carries out the actions and sleeps between ticks.

pub mod control;
pub mod curve;
pub mod decimal;
pub mod discovery;
pub mod lines;
pub mod pwm;
pub mod sensor;
pub mod text;

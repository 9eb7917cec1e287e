//! Core of a keyboard-driven polyphonic synthesizer: pitch arithmetic, the
//! ADSR envelope state machine, the voice bookkeeping, the settings store and
//! the capture tap that feeds a visualizer.

pub mod capture;
pub mod envelope;
pub mod pitch;
pub mod settings;
pub mod source;
pub mod ui;
pub mod voices;

//! A verified core for a terminal beeper: a frequency/duration-controlled
//! tone through a console sound generator, degrading to the ASCII bell when
//! the device refuses.

pub mod cli;
pub mod emission;
pub mod tone;

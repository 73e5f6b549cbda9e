//! Verified logic for the STM32F3DISCOVERY exercises: LED patterns,
//! serial and I2C polling protocols, timer delays and sensor decoding.
pub mod blink;
pub mod chase;
pub mod compass;
pub mod echo;
pub mod gpio;
pub mod leds;
pub mod magnetometer;
pub mod roulette;
pub mod serial;
pub mod timer;

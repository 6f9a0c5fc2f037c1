//! Driver logic for HD44780-family character LCDs attached through an I2C
//! GPIO-expander backpack.
//!
//! The library holds the protocol core: the nibble-pair encoding that turns a
//! logical command or data byte into the six physical bus writes the expander
//! needs, the row-address table for the supported display geometries, and the
//! driver state machine. It produces *write plans*: sequences of bytes, each
//! of which must be transmitted as one single-byte bus write followed by the
//! fixed settling delay. Opening the bus device, binding the slave address,
//! and performing the writes themselves are left to the embedding caller.

use vstd::prelude::*;

pub mod codec;
pub mod driver;

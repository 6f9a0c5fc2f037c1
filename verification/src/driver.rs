//! The LCD driver state machine.
//!
//! A driver instance moves `Uninitialized -> Open -> Closed`, and only an
//! open instance may plan writes. The methods return write plans — sequences
//! of physical bus bytes, each to be transmitted as one single-byte write
//! followed by the fixed settling delay — and leave the bus I/O itself to
//! the embedding caller. Writing before init or after close,
//! re-initialization, an unsupported geometry and a row index outside the
//! display are each guarded with a distinct error.

use vstd::prelude::*;
use vstd::string::StringSliceAdditionalSpecFns;

use crate::codec;

verus! {

/// Lifecycle of a driver instance: writes are permitted only while `Open`,
/// and a closed instance can never be reopened.
#[derive(Clone, Copy, PartialEq, Eq, Structural, Debug)]
pub enum LcdState {
    Uninitialized,
    Open,
    Closed,
}

/// Errors raised by the driver's own guards (hardware failures are the
/// embedding caller's to report).
#[derive(Clone, Copy, PartialEq, Eq, Structural, Debug)]
pub enum LcdError {
    /// A write or close was requested while the driver is not open.
    NotOpen,
    /// `init` was called on an instance that was already used.
    AlreadyInitialized,
    /// The display geometry is unsupported: the row count is not 1, 2 or 4,
    /// or a four-row display is wider than 0x3F columns.
    InvalidGeometry,
    /// The 1-indexed target row lies outside the display.
    RowOutOfRange,
}

pub struct Lcd {
    state: LcdState,
}

impl Lcd {
    /// The current lifecycle state, for contracts.
    pub closed spec fn spec_state(&self) -> LcdState {
        self.state
    }

    /// Open the driver: transition a fresh instance to `Open` and hand back
    /// the write plan the caller must transmit first — the power-on
    /// handshake if `run_handshake` is set, nothing otherwise. The caller
    /// must have opened the bus device and bound the slave address before
    /// transmitting; an instance that was already used is refused.
    pub fn init(&mut self, run_handshake: bool) -> (r: Result<Vec<u8>, LcdError>)
        ensures
            old(self).spec_state() == LcdState::Uninitialized ==> {
                &&& final(self).spec_state() == LcdState::Open
                &&& r matches Ok(plan) && plan@ == (if run_handshake {
                    codec::spec_init_sequence()
                } else {
                    Seq::<u8>::empty()
                })
            },
            old(self).spec_state() != LcdState::Uninitialized ==> {
                &&& *final(self) == *old(self)
                &&& r == Err::<Vec<u8>, LcdError>(LcdError::AlreadyInitialized)
            },
    {
        match self.state {
            LcdState::Uninitialized => {
                self.state = LcdState::Open;
                if run_handshake {
                    Ok(codec::init_sequence())
                } else {
                    let empty: Vec<u8> = Vec::new();
                    Ok(empty)
                }
            },
            _ => Err(LcdError::AlreadyInitialized),
        }
    }

    /// Plan one line: `msg`, truncated or space-padded to exactly `maxcols`
    /// data bytes, written into 1-indexed row `row` of a display with
    /// `maxrows` rows. The plan starts with the row-address command byte
    /// and encodes every logical byte as six physical writes.
    pub fn write_line(&self, msg: &str, maxrows: usize, maxcols: usize, row: usize) -> (r:
        Result<Vec<u8>, LcdError>)
        ensures
            self.spec_state() != LcdState::Open ==> r == Err::<Vec<u8>, LcdError>(
                LcdError::NotOpen,
            ),
            self.spec_state() == LcdState::Open && codec::spec_row_addresses(
                maxrows as int,
                maxcols as int,
            ).len() == 0 ==> r == Err::<Vec<u8>, LcdError>(LcdError::InvalidGeometry),
            self.spec_state() == LcdState::Open && codec::spec_row_addresses(
                maxrows as int,
                maxcols as int,
            ).len() > 0 && !(1 <= row <= codec::spec_row_addresses(
                maxrows as int,
                maxcols as int,
            ).len()) ==> r == Err::<Vec<u8>, LcdError>(LcdError::RowOutOfRange),
            self.spec_state() == LcdState::Open && 1 <= row <= codec::spec_row_addresses(
                maxrows as int,
                maxcols as int,
            ).len() ==> (r matches Ok(plan) && {
                &&& plan@ == codec::spec_line_plan(
                    codec::spec_row_addresses(maxrows as int, maxcols as int)[row - 1],
                    msg.spec_bytes(),
                    maxcols as nat,
                )
                &&& plan@.len() == 6 * (1 + maxcols as int)
            }),
    {
        match self.state {
            LcdState::Open => {
                let addrs = codec::row_addresses(maxrows, maxcols);
                if addrs.len() == 0 {
                    Err(LcdError::InvalidGeometry)
                } else if row < 1 || row > addrs.len() {
                    Err(LcdError::RowOutOfRange)
                } else {
                    let addr = addrs[row - 1];
                    Ok(codec::build_line_plan(addr, msg.as_bytes(), maxcols))
                }
            },
            _ => Err(LcdError::NotOpen),
        }
    }

    /// Release the driver: an open instance becomes `Closed` and stays so;
    /// the caller releases the bus handle. Closing an instance that is not
    /// open is refused.
    pub fn close(&mut self) -> (r: Result<(), LcdError>)
        ensures
            old(self).spec_state() == LcdState::Open ==> {
                &&& final(self).spec_state() == LcdState::Closed
                &&& r == Ok::<(), LcdError>(())
            },
            old(self).spec_state() != LcdState::Open ==> {
                &&& *final(self) == *old(self)
                &&& r == Err::<(), LcdError>(LcdError::NotOpen)
            },
    {
        match self.state {
            LcdState::Open => {
                self.state = LcdState::Closed;
                Ok(())
            },
            _ => Err(LcdError::NotOpen),
        }
    }
}

impl Default for Lcd {
    /// A fresh, uninitialized driver instance.
    fn default() -> (r: Lcd)
        ensures
            r.spec_state() == LcdState::Uninitialized,
    {
        Lcd { state: LcdState::Uninitialized }
    }
}

} // verus!

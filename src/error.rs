use vstd::prelude::*;

verus! {

/// The kinds of failure that register access and UART bring-up report.
#[derive(Clone, Copy, Debug, PartialEq, Eq, Structural)]
pub enum DriverError {
    /// The instance index is outside the peripheral's address table.
    InvalidIndex,
    /// A write to a read-only register or a read from a write-only one.
    AccessDenied,
    /// More bits were asked for than the register holds.
    WidthOverflow,
    /// The bit count resolves to a transfer size the engine cannot perform.
    UnsupportedRegisterSize,
    /// A baud rate of zero.
    InvalidBaudRate,
    /// The UART was found enabled when bring-up was about to enable it.
    AlreadyEnabled,
    /// The control register did not read back the value just written.
    VerificationFailed,
    /// A busy-wait used up the poll budget of its bus before the flag cleared.
    WaitExhausted,
}

} // verus!

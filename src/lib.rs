//! Register access and UART bring-up for the RP1 peripherals of a Raspberry Pi 5.
//!
//! All hardware memory traffic goes through a [`port::MemoryPort`], wrapped in a
//! [`port::Bus`] that keeps a ghost log of every access; the contracts of the
//! register engine and of the UART sequencer are stated over that log.
pub mod error;
pub mod port;
pub mod register;
pub mod uart_register;
pub mod gpio;
pub mod uart;

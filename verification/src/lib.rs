//! Verified core of an I2S microphone capture pipeline.
//!
//! The library models the real-time path of a two-buffer audio recorder:
//! a hardware timing program for I2S receive, a capture driver with an
//! exact clock divider, a double-buffered hand-off pipeline, a capacity-one
//! rendezvous channel, and a storage sink that produces a PCM WAV file.
//! Hardware access (PIO, DMA, SPI, the SD card) stays outside; the library
//! takes the outcomes of those operations as plain values and decides
//! everything else under contract.
#![allow(unused_imports)]

use vstd::prelude::*;

pub mod mic;
pub mod pipeline;
pub mod sd;

verus! {

/// Invalid clock setup, detected at driver construction. Fatal at startup.
#[derive(Clone, Copy, Debug, PartialEq, Eq, Structural)]
pub enum ConfigurationError {
    /// The requested sample rate is zero.
    InvalidSampleRate,
    /// The ideal divider does not fit the 16.8 fixed-point divider register.
    DividerOutOfRange,
}

/// Errors of the capture path. All are fatal: nothing in the capture path
/// retries, queues, or silently drops data.
#[derive(Clone, Copy, Debug, PartialEq, Eq, Structural)]
pub enum CaptureError {
    /// A second read was started while one was still outstanding.
    ReadInProgress,
    /// A completion was reported while no read was outstanding.
    NoPendingRead,
    /// The DMA transfer failed; the buffer's data is lost and undefined.
    HardwareFault,
    /// The buffer that should be filled is still away at storage.
    BufferInTransit,
    /// A hand-off was requested before the buffer got a fresh fill.
    BufferNotFilled,
    /// A fill would overwrite a completed buffer that was never handed off.
    BufferAlreadyFilled,
    /// The filled data does not span exactly one buffer.
    WrongBufferSize,
    /// A buffer came back although its slot is occupied.
    SlotOccupied,
    /// A buffer came back that does not belong to the pipeline's pair.
    UnknownBuffer,
}

/// Errors of the storage path. Fatal to the storage task; the chosen policy
/// on any of them is to halt the whole pipeline (see `storage_task_step`).
#[derive(Clone, Copy, Debug, PartialEq, Eq, Structural)]
pub enum StorageError {
    /// The volume could not be mounted.
    MountFailed,
    /// The output file could not be opened or created.
    OpenFailed,
    /// Appending sample bytes failed.
    WriteFailed,
    /// The sink is not open for writing.
    NotOpen,
    /// The sink was already finalized.
    AlreadyFinalized,
    /// Appending would overflow the 32-bit WAV length fields.
    FileTooLarge,
    /// The requested format cannot be described by a WAV header.
    InvalidFormat,
}

} // verus!

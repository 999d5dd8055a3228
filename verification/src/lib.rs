//! Register-level bring-up logic of the STM32H757 dual-core board: the
//! clock tree of the Cortex-M7, the FDCAN1 driver of the Cortex-M4 and the
//! status words that the two cores share in SRAM4.
//!
//! Every hardware access is described as a register operation (`RegOp`);
//! a verified `Sequencer` decides, one step at a time, which access comes
//! next, and the firmware around the library performs it.

pub mod regs;
pub mod pac;
pub mod sequencer;
pub mod fdcan;
pub mod clock;
pub mod dual_core;

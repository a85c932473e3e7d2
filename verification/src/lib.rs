//! Memory protection for ARM Cortex-M.
//!
//! A task's memory is described by a list of regions, each a range of
//! addresses and what may be done with it. For a PMSAv7 memory protection
//! unit the list becomes a memory configuration: one region descriptor, a
//! pair of register values, for each region of the list. Writing a
//! configuration to the unit's register bank takes the unit out of effect,
//! writes every descriptor, and puts the unit into effect again.
//!
//! - `ops`: fields of bits in a 32-bit register value
//! - `mpu`: the registers that both generations of the unit share, and the
//!   register bank
//! - `mpu_v7`, `mpu_v8`: the register values of PMSAv7 and of PMSAv8
//! - `memory_config`: regions of memory and the access check
//! - `alignment`: blocks of the address space of a power-of-two size
//! - `protection_v7`: region descriptors and memory configurations for
//!   PMSAv7

pub mod alignment;
pub mod memory_config;
pub mod mpu;
pub mod mpu_v7;
pub mod mpu_v8;
pub mod ops;
pub mod protection_v7;

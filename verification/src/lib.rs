//! Switching logic for a four-MOSFET charging controller: the switch
//! states and the sequences they run in, the TM1637 display protocol, the
//! rotary encoder and button bookkeeping, and the controller's main-loop
//! decisions. Every GPIO access stays with the caller; this crate computes
//! the levels to drive and the waveforms to send.

pub mod bus;
pub mod controller;
pub mod mosfet;
pub mod rotary;
pub mod tm1637;

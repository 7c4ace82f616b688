//! Service logic for a USB device-controller service: an endpoint-space
//! allocator over the controller's descriptor memory, a command-line
//! assembler fed by two character sources, a suspend/resume coordinator,
//! and the dispatch state machine that ties them together.

pub mod allocator;
pub mod assembler;
pub mod command;
pub mod dispatch;
pub mod display;
pub mod ime;
pub mod power;

pub mod forwarder;
pub mod listing;
pub mod manager;
pub mod monitor;
pub mod ports;
pub mod validation;
pub mod virtual_ports;
pub mod worker;

pub use manager::MidiManager;
pub use virtual_ports::{
    VIRTUAL_INPUT_A_NAME, VIRTUAL_INPUT_B_NAME, VIRTUAL_OUTPUT_A_NAME, VIRTUAL_OUTPUT_B_NAME,
};

//! The decisions of an appliance gateway: a device that reads an appliance
//! through its optical diagnostic port and reports it to Home Assistant over
//! MQTT, or bridges the port to USB.
//!
//! Everything here is computed from plain values and proved against its
//! contract. The program around it talks to the hardware and to the network.
pub mod bridge;
pub mod device;
pub mod discovery;
pub mod dump;
pub mod failure;
pub mod invocation;
pub mod messages;
pub mod network;
pub mod publish;
pub mod text;
pub mod topic;
pub mod wifi;

//! Screen casting for a handheld console: the decisions, formats and
//! arithmetic behind the capture pipeline, the streaming daemon and the
//! on-device pairing interface, each stated as a contract and proved.

pub mod audio;
pub mod bitstream;
pub mod capture;
pub mod cli;
pub mod control;
pub mod convert;
pub mod daemon;
pub mod flow;
pub mod framebuffer;
pub mod geometry;
pub mod input;
pub mod input_decode;
pub mod routing;
pub mod rpc;
pub mod screens;
pub mod service;
pub mod session;
pub mod status;
pub mod sys;
pub mod text;
pub mod ui;
pub mod vendor_abi;
pub mod video;

//! A server for the SMB2 and SMB3 protocols: what it answers to each request,
//! and what it asks of its clock, its storage and the state that servers share.

pub mod config;
pub mod codec;
pub mod connection;
pub mod coordination;
pub mod error;
pub mod frame;
pub mod handler;
pub mod helpers;
pub mod protocol;
pub mod storage;
pub mod state;
pub mod text;

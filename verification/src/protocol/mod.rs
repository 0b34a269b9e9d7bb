//! The SMB2 wire format: headers, commands, status codes and dialects.

pub mod dialect;
pub mod header;
pub mod status;

//! The decisions behind each HTTP endpoint. The server's handlers read the
//! request, call these functions, perform the I/O they ask for, and send the
//! answer.

pub mod challenge;
pub mod siteverify;
pub mod verify;
pub mod widget;

//! A datagram-socket handle boundary: the error values handed across it,
//! how they print, and how each socket operation turns what the OS
//! reported into the result its caller sees.

pub mod error;
pub mod outcome;

pub use error::udpsocket_error;
pub use outcome::{
    completion, label, operation_error, parse_addr_error, recv_outcome, send_outcome,
    AddressStage, FailureKind, Operation, OsFailure,
};

//! A fixed-window rate limiter for on-chain programs. Its decisions, the
//! account checks it makes and its byte layouts are stated in contracts and
//! proved.
//!
//! A call of the program is a small machine: `process_instruction` reads the
//! instruction and runs its handler until it needs outside work (the clock, or
//! creating an account), `resume` goes on with what that work gave, and the
//! call ends with the new contents of one account or with an error.

pub mod codec;
pub mod error;
pub mod instruction;
pub mod key;
pub mod limiter;
pub mod processor;
pub mod state;

pub use error::{IoFailure, ProgramError, RateLimiterError};
pub use instruction::{InstructionView, RateLimiterInstruction};
pub use key::Pubkey;
pub use processor::{
    process_instruction, resume, service_id_bytes, Account, AccountWrite, Event, Pending, Request,
    Step,
};
pub use state::{ClientRecord, Config, Service};

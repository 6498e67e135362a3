pub mod error;
pub mod fibonacci;
pub mod processor;
pub mod record;

pub use error::ProcessError;
pub use fibonacci::fibonacci;
pub use processor::{process_instruction, Account, Identity};
pub use record::Fibonacci;

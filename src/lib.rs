//! Actor handles with typed request/reply dispatch over an unbounded mailbox,
//! and the bookkeeping of a dependency injector that builds each actor once.

pub mod binding;
pub mod channel;
pub mod error;
pub mod injector;
pub mod lazy;
pub mod resolver;
pub mod system;
pub mod table;

//! Cooperative multitasking: task identities, the executors' scheduling
//! decisions and the keyboard scancode queue. The suspendable computations
//! themselves are polled by the caller; these types decide what to poll next.
pub mod executor;
pub mod keyboard;
pub mod simple_executor;

//! A model of a priority-driven, interrupt-scheduled task runtime for
//! single-core microcontrollers.
//!
//! Tasks have static priorities, the interrupt controller is the only
//! scheduler, and shared state is protected by raising the priority mask
//! to a resource's ceiling for the length of an access: no task ever
//! blocks, and no lock is ever waited for.
//!
//! - [`app`]: the task and resource tables, their rules and the ceilings.
//! - [`context`]: what each kind of context is entitled to, and the
//!   module and the bundle that carry it.
//! - [`mask`]: the priority mask and the ceiling lock on it.
//! - [`ready`] and [`timer`]: the queues of pending and of deferred
//!   invocations.
//! - [`system`]: the running system, driven by events.
//! - [`laws`]: what holds of every state the system can reach.

pub mod app;
pub mod context;
pub mod laws;
pub mod mask;
pub mod ready;
pub mod system;
pub mod timer;

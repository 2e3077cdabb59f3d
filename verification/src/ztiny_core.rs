//! Shared numeric abstractions for the `ztiny` emulator framework.
pub mod numeric;

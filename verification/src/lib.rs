//! ISO 8583 message codec: dialect description, bitmap engine, field parsing
//! and assembly, length-indicator framing, and the payment-crypto helpers
//! (PIN blocks and ISO 9797-1 MACs) that fields 52 and 64/128 carry.

pub mod crypto;
pub mod hexcodec;
pub mod iso8583;
mod text;

//! Client-side engine of the ColourSpace Link colorimeter protocol: wire
//! framing, the outbound command codec, the inbound measurement parser and
//! the decisions of the receiving and sending loops.

pub mod color;
pub mod text;
pub mod number;
pub mod literal;
pub mod xml;
pub mod shape;
pub mod builder;
pub mod parser;
pub mod frame;
pub mod command;
pub mod worker;
pub mod connect;
pub mod startup;

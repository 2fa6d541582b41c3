//! A bidirectional codec for a small, fixed repertoire of x86-64 machine
//! instructions: raw bytes decode into a structured instruction value, and
//! that value re-encodes into exactly the original byte sequence.

pub mod encoder;
pub mod inst;
pub mod reg;
pub mod stream;

pub use encoder::Encoder;
pub use inst::Arg;
pub use inst::Inst;
pub use reg::Reg;
pub use stream::InstIter;
pub use stream::WithIp;

//! A fixed, 22-opcode, 16-bit word-addressed virtual instruction set:
//! an execution engine that runs binary program images, a suspend/resume
//! snapshot protocol, a byte-oriented I/O channel with a numeric-override
//! escape sequence, and a static disassembler that recovers instruction
//! boundaries and classifies call sites.

pub mod channel;
pub mod executable;
pub mod image;
pub mod isa;
pub mod machine;
pub mod snapshot;

//! S-expressions: a value model, a printer, a parser and the decoding rules
//! used to map parsed values onto typed data.

pub mod decode;
pub mod error;
pub mod laws;
pub mod reader;
pub mod sexp;
pub mod text;
pub mod writer;

pub use error::Error;
pub use reader::{from_string, Reader};
pub use sexp::{Sexp, SexpView};
pub use writer::{to_string, Writer};


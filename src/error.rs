use vstd::prelude::*;

verus! {

#[verifier::external_type_specification]
#[verifier::external_body]
pub struct ExIoError(std::io::Error);

/// What can go wrong while reading, writing or decoding an s-expression.
#[derive(Debug)]
pub enum Error {
    /// The requested target shape is not supported by the decoder.
    NotImplemented,
    /// A value is present but does not have the shape or content asked for.
    InvalidType,
    /// The source or sink failed, or the input ended too early.
    IO(std::io::Error),
    /// Any other failure.
    Message(String),
}

impl Error {
    /// A short description of the error kind.
    pub fn description(&self) -> (r: String)
        ensures
            self is NotImplemented ==> r@ == "not implemented"@,
            self is InvalidType ==> r@ == "invalid type"@,
            self is IO ==> r@ == "input/output error"@,
            self is Message ==> r@ == self->Message_0@,
    {
        match self {
            Error::NotImplemented => "not implemented".to_owned(),
            Error::InvalidType => "invalid type".to_owned(),
            Error::IO(_) => "input/output error".to_owned(),
            Error::Message(m) => m.clone(),
        }
    }
}

} // verus!

//! Inputs and outputs of the multiplexer, over sockets of any kind.
use vstd::prelude::*;

verus! {

/// A socket to listen on, with its priority and the messages it takes.
pub struct Input<S> {
    pub socket: S,
    pub priority: u16,
    pub protobuf: String,
}

impl<S> Input<S> {
    pub fn socket(&self) -> (r: &S)
        ensures
            *r == self.socket,
    {
        &self.socket
    }

    pub fn priority(&self) -> (r: u16)
        ensures
            r == self.priority,
    {
        self.priority
    }

    pub fn protobuf(&self) -> (r: &str)
        ensures
            r@ == self.protobuf@,
    {
        self.protobuf.as_str()
    }
}

/// A socket to send to, with the messages it carries.
pub struct Output<S> {
    pub socket: S,
    pub protobuf: String,
}

impl<S> Output<S> {
    pub fn socket(&self) -> (r: &S)
        ensures
            *r == self.socket,
    {
        &self.socket
    }

    pub fn protobuf(&self) -> (r: &str)
        ensures
            r@ == self.protobuf@,
    {
        self.protobuf.as_str()
    }
}

} // verus!

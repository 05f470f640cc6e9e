use vstd::prelude::*;

pub mod code;

verus! {

/// An error answered to a client: a numeric code and a readable message.
#[derive(Debug)]
pub struct SocketError {
    pub code: u32,
    pub message: String,
}

/// The mathematical value of a [`SocketError`].
pub struct SocketErrorView {
    pub code: u32,
    pub message: Seq<char>,
}

impl View for SocketError {
    type V = SocketErrorView;

    open spec fn view(&self) -> SocketErrorView {
        SocketErrorView { code: self.code, message: self.message@ }
    }
}

} // verus!

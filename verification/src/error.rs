//! The error taxonomy shared by the session protocol and the storage
//! backends: startup failures, per-connection failures, and per-operation
//! storage failures.

use vstd::prelude::*;

verus! {

/// Everything that can go wrong in the diary service.
#[derive(Debug)]
pub enum Error {
    /// The logger could not be initialized at startup.
    LoggerInit,
    /// The storage could not be set up at startup (directory creation or
    /// schema creation failed).
    Init(&'static str),
    /// A TCP connection could not be accepted.
    TcpConnection,
    /// A TCP connection could not be upgraded to the message protocol.
    Upgrade,
    /// A message could not be read from an open connection.
    ReadMessage,
    /// An entry could not be stored into the diary sink.
    Storing(&'static str),
}

/// The fixed prefix of each error message.
pub open spec fn message_prefix(e: Error) -> Seq<char> {
    match e {
        Error::LoggerInit => "could not initialize logger"@,
        Error::Init(_) => "could not initialize storage: "@,
        Error::TcpConnection => "could not accept TCP connection"@,
        Error::Upgrade => "could not upgrade TCP connection to websocket"@,
        Error::ReadMessage => "could not read message from connection"@,
        Error::Storing(_) => "could not store content: "@,
    }
}

/// The detail carried by the variant, empty where it carries none.
pub open spec fn message_detail(e: Error) -> Seq<char> {
    match e {
        Error::Init(msg) => msg@,
        Error::Storing(msg) => msg@,
        _ => Seq::<char>::empty(),
    }
}

impl Error {
    /// A human-readable description: the variant's fixed prefix followed
    /// by its detail, if it carries one.
    pub fn message(&self) -> (r: String)
        ensures
            r@ == message_prefix(*self) + message_detail(*self),
    {
        let r: String = match self {
            Error::LoggerInit => "could not initialize logger".to_owned(),
            Error::Init(msg) => {
                let mut s = "could not initialize storage: ".to_owned();
                s.append(msg);
                s
            },
            Error::TcpConnection => "could not accept TCP connection".to_owned(),
            Error::Upgrade => "could not upgrade TCP connection to websocket".to_owned(),
            Error::ReadMessage => "could not read message from connection".to_owned(),
            Error::Storing(msg) => {
                let mut s = "could not store content: ".to_owned();
                s.append(msg);
                s
            },
        };
        proof {
            assert(r@ =~= message_prefix(*self) + message_detail(*self));
        }
        r
    }
}

} // verus!

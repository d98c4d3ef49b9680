//! The typed command envelope: requests carry a command, a resource selector
//! and an optional payload; responses echo the command and resource and add a
//! status. Payload strings are byte vectors (the wire carries UTF-8 bytes);
//! the `Real` variant carries the bit pattern of an IEEE-754 binary64 value,
//! so that no floating-point type appears in the verified library.

use vstd::prelude::*;

verus! {

/// The two commands a client may issue.
#[derive(Clone, Copy, PartialEq, Eq, Structural, Debug)]
pub enum CommandType {
    SetOp,
    GetOp,
}

/// Power-control operations.
#[derive(Clone, Copy, PartialEq, Eq, Structural, Debug)]
pub enum PowerType {
    Shutdown,
    Reboot,
}

/// System-information queries.
#[derive(Clone, Copy, PartialEq, Eq, Structural, Debug)]
pub enum SysInfoType {
    Arch,
    Os,
    OsRelease,
    CpuNum,
    CpuSpeed,
    StorageTotal,
    StorageFree,
    Uptime,
    Temperature,
    BootTime,
    OsInfo,
    CpuInfo,
    DiskInfo,
}

/// Outcome reported to the client.
#[derive(Clone, Copy, PartialEq, Eq, Structural, Debug)]
pub enum ResponseStatus {
    Okay,
    Fail,
}

/// Which capability domain a request targets, and the operation within it.
/// A request whose resource is absent targets no domain at all.
#[derive(Clone, Copy, PartialEq, Eq, Structural, Debug)]
pub enum Resource {
    Power(PowerType),
    SysInfo(SysInfoType),
}

/// The tagged payload union. `Real` holds the bits of a binary64 value;
/// `Str` holds UTF-8 bytes.
#[derive(Clone, PartialEq, Eq, Debug)]
pub enum Payload {
    Bool(bool),
    Uint(u64),
    Real(u64),
    Str(Vec<u8>),
}

/// Mathematical model of a payload: as `Payload`, with the byte vector
/// abstracted to a sequence.
pub enum PayloadS {
    Bool(bool),
    Uint(u64),
    Real(u64),
    Str(Seq<u8>),
}

impl View for Payload {
    type V = PayloadS;

    open spec fn view(&self) -> PayloadS {
        match self {
            Payload::Bool(b) => PayloadS::Bool(*b),
            Payload::Uint(n) => PayloadS::Uint(*n),
            Payload::Real(bits) => PayloadS::Real(*bits),
            Payload::Str(s) => PayloadS::Str(s@),
        }
    }
}

/// A decoded request. Immutable once received.
#[derive(Clone, PartialEq, Eq, Debug)]
pub struct Request {
    pub command: CommandType,
    pub resource: Option<Resource>,
    pub payload: Option<Payload>,
}

/// Mathematical model of a request.
pub struct RequestS {
    pub command: CommandType,
    pub resource: Option<Resource>,
    pub payload: Option<PayloadS>,
}

impl View for Request {
    type V = RequestS;

    open spec fn view(&self) -> RequestS {
        RequestS {
            command: self.command,
            resource: self.resource,
            payload: match self.payload {
                Option::Some(p) => Option::Some(p@),
                Option::None => Option::None,
            },
        }
    }
}

/// A reply. `command` and `resource` always echo the request they answer.
#[derive(Clone, PartialEq, Eq, Debug)]
pub struct Response {
    pub command: CommandType,
    pub resource: Option<Resource>,
    pub status: ResponseStatus,
    pub payload: Option<Payload>,
}

/// Mathematical model of a response.
pub struct ResponseS {
    pub command: CommandType,
    pub resource: Option<Resource>,
    pub status: ResponseStatus,
    pub payload: Option<PayloadS>,
}

impl View for Response {
    type V = ResponseS;

    open spec fn view(&self) -> ResponseS {
        ResponseS {
            command: self.command,
            resource: self.resource,
            status: self.status,
            payload: match self.payload {
                Option::Some(p) => Option::Some(p@),
                Option::None => Option::None,
            },
        }
    }
}

} // verus!

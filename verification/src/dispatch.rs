//! The dispatch engine: maps one decoded request to at most one capability
//! call and builds the typed reply.
//!
//! The mapping is split in three.  `plan` decides, from the request alone,
//! which capability is called (a SET on a power resource proceeds only on a
//! boolean `true` payload; a GET on a system-information resource always
//! proceeds; everything else calls nothing).  `execute` performs the planned
//! call and reports a `CapOutcome`.  `build_response` turns request and
//! outcome into the reply: `Okay` with the value's payload on success, `Fail`
//! with the error text on failure, `Fail` with "Not supported" when the
//! request names no resource domain, and bare `Fail` when a request is
//! structurally valid but asks nothing (the silent no-op policy).

use vstd::prelude::*;

use crate::hal;
use crate::hal::HostInfo;
use crate::hal::HostInfoS;
use crate::protocol::CommandType;
use crate::protocol::Payload;
use crate::protocol::PayloadS;
use crate::protocol::PowerType;
use crate::protocol::Request;
use crate::protocol::RequestS;
use crate::protocol::Resource;
use crate::protocol::Response;
use crate::protocol::ResponseS;
use crate::protocol::ResponseStatus;
use crate::protocol::SysInfoType;
use crate::text::not_supported_text;
use crate::text::spec_not_supported_text;

verus! {

/// The one capability call a request can lead to.
#[derive(Clone, Copy, PartialEq, Eq, Structural, Debug)]
pub enum CapCall {
    Power(PowerType),
    Info(SysInfoType),
}

/// What became of the planned capability call: none was planned, one
/// succeeded with the payload to send back, or one failed with an error
/// text.
#[derive(PartialEq, Eq, Debug)]
pub enum CapOutcome {
    Skipped,
    Done(Option<Payload>),
    Failed(Vec<u8>),
}

/// Mathematical model of an outcome.
pub enum CapOutcomeS {
    Skipped,
    Done(Option<PayloadS>),
    Failed(Seq<u8>),
}

impl View for CapOutcome {
    type V = CapOutcomeS;

    open spec fn view(&self) -> CapOutcomeS {
        match self {
            CapOutcome::Skipped => CapOutcomeS::Skipped,
            CapOutcome::Done(p) => CapOutcomeS::Done(
                match p {
                    Option::Some(q) => Option::Some(q@),
                    Option::None => Option::None,
                },
            ),
            CapOutcome::Failed(e) => CapOutcomeS::Failed(e@),
        }
    }
}

/// Which capability a request calls: exactly one, or none.
pub open spec fn spec_plan(m: RequestS) -> Option<CapCall> {
    match (m.command, m.resource) {
        (CommandType::SetOp, Option::Some(Resource::Power(p))) => if m.payload
            == Option::Some(PayloadS::Bool(true)) {
            Option::Some(CapCall::Power(p))
        } else {
            Option::None
        },
        (CommandType::GetOp, Option::Some(Resource::SysInfo(k))) => Option::Some(CapCall::Info(k)),
        _ => Option::None,
    }
}

/// The payload variant a successful call of `c` reports: power operations
/// carry nothing, textual queries a string, counters an unsigned integer,
/// the temperature a binary64 measurement.
pub open spec fn expected_payload_shape(c: CapCall, p: Option<PayloadS>) -> bool {
    match c {
        CapCall::Power(_) => p is None,
        CapCall::Info(k) => match k {
            SysInfoType::CpuNum | SysInfoType::CpuSpeed | SysInfoType::StorageTotal
                | SysInfoType::StorageFree => p matches Option::Some(PayloadS::Uint(_)),
            SysInfoType::Temperature => p matches Option::Some(PayloadS::Real(_)),
            _ => p matches Option::Some(PayloadS::Str(_)),
        },
    }
}

/// What `execute` promises of its outcome: no call is skipped exactly when
/// none is planned, and a successful call reports the payload variant of its
/// capability.  The architecture and operating-system queries involve no
/// outside call at all — their answer is the host-supplied name — so for
/// them success is owed: the outcome is exactly that value.
pub open spec fn outcome_wf(host: HostInfoS, m: RequestS, o: CapOutcomeS) -> bool {
    match spec_plan(m) {
        Option::None => o is Skipped,
        Option::Some(c) => !(o is Skipped) && (match o {
            CapOutcomeS::Done(p) => expected_payload_shape(c, p),
            _ => true,
        }) && (c == CapCall::Info(SysInfoType::Arch) ==> o == CapOutcomeS::Done(
            Option::Some(PayloadS::Str(host.arch)),
        )) && (c == CapCall::Info(SysInfoType::Os) ==> o == CapOutcomeS::Done(
            Option::Some(PayloadS::Str(host.os)),
        )),
    }
}

/// The reply for a request whose capability call ended as `o`: command and
/// resource echo the request; the status is `Okay` exactly on a completed
/// call; the payload is the call's value, the error text, or "Not
/// supported" when the request names no resource domain.
pub open spec fn spec_response(m: RequestS, o: CapOutcomeS) -> ResponseS {
    ResponseS {
        command: m.command,
        resource: m.resource,
        status: match o {
            CapOutcomeS::Done(_) => ResponseStatus::Okay,
            _ => ResponseStatus::Fail,
        },
        payload: match o {
            CapOutcomeS::Skipped => if m.resource is None {
                Option::Some(PayloadS::Str(spec_not_supported_text()))
            } else {
                Option::None
            },
            CapOutcomeS::Done(p) => p,
            CapOutcomeS::Failed(e) => Option::Some(PayloadS::Str(e)),
        },
    }
}

/// Decides which capability the request calls.
pub fn plan(m: &Request) -> (r: Option<CapCall>)
    ensures
        r == spec_plan(m@),
{
    match (&m.command, &m.resource) {
        (CommandType::SetOp, Option::Some(Resource::Power(p))) => {
            let wants = match &m.payload {
                Option::Some(Payload::Bool(b)) => *b,
                _ => false,
            };
            if wants {
                Option::Some(CapCall::Power(*p))
            } else {
                Option::None
            }
        },
        (CommandType::GetOp, Option::Some(Resource::SysInfo(k))) => Option::Some(
            CapCall::Info(*k),
        ),
        _ => Option::None,
    }
}

/// Performs the planned capability call, if any.
pub fn execute(m: &Request, host: &HostInfo) -> (o: CapOutcome)
    ensures
        outcome_wf(host@, m@, o@),
{
    match plan(m) {
        Option::None => CapOutcome::Skipped,
        Option::Some(CapCall::Power(p)) => {
            let done = match p {
                PowerType::Shutdown => hal::shutdown(),
                PowerType::Reboot => hal::reboot(),
            };
            match done {
                Result::Ok(()) => CapOutcome::Done(Option::None),
                Result::Err(e) => CapOutcome::Failed(e),
            }
        },
        Option::Some(CapCall::Info(k)) => execute_info(k, host),
    }
}

/// Performs one system-information query.
fn execute_info(k: SysInfoType, host: &HostInfo) -> (o: CapOutcome)
    ensures
        !(o@ is Skipped),
        o@ matches CapOutcomeS::Done(p) ==> expected_payload_shape(CapCall::Info(k), p),
        k == SysInfoType::Arch ==> o@ == CapOutcomeS::Done(
            Option::Some(PayloadS::Str(host@.arch)),
        ),
        k == SysInfoType::Os ==> o@ == CapOutcomeS::Done(Option::Some(PayloadS::Str(host@.os))),
{
    match k {
        SysInfoType::Arch => CapOutcome::Done(
            Option::Some(Payload::Str(hal::get_arch(host))),
        ),
        SysInfoType::Os => CapOutcome::Done(Option::Some(Payload::Str(hal::get_os(host)))),
        SysInfoType::OsRelease => match hal::get_os_release() {
            Result::Ok(v) => CapOutcome::Done(Option::Some(Payload::Str(v))),
            Result::Err(e) => CapOutcome::Failed(e),
        },
        SysInfoType::CpuNum => match hal::get_cpu_num() {
            Result::Ok(n) => CapOutcome::Done(Option::Some(Payload::Uint(n as u64))),
            Result::Err(e) => CapOutcome::Failed(e),
        },
        SysInfoType::CpuSpeed => match hal::get_cpu_speed() {
            Result::Ok(n) => CapOutcome::Done(Option::Some(Payload::Uint(n))),
            Result::Err(e) => CapOutcome::Failed(e),
        },
        SysInfoType::StorageTotal => match hal::get_storage_total() {
            Result::Ok(n) => CapOutcome::Done(Option::Some(Payload::Uint(n))),
            Result::Err(e) => CapOutcome::Failed(e),
        },
        SysInfoType::StorageFree => match hal::get_storage_free() {
            Result::Ok(n) => CapOutcome::Done(Option::Some(Payload::Uint(n))),
            Result::Err(e) => CapOutcome::Failed(e),
        },
        SysInfoType::Uptime => match hal::get_uptime() {
            Result::Ok(v) => CapOutcome::Done(Option::Some(Payload::Str(v))),
            Result::Err(e) => CapOutcome::Failed(e),
        },
        SysInfoType::Temperature => match hal::get_temperature() {
            Result::Ok(bits) => CapOutcome::Done(Option::Some(Payload::Real(bits))),
            Result::Err(e) => CapOutcome::Failed(e),
        },
        SysInfoType::BootTime => match hal::get_boot_time() {
            Result::Ok(v) => CapOutcome::Done(Option::Some(Payload::Str(v))),
            Result::Err(e) => CapOutcome::Failed(e),
        },
        SysInfoType::OsInfo => match hal::get_os_info() {
            Result::Ok(v) => CapOutcome::Done(Option::Some(Payload::Str(v))),
            Result::Err(e) => CapOutcome::Failed(e),
        },
        SysInfoType::CpuInfo => match hal::get_cpu_info() {
            Result::Ok(v) => CapOutcome::Done(Option::Some(Payload::Str(v))),
            Result::Err(e) => CapOutcome::Failed(e),
        },
        SysInfoType::DiskInfo => match hal::get_disk_info() {
            Result::Ok(v) => CapOutcome::Done(Option::Some(Payload::Str(v))),
            Result::Err(e) => CapOutcome::Failed(e),
        },
    }
}

/// Builds the reply for `m` whose capability call ended as `o`.
pub fn build_response(m: &Request, o: CapOutcome) -> (r: Response)
    ensures
        r@ == spec_response(m@, o@),
{
    let status = match &o {
        CapOutcome::Done(_) => ResponseStatus::Okay,
        _ => ResponseStatus::Fail,
    };
    let payload = match o {
        CapOutcome::Skipped => match &m.resource {
            Option::None => Option::Some(Payload::Str(not_supported_text())),
            Option::Some(_) => Option::None,
        },
        CapOutcome::Done(p) => p,
        CapOutcome::Failed(e) => Option::Some(Payload::Str(e)),
    };
    Response { command: m.command, resource: m.resource, status, payload }
}

/// Every reply echoes its request: same command, same resource tag and
/// sub-type, whatever the outcome.
pub proof fn lemma_response_echoes(m: RequestS, o: CapOutcomeS)
    ensures
        spec_response(m, o).command == m.command,
        spec_response(m, o).resource == m.resource,
{
}

/// A successful system-information call answers `Okay` with the payload
/// variant of its sub-type: a string for textual info, an unsigned integer
/// for counters, a binary64 measurement for the temperature.
pub proof fn lemma_sysinfo_payload_shape(host: HostInfoS, m: RequestS, o: CapOutcomeS, k: SysInfoType)
    requires
        m.command == CommandType::GetOp,
        m.resource == Option::Some(Resource::SysInfo(k)),
        outcome_wf(host, m, o),
        o is Done,
    ensures
        spec_response(m, o).status == ResponseStatus::Okay,
        expected_payload_shape(CapCall::Info(k), spec_response(m, o).payload),
{
}

/// A request that names no resource domain fails with the payload
/// "Not supported", and calls no capability.
pub proof fn lemma_unsupported_resource(host: HostInfoS, m: RequestS, o: CapOutcomeS)
    requires
        m.resource is None,
        outcome_wf(host, m, o),
    ensures
        o is Skipped,
        spec_response(m, o).status == ResponseStatus::Fail,
        spec_response(m, o).payload == Option::Some(PayloadS::Str(spec_not_supported_text())),
{
}

/// A SET on a power resource whose payload is not the boolean `true` calls
/// no capability and fails with no payload: the silent no-op policy.
pub proof fn lemma_power_noop(host: HostInfoS, m: RequestS, o: CapOutcomeS, p: PowerType)
    requires
        m.command == CommandType::SetOp,
        m.resource == Option::Some(Resource::Power(p)),
        m.payload != Option::Some(PayloadS::Bool(true)),
        outcome_wf(host, m, o),
    ensures
        o is Skipped,
        spec_response(m, o).status == ResponseStatus::Fail,
        spec_response(m, o).payload is None,
{
}

/// The architecture and operating-system queries never fail: their reply is
/// `Okay` carrying exactly the host-supplied name.
pub proof fn lemma_host_identity_reply(host: HostInfoS, m: RequestS, o: CapOutcomeS, k: SysInfoType)
    requires
        m.command == CommandType::GetOp,
        m.resource == Option::Some(Resource::SysInfo(k)),
        k == SysInfoType::Arch || k == SysInfoType::Os,
        outcome_wf(host, m, o),
    ensures
        spec_response(m, o).status == ResponseStatus::Okay,
        spec_response(m, o).payload == Option::Some(
            PayloadS::Str(if k == SysInfoType::Arch { host.arch } else { host.os }),
        ),
{
}

/// A SET on a power resource with the boolean `true` payload answers `Okay`
/// with no payload when the capability call succeeded, and `Fail` carrying
/// the error text when it failed.
pub proof fn lemma_power_result(host: HostInfoS, m: RequestS, o: CapOutcomeS, p: PowerType)
    requires
        m.command == CommandType::SetOp,
        m.resource == Option::Some(Resource::Power(p)),
        m.payload == Option::Some(PayloadS::Bool(true)),
        outcome_wf(host, m, o),
    ensures
        o matches CapOutcomeS::Done(q) ==> spec_response(m, o).status == ResponseStatus::Okay
            && spec_response(m, o).payload is None,
        o matches CapOutcomeS::Failed(e) ==> spec_response(m, o).status == ResponseStatus::Fail
            && spec_response(m, o).payload == Option::Some(PayloadS::Str(e)),
{
    assert(spec_plan(m) == Option::Some(CapCall::Power(p)));
}

} // verus!

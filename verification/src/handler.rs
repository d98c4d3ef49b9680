//! The top of one dispatch: a request frame in, a reply frame out.

use vstd::prelude::*;

use crate::dispatch::build_response;
use crate::dispatch::execute;
use crate::dispatch::outcome_wf;
use crate::dispatch::spec_plan;
use crate::dispatch::spec_response;
use crate::dispatch::CapCall;
use crate::dispatch::CapOutcomeS;
use crate::hal::HostInfo;
use crate::hal::HostInfoS;
use crate::protocol::CommandType;
use crate::protocol::Payload;
use crate::protocol::PayloadS;
use crate::protocol::RequestS;
use crate::protocol::Response;
use crate::protocol::ResponseS;
use crate::protocol::Resource;
use crate::protocol::ResponseStatus;
use crate::protocol::SysInfoType;
use crate::text::spec_wire_error_text;
use crate::text::wire_error_text;
use crate::wire::decode_request;
use crate::wire::encode_response;
use crate::wire::lemma_response_round_trip;
use crate::wire::response_wf;
use crate::wire::spec_decode_request;
use crate::wire::spec_decode_response;
use crate::wire::spec_encode_response;
use crate::wire::WireError;

verus! {

/// The reply to a frame that could not be decoded: the default command, no
/// resource, `Fail`, and the decoder's reason as payload.
pub open spec fn spec_decode_failure(e: WireError) -> ResponseS {
    ResponseS {
        command: CommandType::SetOp,
        resource: Option::None,
        status: ResponseStatus::Fail,
        payload: Option::Some(PayloadS::Str(spec_wire_error_text(e))),
    }
}

/// What the reply frame for the request frame `input` is, on a host whose
/// identity is `host`: the encoded decode-failure reply when `input` does
/// not decode, else the encoded reply for the decoded request under some
/// outcome that is well-formed for that host — which pins the reply exactly
/// for the queries no outside call decides.
pub open spec fn reply_frame_ok(host: HostInfoS, input: Seq<u8>, output: Seq<u8>) -> bool {
    match spec_decode_request(input) {
        Result::Err(e) => output == spec_encode_response(spec_decode_failure(e)),
        Result::Ok(m) => exists|o: CapOutcomeS|
            outcome_wf(host, m, o) && response_wf(spec_response(m, o)) && output
                == spec_encode_response(spec_response(m, o)),
    }
}

/// One full dispatch: decode the request frame, run the capability call it
/// plans, encode the reply.  A frame that does not decode is answered with a
/// `Fail` reply carrying the decoder's reason — never with a crash.
pub fn handle_request(input: &Vec<u8>, host: &HostInfo) -> (r: Vec<u8>)
    ensures
        reply_frame_ok(host@, input@, r@),
{
    match decode_request(input) {
        Result::Err(e) => {
            let resp = Response {
                command: CommandType::SetOp,
                resource: Option::None,
                status: ResponseStatus::Fail,
                payload: Option::Some(Payload::Str(wire_error_text(e))),
            };
            let out = encode_response(&resp);
            proof {
                assert(resp@ == spec_decode_failure(e));
            }
            out
        },
        Result::Ok(req) => {
            let o = execute(&req, host);
            let ghost og = o@;
            let resp = build_response(&req, o);
            let out = encode_response(&resp);
            proof {
                broadcast use vstd::std_specs::vec::axiom_spec_len;

                match &resp.payload {
                    Option::Some(Payload::Str(v)) => {
                        assert(vstd::std_specs::vec::spec_vec_len(v) == v@.len());
                    },
                    _ => {},
                }
                assert(response_wf(resp@));
                assert(outcome_wf(host@, req@, og) && response_wf(spec_response(req@, og)) && out@
                    == spec_encode_response(spec_response(req@, og)));
            }
            out
        },
    }
}

/// Every reply to a frame that decodes as a request echoes that request:
/// the reply decodes, and its command and resource are the request's own,
/// whether the request was served, refused, or asked nothing.
pub proof fn lemma_reply_echoes_request(host: HostInfoS, input: Seq<u8>, output: Seq<u8>, m: RequestS)
    requires
        spec_decode_request(input) == Result::Ok::<RequestS, WireError>(m),
        reply_frame_ok(host, input, output),
    ensures
        spec_decode_response(output) matches Result::Ok(resp) && resp.command == m.command
            && resp.resource == m.resource,
{
    let o = choose|o: CapOutcomeS|
        outcome_wf(host, m, o) && response_wf(spec_response(m, o)) && output
            == spec_encode_response(spec_response(m, o));
    lemma_response_round_trip(spec_response(m, o));
}

/// For the queries no outside call decides, the reply frame is not merely
/// shaped but fixed: a frame decoding to a GET of the architecture or
/// operating-system name is answered by exactly the encoding of the `Okay`
/// response that carries the host-supplied value.
pub proof fn lemma_host_query_reply_exact(
    host: HostInfoS,
    input: Seq<u8>,
    output: Seq<u8>,
    m: RequestS,
    k: SysInfoType,
)
    requires
        spec_decode_request(input) == Result::Ok::<RequestS, WireError>(m),
        m.command == CommandType::GetOp,
        m.resource == Option::Some(Resource::SysInfo(k)),
        k == SysInfoType::Arch || k == SysInfoType::Os,
        reply_frame_ok(host, input, output),
    ensures
        output == spec_encode_response(
            ResponseS {
                command: CommandType::GetOp,
                resource: m.resource,
                status: ResponseStatus::Okay,
                payload: Option::Some(
                    PayloadS::Str(
                        if k == SysInfoType::Arch {
                            host.arch
                        } else {
                            host.os
                        },
                    ),
                ),
            },
        ),
{
    let o = choose|o: CapOutcomeS|
        outcome_wf(host, m, o) && response_wf(spec_response(m, o)) && output
            == spec_encode_response(spec_response(m, o));
    assert(spec_plan(m) == Option::Some(CapCall::Info(k)));
}

/// A malformed frame is answered, not escalated: the decode-failure reply is
/// itself a well-formed frame that decodes back to a `Fail` response whose
/// payload describes the refusal.
pub proof fn lemma_decode_failure_reply_decodes(e: WireError)
    ensures
        spec_decode_response(spec_encode_response(spec_decode_failure(e)))
            == Result::Ok::<ResponseS, WireError>(spec_decode_failure(e)),
        spec_decode_failure(e).status == ResponseStatus::Fail,
        spec_decode_failure(e).payload == Option::Some(PayloadS::Str(spec_wire_error_text(e))),
{
    let m = spec_decode_failure(e);
    assert(response_wf(m)) by {
        match e {
            WireError::Truncated => {},
            WireError::NonCanonical => {},
            WireError::Overflow => {},
            WireError::UnknownTag => {},
            WireError::Trailing => {},
        }
    }
    lemma_response_round_trip(m);
}

} // verus!

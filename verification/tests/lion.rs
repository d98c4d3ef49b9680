use lion::dispatch::{build_response, execute, plan, CapCall, CapOutcome};
use lion::hal::{storage_free_of, storage_total_of, HostInfo};
use lion::handler::handle_request;
use lion::protocol::{
    CommandType, Payload, PowerType, Request, Resource, Response, ResponseStatus, SysInfoType,
};
use lion::realbits::widen_real_bits;
use lion::text::{cpu_info_text, disk_info_text, not_supported_text, u64_to_dec, uptime_text};
use lion::wire::{decode_request, decode_response, encode_request, encode_response, WireError};
use lion::worker::{worker_step, WorkerAction, WorkerEvent, WorkerState};

fn host() -> HostInfo {
    HostInfo {
        arch: b"x86_64".to_vec(),
        os: b"linux".to_vec(),
    }
}

fn get_request(kind: SysInfoType) -> Request {
    Request {
        command: CommandType::GetOp,
        resource: Some(Resource::SysInfo(kind)),
        payload: None,
    }
}

// ---------------------------------------------------------------------------
// Codec: exact frames and round trips.
// ---------------------------------------------------------------------------

#[test]
fn encode_request_exact_bytes() {
    let r = get_request(SysInfoType::CpuNum);
    assert_eq!(encode_request(&r), vec![1, 2, 3, 0]);

    let set = Request {
        command: CommandType::SetOp,
        resource: Some(Resource::Power(PowerType::Shutdown)),
        payload: Some(Payload::Bool(true)),
    };
    assert_eq!(encode_request(&set), vec![0, 1, 0, 1, 1]);

    let with_text = Request {
        command: CommandType::SetOp,
        resource: None,
        payload: Some(Payload::Str(b"hi".to_vec())),
    };
    assert_eq!(encode_request(&with_text), vec![0, 0, 4, 2, 104, 105]);
}

#[test]
fn encode_varint_exact_bytes() {
    let r = Request {
        command: CommandType::GetOp,
        resource: None,
        payload: Some(Payload::Uint(300)),
    };
    assert_eq!(encode_request(&r), vec![1, 0, 2, 172, 2]);
}

#[test]
fn encode_real_exact_bytes() {
    let r = Request {
        command: CommandType::GetOp,
        resource: None,
        payload: Some(Payload::Real(0x0102030405060708)),
    };
    assert_eq!(
        encode_request(&r),
        vec![1, 0, 3, 0x08, 0x07, 0x06, 0x05, 0x04, 0x03, 0x02, 0x01]
    );
}

#[test]
fn request_round_trips() {
    let cases = vec![
        Request { command: CommandType::SetOp, resource: None, payload: None },
        Request {
            command: CommandType::GetOp,
            resource: Some(Resource::SysInfo(SysInfoType::Temperature)),
            payload: Some(Payload::Real(f64::to_bits(-273.15))),
        },
        Request {
            command: CommandType::SetOp,
            resource: Some(Resource::Power(PowerType::Reboot)),
            payload: Some(Payload::Bool(false)),
        },
        Request {
            command: CommandType::GetOp,
            resource: Some(Resource::SysInfo(SysInfoType::DiskInfo)),
            payload: Some(Payload::Uint(u64::MAX)),
        },
        Request {
            command: CommandType::GetOp,
            resource: None,
            payload: Some(Payload::Str(b"a longer string payload \x00\xff".to_vec())),
        },
    ];
    for r in cases {
        let bytes = encode_request(&r);
        assert_eq!(decode_request(&bytes), Ok(r));
    }
}

#[test]
fn response_round_trips() {
    let cases = vec![
        Response {
            command: CommandType::GetOp,
            resource: Some(Resource::SysInfo(SysInfoType::CpuNum)),
            status: ResponseStatus::Okay,
            payload: Some(Payload::Uint(8)),
        },
        Response {
            command: CommandType::SetOp,
            resource: Some(Resource::Power(PowerType::Shutdown)),
            status: ResponseStatus::Fail,
            payload: Some(Payload::Str(b"permission denied".to_vec())),
        },
        Response {
            command: CommandType::SetOp,
            resource: None,
            status: ResponseStatus::Fail,
            payload: None,
        },
    ];
    for r in cases {
        let bytes = encode_response(&r);
        assert_eq!(decode_response(&bytes), Ok(r));
    }
}

#[test]
fn decode_rejects_empty() {
    assert_eq!(decode_request(&vec![]), Err(WireError::Truncated));
}

#[test]
fn decode_rejects_unknown_command() {
    assert_eq!(decode_request(&vec![5]), Err(WireError::UnknownTag));
}

#[test]
fn decode_rejects_missing_resource() {
    assert_eq!(decode_request(&vec![0]), Err(WireError::Truncated));
}

#[test]
fn decode_rejects_trailing_bytes() {
    assert_eq!(decode_request(&vec![0, 0, 0, 9]), Err(WireError::Trailing));
}

#[test]
fn decode_rejects_noncanonical_varint() {
    assert_eq!(
        decode_request(&vec![1, 0, 2, 0x80, 0x00]),
        Err(WireError::NonCanonical)
    );
}

#[test]
fn decode_rejects_varint_overflow() {
    let mut bytes = vec![1, 0, 2];
    bytes.extend(std::iter::repeat(0x80).take(9));
    bytes.push(0x02);
    assert_eq!(decode_request(&bytes), Err(WireError::Overflow));
}

#[test]
fn decode_rejects_bad_bool() {
    assert_eq!(
        decode_request(&vec![0, 1, 0, 1, 2]),
        Err(WireError::UnknownTag)
    );
}

#[test]
fn decode_rejects_short_string() {
    // announces 5 payload bytes, carries 2
    assert_eq!(
        decode_request(&vec![0, 0, 4, 5, 104, 105]),
        Err(WireError::Truncated)
    );
}

// ---------------------------------------------------------------------------
// Dispatch: echo, no-op policy, unsupported resource, power results.
// ---------------------------------------------------------------------------

#[test]
fn response_echoes_request() {
    let requests = vec![
        get_request(SysInfoType::Arch),
        Request {
            command: CommandType::SetOp,
            resource: Some(Resource::Power(PowerType::Reboot)),
            payload: Some(Payload::Bool(false)),
        },
        Request { command: CommandType::GetOp, resource: None, payload: None },
    ];
    for r in requests {
        let o = execute(&r, &host());
        let resp = build_response(&r, o);
        assert_eq!(resp.command, r.command);
        assert_eq!(resp.resource, r.resource);
    }
}

#[test]
fn unsupported_resource_fails_with_text() {
    let r = Request { command: CommandType::GetOp, resource: None, payload: None };
    let o = execute(&r, &host());
    assert_eq!(o, CapOutcome::Skipped);
    let resp = build_response(&r, o);
    assert_eq!(resp.status, ResponseStatus::Fail);
    assert_eq!(resp.payload, Some(Payload::Str(b"Not supported".to_vec())));
    assert_eq!(not_supported_text(), b"Not supported".to_vec());
}

#[test]
fn power_request_without_true_is_noop() {
    for payload in [None, Some(Payload::Bool(false)), Some(Payload::Uint(1))] {
        let r = Request {
            command: CommandType::SetOp,
            resource: Some(Resource::Power(PowerType::Shutdown)),
            payload,
        };
        assert_eq!(plan(&r), None);
        let o = execute(&r, &host());
        assert_eq!(o, CapOutcome::Skipped);
        let resp = build_response(&r, o);
        assert_eq!(resp.status, ResponseStatus::Fail);
        assert_eq!(resp.payload, None);
    }
}

#[test]
fn power_true_plans_the_call() {
    let r = Request {
        command: CommandType::SetOp,
        resource: Some(Resource::Power(PowerType::Shutdown)),
        payload: Some(Payload::Bool(true)),
    };
    assert_eq!(plan(&r), Some(CapCall::Power(PowerType::Shutdown)));
}

#[test]
fn shutdown_success_yields_okay_without_payload() {
    let r = Request {
        command: CommandType::SetOp,
        resource: Some(Resource::Power(PowerType::Shutdown)),
        payload: Some(Payload::Bool(true)),
    };
    let resp = build_response(&r, CapOutcome::Done(None));
    assert_eq!(resp.status, ResponseStatus::Okay);
    assert_eq!(resp.payload, None);
    assert_eq!(resp.command, r.command);
    assert_eq!(resp.resource, r.resource);
}

#[test]
fn shutdown_failure_yields_fail_with_error_text() {
    let r = Request {
        command: CommandType::SetOp,
        resource: Some(Resource::Power(PowerType::Shutdown)),
        payload: Some(Payload::Bool(true)),
    };
    let resp = build_response(&r, CapOutcome::Failed(b"permission denied".to_vec()));
    assert_eq!(resp.status, ResponseStatus::Fail);
    assert_eq!(resp.payload, Some(Payload::Str(b"permission denied".to_vec())));
}

#[test]
fn get_arch_answers_host_value() {
    let bytes = encode_request(&get_request(SysInfoType::Arch));
    let reply = handle_request(&bytes, &host());
    let resp = decode_response(&reply).unwrap();
    assert_eq!(resp.command, CommandType::GetOp);
    assert_eq!(resp.resource, Some(Resource::SysInfo(SysInfoType::Arch)));
    assert_eq!(resp.status, ResponseStatus::Okay);
    assert_eq!(resp.payload, Some(Payload::Str(b"x86_64".to_vec())));
}

#[test]
fn get_os_answers_host_value() {
    let bytes = encode_request(&get_request(SysInfoType::Os));
    let reply = handle_request(&bytes, &host());
    let resp = decode_response(&reply).unwrap();
    assert_eq!(resp.status, ResponseStatus::Okay);
    assert_eq!(resp.payload, Some(Payload::Str(b"linux".to_vec())));
}

#[test]
fn sysinfo_payload_variants_match_kind() {
    // Every kind answers; on success the payload variant is the kind's own,
    // on failure the payload is the error text.
    let kinds = [
        SysInfoType::Arch,
        SysInfoType::Os,
        SysInfoType::OsRelease,
        SysInfoType::CpuNum,
        SysInfoType::CpuSpeed,
        SysInfoType::StorageTotal,
        SysInfoType::StorageFree,
        SysInfoType::Uptime,
        SysInfoType::Temperature,
        SysInfoType::BootTime,
        SysInfoType::OsInfo,
        SysInfoType::CpuInfo,
        SysInfoType::DiskInfo,
    ];
    for kind in kinds {
        let bytes = encode_request(&get_request(kind));
        let reply = handle_request(&bytes, &host());
        let resp = decode_response(&reply).unwrap();
        assert_eq!(resp.resource, Some(Resource::SysInfo(kind)));
        match resp.status {
            ResponseStatus::Okay => match kind {
                SysInfoType::CpuNum
                | SysInfoType::CpuSpeed
                | SysInfoType::StorageTotal
                | SysInfoType::StorageFree => {
                    assert!(matches!(resp.payload, Some(Payload::Uint(_))), "{kind:?}")
                },
                SysInfoType::Temperature => {
                    assert!(matches!(resp.payload, Some(Payload::Real(_))), "{kind:?}")
                },
                _ => assert!(matches!(resp.payload, Some(Payload::Str(_))), "{kind:?}"),
            },
            ResponseStatus::Fail => {
                assert!(matches!(resp.payload, Some(Payload::Str(_))), "{kind:?}")
            },
        }
    }
}

// ---------------------------------------------------------------------------
// Malformed frames: answered, never fatal; the worker keeps going.
// ---------------------------------------------------------------------------

#[test]
fn malformed_frame_gets_fail_reply() {
    let reply = handle_request(&vec![0xff], &host());
    let resp = decode_response(&reply).unwrap();
    assert_eq!(resp.status, ResponseStatus::Fail);
    assert_eq!(resp.payload, Some(Payload::Str(b"unknown tag byte".to_vec())));
    assert_eq!(resp.resource, None);

    let reply = handle_request(&vec![], &host());
    let resp = decode_response(&reply).unwrap();
    assert_eq!(resp.status, ResponseStatus::Fail);
    assert_eq!(resp.payload, Some(Payload::Str(b"truncated message".to_vec())));
}

#[test]
fn worker_survives_malformed_request() {
    let h = host();
    let (state, action) = worker_step(
        WorkerState::AwaitIdentity,
        WorkerEvent::Frame(b"client-1".to_vec()),
        &h,
    );
    assert_eq!(action, WorkerAction::Receive);
    let (state, action) = worker_step(state, WorkerEvent::Frame(vec![0xff, 0xff]), &h);
    match action {
        WorkerAction::Reply(id, body) => {
            assert_eq!(id, b"client-1".to_vec());
            let resp = decode_response(&body).unwrap();
            assert_eq!(resp.status, ResponseStatus::Fail);
        },
        other => panic!("expected a reply, got {other:?}"),
    }
    // the worker is back to waiting and serves the next, valid, request
    let (state, action) = worker_step(state, WorkerEvent::Frame(b"client-2".to_vec()), &h);
    assert_eq!(action, WorkerAction::Receive);
    let good = encode_request(&get_request(SysInfoType::Arch));
    let (_, action) = worker_step(state, WorkerEvent::Frame(good), &h);
    match action {
        WorkerAction::Reply(id, body) => {
            assert_eq!(id, b"client-2".to_vec());
            let resp = decode_response(&body).unwrap();
            assert_eq!(resp.status, ResponseStatus::Okay);
        },
        other => panic!("expected a reply, got {other:?}"),
    }
}

// ---------------------------------------------------------------------------
// Concurrency shape: each reply carries its own identity; distinct workers
// answer their own requests.
// ---------------------------------------------------------------------------

#[test]
fn replies_match_their_own_requests() {
    let h = host();
    let lanes = [
        (b"w1".to_vec(), SysInfoType::Arch, Payload::Str(b"x86_64".to_vec())),
        (b"w2".to_vec(), SysInfoType::Os, Payload::Str(b"linux".to_vec())),
    ];
    let mut replies = Vec::new();
    for (identity, kind, _) in &lanes {
        let (state, _) =
            worker_step(WorkerState::AwaitIdentity, WorkerEvent::Frame(identity.clone()), &h);
        let frame = encode_request(&get_request(*kind));
        let (_, action) = worker_step(state, WorkerEvent::Frame(frame), &h);
        replies.push(action);
    }
    for ((identity, kind, expected), action) in lanes.iter().zip(replies) {
        match action {
            WorkerAction::Reply(id, body) => {
                assert_eq!(&id, identity);
                let resp = decode_response(&body).unwrap();
                assert_eq!(resp.resource, Some(Resource::SysInfo(*kind)));
                assert_eq!(resp.payload.as_ref(), Some(expected));
            },
            other => panic!("expected a reply, got {other:?}"),
        }
    }
}

// ---------------------------------------------------------------------------
// Shutdown signal: every state stops on transport teardown.
// ---------------------------------------------------------------------------

#[test]
fn teardown_stops_the_worker() {
    let h = host();
    let from_idle = worker_step(WorkerState::AwaitIdentity, WorkerEvent::Closed, &h);
    assert_eq!(from_idle, (WorkerState::Stopped, WorkerAction::Halt));
    let from_busy = worker_step(
        WorkerState::AwaitRequest(b"w1".to_vec()),
        WorkerEvent::Closed,
        &h,
    );
    assert_eq!(from_busy, (WorkerState::Stopped, WorkerAction::Halt));
    let stays = worker_step(WorkerState::Stopped, WorkerEvent::Frame(vec![1]), &h);
    assert_eq!(stays, (WorkerState::Stopped, WorkerAction::Halt));
}

#[test]
fn storage_projections_pick_their_field() {
    assert_eq!(storage_total_of((1048576, 524288)), 1048576);
    assert_eq!(storage_free_of((1048576, 524288)), 524288);
}

// ---------------------------------------------------------------------------
// Text formatting: exact values.
// ---------------------------------------------------------------------------

#[test]
fn decimal_rendering_exact() {
    assert_eq!(u64_to_dec(0), b"0".to_vec());
    assert_eq!(u64_to_dec(7), b"7".to_vec());
    assert_eq!(u64_to_dec(12345), b"12345".to_vec());
    assert_eq!(u64_to_dec(u64::MAX), b"18446744073709551615".to_vec());
}

#[test]
fn info_texts_exact() {
    assert_eq!(cpu_info_text(4, 2600), b"cpus=4 mhz=2600".to_vec());
    assert_eq!(
        disk_info_text(1048576, 524288),
        b"total_kb=1048576 free_kb=524288".to_vec()
    );
    assert_eq!(uptime_text(90), b"90s".to_vec());
}

// ---------------------------------------------------------------------------
// Binary32 -> binary64 widening matches the hardware conversion bit for bit.
// ---------------------------------------------------------------------------

#[test]
fn widening_matches_hardware() {
    let samples: Vec<f32> = vec![
        0.0,
        -0.0,
        1.0,
        -1.0,
        2.5,
        -3.75,
        36.6,
        f32::MAX,
        f32::MIN,
        f32::MIN_POSITIVE,
        1.0e-40,
        f32::from_bits(1),
        f32::INFINITY,
        f32::NEG_INFINITY,
        f32::NAN,
    ];
    for x in samples {
        assert_eq!(
            widen_real_bits(x.to_bits()),
            (x as f64).to_bits(),
            "widening {x} ({:#x})",
            x.to_bits()
        );
    }
}

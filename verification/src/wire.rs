//! The wire envelope codec.
//!
//! A request travels as one byte frame: a command byte, a resource group
//! (a tag byte, then the operation code when a domain is selected), and a
//! payload group (a tag byte, then the value).  A response carries a status
//! byte between its resource and payload groups.  Unsigned values are
//! LEB128 varints, binary64 bits are eight little-endian bytes, and strings
//! are a varint length followed by that many bytes.  Exactly one byte
//! sequence encodes each message: the decoder rejects non-canonical varints,
//! unknown tag bytes and trailing bytes, and reports why a frame was refused.
//!
//! The format is this crate's own canonical envelope; clients must speak it
//! through this codec — it is not the wire image of any schema compiler.

use vstd::prelude::*;

use vstd::arithmetic::div_mod::lemma_div_is_ordered;
use vstd::arithmetic::div_mod::lemma_fundamental_div_mod;
use vstd::arithmetic::mul::lemma_mul_inequality;

use crate::protocol::CommandType;
use crate::protocol::Payload;
use crate::protocol::PayloadS;
use crate::protocol::PowerType;
use crate::protocol::Request;
use crate::protocol::RequestS;
use crate::protocol::Resource;
use crate::protocol::Response;
use crate::protocol::ResponseS;
use crate::protocol::ResponseStatus;
use crate::protocol::SysInfoType;

verus! {

/// Why a byte frame was refused by the decoder.
#[derive(Clone, Copy, PartialEq, Eq, Structural, Debug)]
pub enum WireError {
    /// The frame ends before the announced content does.
    Truncated,
    /// A varint carries a zero continuation group.
    NonCanonical,
    /// A varint does not fit in 64 bits.
    Overflow,
    /// A tag or code byte matches no variant.
    UnknownTag,
    /// Bytes remain after the message ends.
    Trailing,
}

// ---------------------------------------------------------------------------
// Encoding, as mathematics: each spec function gives the one byte sequence
// that stands for a value.
// ---------------------------------------------------------------------------

/// LEB128: seven value bits per byte, low group first, high bit set on every
/// byte but the last.
pub open spec fn spec_varint(n: nat) -> Seq<u8>
    decreases n,
{
    if n < 128 {
        seq![n as u8]
    } else {
        seq![((n % 128) + 128) as u8] + spec_varint(n / 128)
    }
}

/// `count` little-endian base-256 digits of `n`.
pub open spec fn spec_le_bytes(n: nat, count: nat) -> Seq<u8>
    decreases count,
{
    if count == 0 {
        Seq::empty()
    } else {
        seq![(n % 256) as u8] + spec_le_bytes(n / 256, (count - 1) as nat)
    }
}

pub open spec fn pow256(c: nat) -> nat
    decreases c,
{
    if c == 0 {
        1
    } else {
        256 * pow256((c - 1) as nat)
    }
}

pub open spec fn spec_command_code(c: CommandType) -> u8 {
    match c {
        CommandType::SetOp => 0,
        CommandType::GetOp => 1,
    }
}

pub open spec fn spec_command_from(b: u8) -> Option<CommandType> {
    if b == 0 {
        Option::Some(CommandType::SetOp)
    } else if b == 1 {
        Option::Some(CommandType::GetOp)
    } else {
        Option::None
    }
}

pub open spec fn spec_power_code(p: PowerType) -> u8 {
    match p {
        PowerType::Shutdown => 0,
        PowerType::Reboot => 1,
    }
}

pub open spec fn spec_power_from(b: u8) -> Option<PowerType> {
    if b == 0 {
        Option::Some(PowerType::Shutdown)
    } else if b == 1 {
        Option::Some(PowerType::Reboot)
    } else {
        Option::None
    }
}

pub open spec fn spec_sysinfo_code(k: SysInfoType) -> u8 {
    match k {
        SysInfoType::Arch => 0,
        SysInfoType::Os => 1,
        SysInfoType::OsRelease => 2,
        SysInfoType::CpuNum => 3,
        SysInfoType::CpuSpeed => 4,
        SysInfoType::StorageTotal => 5,
        SysInfoType::StorageFree => 6,
        SysInfoType::Uptime => 7,
        SysInfoType::Temperature => 8,
        SysInfoType::BootTime => 9,
        SysInfoType::OsInfo => 10,
        SysInfoType::CpuInfo => 11,
        SysInfoType::DiskInfo => 12,
    }
}

pub open spec fn spec_sysinfo_from(b: u8) -> Option<SysInfoType> {
    if b == 0 {
        Option::Some(SysInfoType::Arch)
    } else if b == 1 {
        Option::Some(SysInfoType::Os)
    } else if b == 2 {
        Option::Some(SysInfoType::OsRelease)
    } else if b == 3 {
        Option::Some(SysInfoType::CpuNum)
    } else if b == 4 {
        Option::Some(SysInfoType::CpuSpeed)
    } else if b == 5 {
        Option::Some(SysInfoType::StorageTotal)
    } else if b == 6 {
        Option::Some(SysInfoType::StorageFree)
    } else if b == 7 {
        Option::Some(SysInfoType::Uptime)
    } else if b == 8 {
        Option::Some(SysInfoType::Temperature)
    } else if b == 9 {
        Option::Some(SysInfoType::BootTime)
    } else if b == 10 {
        Option::Some(SysInfoType::OsInfo)
    } else if b == 11 {
        Option::Some(SysInfoType::CpuInfo)
    } else if b == 12 {
        Option::Some(SysInfoType::DiskInfo)
    } else {
        Option::None
    }
}

pub open spec fn spec_status_code(s: ResponseStatus) -> u8 {
    match s {
        ResponseStatus::Okay => 0,
        ResponseStatus::Fail => 1,
    }
}

pub open spec fn spec_status_from(b: u8) -> Option<ResponseStatus> {
    if b == 0 {
        Option::Some(ResponseStatus::Okay)
    } else if b == 1 {
        Option::Some(ResponseStatus::Fail)
    } else {
        Option::None
    }
}

pub open spec fn spec_resource_bytes(r: Option<Resource>) -> Seq<u8> {
    match r {
        Option::None => seq![0u8],
        Option::Some(Resource::Power(p)) => seq![1u8, spec_power_code(p)],
        Option::Some(Resource::SysInfo(k)) => seq![2u8, spec_sysinfo_code(k)],
    }
}

pub open spec fn spec_payload_bytes(p: Option<PayloadS>) -> Seq<u8> {
    match p {
        Option::None => seq![0u8],
        Option::Some(PayloadS::Bool(b)) => seq![1u8, if b { 1u8 } else { 0u8 }],
        Option::Some(PayloadS::Uint(n)) => seq![2u8] + spec_varint(n as nat),
        Option::Some(PayloadS::Real(bits)) => seq![3u8] + spec_le_bytes(bits as nat, 8),
        Option::Some(PayloadS::Str(s)) => seq![4u8] + spec_varint(s.len()) + s,
    }
}

pub open spec fn spec_encode_request(m: RequestS) -> Seq<u8> {
    seq![spec_command_code(m.command)] + spec_resource_bytes(m.resource) + spec_payload_bytes(
        m.payload,
    )
}

pub open spec fn spec_encode_response(m: ResponseS) -> Seq<u8> {
    seq![spec_command_code(m.command)] + spec_resource_bytes(m.resource) + seq![
        spec_status_code(m.status),
    ] + spec_payload_bytes(m.payload)
}

// ---------------------------------------------------------------------------
// Decoding, as mathematics: each spec function reads one group at `pos` and
// yields the decoded value with the position after it, or the reason the
// group is invalid.
// ---------------------------------------------------------------------------

pub open spec fn sd_varint(s: Seq<u8>, pos: int) -> Result<(u64, int), WireError>
    decreases s.len() - pos,
{
    if pos < 0 || pos >= s.len() {
        Result::Err(WireError::Truncated)
    } else if s[pos] < 128 {
        Result::Ok((s[pos] as u64, pos + 1))
    } else {
        match sd_varint(s, pos + 1) {
            Result::Err(e) => Result::Err(e),
            Result::Ok((rest, end)) => if rest == 0 {
                Result::Err(WireError::NonCanonical)
            } else if (s[pos] - 128) + 128 * (rest as int) >= 0x1_0000_0000_0000_0000 {
                Result::Err(WireError::Overflow)
            } else {
                Result::Ok((((s[pos] - 128) + 128 * (rest as int)) as u64, end))
            },
        }
    }
}

/// Reads `count` little-endian base-256 digits; the value is returned as an
/// unbounded integer (it is below `pow256(count)`).
pub open spec fn sd_le(s: Seq<u8>, pos: int, count: nat) -> Result<(int, int), WireError>
    decreases count,
{
    if count == 0 {
        Result::Ok((0, pos))
    } else if pos < 0 || pos >= s.len() {
        Result::Err(WireError::Truncated)
    } else {
        match sd_le(s, pos + 1, (count - 1) as nat) {
            Result::Err(e) => Result::Err(e),
            Result::Ok((rest, end)) => Result::Ok((s[pos] + 256 * rest, end)),
        }
    }
}

pub open spec fn sd_command(s: Seq<u8>, pos: int) -> Result<(CommandType, int), WireError> {
    if pos < 0 || pos >= s.len() {
        Result::Err(WireError::Truncated)
    } else {
        match spec_command_from(s[pos]) {
            Option::Some(c) => Result::Ok((c, pos + 1)),
            Option::None => Result::Err(WireError::UnknownTag),
        }
    }
}

pub open spec fn sd_status(s: Seq<u8>, pos: int) -> Result<(ResponseStatus, int), WireError> {
    if pos < 0 || pos >= s.len() {
        Result::Err(WireError::Truncated)
    } else {
        match spec_status_from(s[pos]) {
            Option::Some(st) => Result::Ok((st, pos + 1)),
            Option::None => Result::Err(WireError::UnknownTag),
        }
    }
}

pub open spec fn sd_resource(s: Seq<u8>, pos: int) -> Result<(Option<Resource>, int), WireError> {
    if pos < 0 || pos >= s.len() {
        Result::Err(WireError::Truncated)
    } else if s[pos] == 0 {
        Result::Ok((Option::None, pos + 1))
    } else if s[pos] == 1 {
        if pos + 1 >= s.len() {
            Result::Err(WireError::Truncated)
        } else {
            match spec_power_from(s[pos + 1]) {
                Option::Some(p) => Result::Ok((Option::Some(Resource::Power(p)), pos + 2)),
                Option::None => Result::Err(WireError::UnknownTag),
            }
        }
    } else if s[pos] == 2 {
        if pos + 1 >= s.len() {
            Result::Err(WireError::Truncated)
        } else {
            match spec_sysinfo_from(s[pos + 1]) {
                Option::Some(k) => Result::Ok((Option::Some(Resource::SysInfo(k)), pos + 2)),
                Option::None => Result::Err(WireError::UnknownTag),
            }
        }
    } else {
        Result::Err(WireError::UnknownTag)
    }
}

pub open spec fn sd_payload(s: Seq<u8>, pos: int) -> Result<
    (Option<PayloadS>, int),
    WireError,
> {
    if pos < 0 || pos >= s.len() {
        Result::Err(WireError::Truncated)
    } else if s[pos] == 0 {
        Result::Ok((Option::None, pos + 1))
    } else if s[pos] == 1 {
        if pos + 1 >= s.len() {
            Result::Err(WireError::Truncated)
        } else if s[pos + 1] == 0 {
            Result::Ok((Option::Some(PayloadS::Bool(false)), pos + 2))
        } else if s[pos + 1] == 1 {
            Result::Ok((Option::Some(PayloadS::Bool(true)), pos + 2))
        } else {
            Result::Err(WireError::UnknownTag)
        }
    } else if s[pos] == 2 {
        match sd_varint(s, pos + 1) {
            Result::Err(e) => Result::Err(e),
            Result::Ok((n, end)) => Result::Ok((Option::Some(PayloadS::Uint(n)), end)),
        }
    } else if s[pos] == 3 {
        match sd_le(s, pos + 1, 8) {
            Result::Err(e) => Result::Err(e),
            Result::Ok((v, end)) => Result::Ok((Option::Some(PayloadS::Real(v as u64)), end)),
        }
    } else if s[pos] == 4 {
        match sd_varint(s, pos + 1) {
            Result::Err(e) => Result::Err(e),
            Result::Ok((len, end)) => if end + len > s.len() {
                Result::Err(WireError::Truncated)
            } else {
                Result::Ok(
                    (Option::Some(PayloadS::Str(s.subrange(end, end + len))), end + len),
                )
            },
        }
    } else {
        Result::Err(WireError::UnknownTag)
    }
}

pub open spec fn spec_decode_request(s: Seq<u8>) -> Result<RequestS, WireError> {
    match sd_command(s, 0) {
        Result::Err(e) => Result::Err(e),
        Result::Ok((command, p1)) => match sd_resource(s, p1) {
            Result::Err(e) => Result::Err(e),
            Result::Ok((resource, p2)) => match sd_payload(s, p2) {
                Result::Err(e) => Result::Err(e),
                Result::Ok((payload, p3)) => if p3 == s.len() {
                    Result::Ok(RequestS { command, resource, payload })
                } else {
                    Result::Err(WireError::Trailing)
                },
            },
        },
    }
}

pub open spec fn spec_decode_response(s: Seq<u8>) -> Result<ResponseS, WireError> {
    match sd_command(s, 0) {
        Result::Err(e) => Result::Err(e),
        Result::Ok((command, p1)) => match sd_resource(s, p1) {
            Result::Err(e) => Result::Err(e),
            Result::Ok((resource, p2)) => match sd_status(s, p2) {
                Result::Err(e) => Result::Err(e),
                Result::Ok((status, p3)) => match sd_payload(s, p3) {
                    Result::Err(e) => Result::Err(e),
                    Result::Ok((payload, p4)) => if p4 == s.len() {
                        Result::Ok(ResponseS { command, resource, status, payload })
                    } else {
                        Result::Err(WireError::Trailing)
                    },
                },
            },
        },
    }
}

// ---------------------------------------------------------------------------
// Executable encoders.
// ---------------------------------------------------------------------------

pub fn command_code(c: CommandType) -> (r: u8)
    ensures
        r == spec_command_code(c),
{
    match c {
        CommandType::SetOp => 0,
        CommandType::GetOp => 1,
    }
}

pub fn status_code(s: ResponseStatus) -> (r: u8)
    ensures
        r == spec_status_code(s),
{
    match s {
        ResponseStatus::Okay => 0,
        ResponseStatus::Fail => 1,
    }
}

pub fn power_code(p: PowerType) -> (r: u8)
    ensures
        r == spec_power_code(p),
{
    match p {
        PowerType::Shutdown => 0,
        PowerType::Reboot => 1,
    }
}

pub fn sysinfo_code(k: SysInfoType) -> (r: u8)
    ensures
        r == spec_sysinfo_code(k),
{
    match k {
        SysInfoType::Arch => 0,
        SysInfoType::Os => 1,
        SysInfoType::OsRelease => 2,
        SysInfoType::CpuNum => 3,
        SysInfoType::CpuSpeed => 4,
        SysInfoType::StorageTotal => 5,
        SysInfoType::StorageFree => 6,
        SysInfoType::Uptime => 7,
        SysInfoType::Temperature => 8,
        SysInfoType::BootTime => 9,
        SysInfoType::OsInfo => 10,
        SysInfoType::CpuInfo => 11,
        SysInfoType::DiskInfo => 12,
    }
}

fn push_varint(out: &mut Vec<u8>, n: u64)
    ensures
        final(out)@ == old(out)@ + spec_varint(n as nat),
    decreases n,
{
    if n < 128 {
        out.push(n as u8);
        assert(out@ =~= old(out)@ + spec_varint(n as nat));
    } else {
        out.push(((n % 128) + 128) as u8);
        push_varint(out, n / 128);
        assert(out@ =~= old(out)@ + spec_varint(n as nat));
    }
}

fn push_le_bytes(out: &mut Vec<u8>, n: u64, count: usize)
    ensures
        final(out)@ == old(out)@ + spec_le_bytes(n as nat, count as nat),
    decreases count,
{
    if count == 0 {
        assert(out@ =~= old(out)@ + spec_le_bytes(n as nat, 0));
    } else {
        out.push((n % 256) as u8);
        push_le_bytes(out, n / 256, count - 1);
        assert(out@ =~= old(out)@ + spec_le_bytes(n as nat, count as nat));
    }
}

fn push_resource(out: &mut Vec<u8>, r: &Option<Resource>)
    ensures
        final(out)@ == old(out)@ + spec_resource_bytes(*r),
{
    match r {
        Option::None => {
            out.push(0);
        },
        Option::Some(Resource::Power(p)) => {
            out.push(1);
            out.push(power_code(*p));
        },
        Option::Some(Resource::SysInfo(k)) => {
            out.push(2);
            out.push(sysinfo_code(*k));
        },
    }
    assert(out@ =~= old(out)@ + spec_resource_bytes(*r));
}

fn push_payload(out: &mut Vec<u8>, p: &Option<Payload>)
    ensures
        final(out)@ == old(out)@ + spec_payload_bytes(
            match *p {
                Option::Some(q) => Option::Some(q@),
                Option::None => Option::None,
            },
        ),
{
    match p {
        Option::None => {
            out.push(0);
        },
        Option::Some(Payload::Bool(b)) => {
            out.push(1);
            if *b {
                out.push(1);
            } else {
                out.push(0);
            }
        },
        Option::Some(Payload::Uint(n)) => {
            out.push(2);
            push_varint(out, *n);
        },
        Option::Some(Payload::Real(bits)) => {
            out.push(3);
            push_le_bytes(out, *bits, 8);
        },
        Option::Some(Payload::Str(s)) => {
            out.push(4);
            push_varint(out, s.len() as u64);
            let ghost mid = out@;
            let mut i: usize = 0;
            while i < s.len()
                invariant
                    i <= s.len(),
                    out@ == mid + s@.subrange(0, i as int),
                decreases s.len() - i,
            {
                out.push(s[i]);
                assert(out@ =~= mid + s@.subrange(0, i + 1));
                i = i + 1;
            }
            assert(s@.subrange(0, s@.len() as int) =~= s@);
        },
    }
    assert(out@ =~= old(out)@ + spec_payload_bytes(
        match *p {
            Option::Some(q) => Option::Some(q@),
            Option::None => Option::None,
        },
    ));
}

/// Serializes a request into its one canonical byte frame.
pub fn encode_request(m: &Request) -> (r: Vec<u8>)
    ensures
        r@ == spec_encode_request(m@),
{
    let mut out: Vec<u8> = Vec::new();
    out.push(command_code(m.command));
    push_resource(&mut out, &m.resource);
    push_payload(&mut out, &m.payload);
    proof {
        assert(out@ =~= spec_encode_request(m@));
    }
    out
}

/// Serializes a response into its one canonical byte frame.
pub fn encode_response(m: &Response) -> (r: Vec<u8>)
    ensures
        r@ == spec_encode_response(m@),
{
    let mut out: Vec<u8> = Vec::new();
    out.push(command_code(m.command));
    push_resource(&mut out, &m.resource);
    out.push(status_code(m.status));
    push_payload(&mut out, &m.payload);
    proof {
        assert(out@ =~= spec_encode_response(m@));
    }
    out
}

// ---------------------------------------------------------------------------
// Executable decoders: each returns exactly what its spec decoder says, value
// and error alike.
// ---------------------------------------------------------------------------

proof fn lemma_pow256_pos(c: nat)
    ensures
        pow256(c) >= 1,
    decreases c,
{
    if c > 0 {
        lemma_pow256_pos((c - 1) as nat);
    }
}

proof fn lemma_pow256_monotone(a: nat, b: nat)
    requires
        a <= b,
    ensures
        pow256(a) <= pow256(b),
    decreases b,
{
    if a < b {
        lemma_pow256_monotone(a, (b - 1) as nat);
        lemma_pow256_pos((b - 1) as nat);
    }
}

proof fn lemma_pow256_8()
    ensures
        pow256(8) == 0x1_0000_0000_0000_0000,
{
    assert(pow256(0) == 1);
    assert(pow256(1) == 256);
    assert(pow256(2) == 0x1_0000);
    assert(pow256(3) == 0x100_0000);
    assert(pow256(4) == 0x1_0000_0000);
    assert(pow256(5) == 0x100_0000_0000);
    assert(pow256(6) == 0x1_0000_0000_0000);
    assert(pow256(7) == 0x100_0000_0000_0000);
    assert(pow256(8) == 0x1_0000_0000_0000_0000);
}

fn read_varint(input: &Vec<u8>, pos: usize) -> (r: Result<(u64, usize), WireError>)
    ensures
        match r {
            Result::Ok((v, p)) => sd_varint(input@, pos as int) == Result::Ok::<
                (u64, int),
                WireError,
            >((v, p as int)) && pos < p <= input.len(),
            Result::Err(e) => sd_varint(input@, pos as int) == Result::Err::<
                (u64, int),
                WireError,
            >(e),
        },
    decreases input.len() - pos,
{
    if pos >= input.len() {
        return Result::Err(WireError::Truncated);
    }
    let b: u8 = input[pos];
    if b < 128 {
        Result::Ok((b as u64, pos + 1))
    } else {
        match read_varint(input, pos + 1) {
            Result::Err(e) => Result::Err(e),
            Result::Ok((rest, end)) => {
                if rest == 0 {
                    Result::Err(WireError::NonCanonical)
                } else {
                    let low: u64 = (b - 128) as u64;
                    let fits: bool = rest <= (u64::MAX - low) / 128;
                    proof {
                        let l = low as int;
                        let rr = rest as int;
                        let m = u64::MAX as int;
                        lemma_fundamental_div_mod(m - l, 128);
                        if rr <= (m - l) / 128 {
                            lemma_mul_inequality(rr, (m - l) / 128, 128);
                            assert(l + 128 * rr <= m);
                        } else {
                            lemma_mul_inequality((m - l) / 128 + 1, rr, 128);
                            assert(l + 128 * rr > m);
                        }
                    }
                    if fits {
                        Result::Ok((low + 128 * rest, end))
                    } else {
                        Result::Err(WireError::Overflow)
                    }
                }
            },
        }
    }
}

fn read_le(input: &Vec<u8>, pos: usize, count: usize) -> (r: Result<(u64, usize), WireError>)
    requires
        count <= 8,
        pos <= input.len(),
    ensures
        match r {
            Result::Ok((v, p)) => sd_le(input@, pos as int, count as nat) == Result::Ok::<
                (int, int),
                WireError,
            >((v as int, p as int)) && p == pos + count && p <= input.len() && (v as nat)
                < pow256(count as nat),
            Result::Err(e) => sd_le(input@, pos as int, count as nat) == Result::Err::<
                (int, int),
                WireError,
            >(e),
        },
    decreases count,
{
    if count == 0 {
        Result::Ok((0, pos))
    } else if pos >= input.len() {
        Result::Err(WireError::Truncated)
    } else {
        let b: u8 = input[pos];
        match read_le(input, pos + 1, count - 1) {
            Result::Err(e) => Result::Err(e),
            Result::Ok((rest, end)) => {
                proof {
                    lemma_pow256_8();
                    lemma_pow256_monotone((count - 1) as nat, 7);
                    lemma_pow256_pos((count - 1) as nat);
                    lemma_mul_inequality(rest as int, pow256((count - 1) as nat) - 1, 256);
                }
                Result::Ok((b as u64 + 256 * rest, end))
            },
        }
    }
}

/// The operation code of each system-information query, inverted.
pub fn sysinfo_from(b: u8) -> (r: Option<SysInfoType>)
    ensures
        r == spec_sysinfo_from(b),
{
    if b == 0 {
        Option::Some(SysInfoType::Arch)
    } else if b == 1 {
        Option::Some(SysInfoType::Os)
    } else if b == 2 {
        Option::Some(SysInfoType::OsRelease)
    } else if b == 3 {
        Option::Some(SysInfoType::CpuNum)
    } else if b == 4 {
        Option::Some(SysInfoType::CpuSpeed)
    } else if b == 5 {
        Option::Some(SysInfoType::StorageTotal)
    } else if b == 6 {
        Option::Some(SysInfoType::StorageFree)
    } else if b == 7 {
        Option::Some(SysInfoType::Uptime)
    } else if b == 8 {
        Option::Some(SysInfoType::Temperature)
    } else if b == 9 {
        Option::Some(SysInfoType::BootTime)
    } else if b == 10 {
        Option::Some(SysInfoType::OsInfo)
    } else if b == 11 {
        Option::Some(SysInfoType::CpuInfo)
    } else if b == 12 {
        Option::Some(SysInfoType::DiskInfo)
    } else {
        Option::None
    }
}

fn read_command(input: &Vec<u8>, pos: usize) -> (r: Result<(CommandType, usize), WireError>)
    ensures
        match r {
            Result::Ok((c, p)) => sd_command(input@, pos as int) == Result::Ok::<
                (CommandType, int),
                WireError,
            >((c, p as int)) && pos < p <= input.len(),
            Result::Err(e) => sd_command(input@, pos as int) == Result::Err::<
                (CommandType, int),
                WireError,
            >(e),
        },
{
    if pos >= input.len() {
        return Result::Err(WireError::Truncated);
    }
    let b: u8 = input[pos];
    if b == 0 {
        Result::Ok((CommandType::SetOp, pos + 1))
    } else if b == 1 {
        Result::Ok((CommandType::GetOp, pos + 1))
    } else {
        Result::Err(WireError::UnknownTag)
    }
}

fn read_status(input: &Vec<u8>, pos: usize) -> (r: Result<(ResponseStatus, usize), WireError>)
    ensures
        match r {
            Result::Ok((st, p)) => sd_status(input@, pos as int) == Result::Ok::<
                (ResponseStatus, int),
                WireError,
            >((st, p as int)) && pos < p <= input.len(),
            Result::Err(e) => sd_status(input@, pos as int) == Result::Err::<
                (ResponseStatus, int),
                WireError,
            >(e),
        },
{
    if pos >= input.len() {
        return Result::Err(WireError::Truncated);
    }
    let b: u8 = input[pos];
    if b == 0 {
        Result::Ok((ResponseStatus::Okay, pos + 1))
    } else if b == 1 {
        Result::Ok((ResponseStatus::Fail, pos + 1))
    } else {
        Result::Err(WireError::UnknownTag)
    }
}

fn read_resource(input: &Vec<u8>, pos: usize) -> (r: Result<
    (Option<Resource>, usize),
    WireError,
>)
    ensures
        match r {
            Result::Ok((res, p)) => sd_resource(input@, pos as int) == Result::Ok::<
                (Option<Resource>, int),
                WireError,
            >((res, p as int)) && pos < p <= input.len(),
            Result::Err(e) => sd_resource(input@, pos as int) == Result::Err::<
                (Option<Resource>, int),
                WireError,
            >(e),
        },
{
    if pos >= input.len() {
        return Result::Err(WireError::Truncated);
    }
    let b: u8 = input[pos];
    if b == 0 {
        Result::Ok((Option::None, pos + 1))
    } else if b == 1 {
        if pos + 1 >= input.len() {
            return Result::Err(WireError::Truncated);
        }
        let c: u8 = input[pos + 1];
        if c == 0 {
            Result::Ok((Option::Some(Resource::Power(PowerType::Shutdown)), pos + 2))
        } else if c == 1 {
            Result::Ok((Option::Some(Resource::Power(PowerType::Reboot)), pos + 2))
        } else {
            Result::Err(WireError::UnknownTag)
        }
    } else if b == 2 {
        if pos + 1 >= input.len() {
            return Result::Err(WireError::Truncated);
        }
        let c: u8 = input[pos + 1];
        match sysinfo_from(c) {
            Option::Some(k) => Result::Ok((Option::Some(Resource::SysInfo(k)), pos + 2)),
            Option::None => Result::Err(WireError::UnknownTag),
        }
    } else {
        Result::Err(WireError::UnknownTag)
    }
}

fn read_payload(input: &Vec<u8>, pos: usize) -> (r: Result<(Option<Payload>, usize), WireError>)
    ensures
        match r {
            Result::Ok((pl, p)) => sd_payload(input@, pos as int) == Result::Ok::<
                (Option<PayloadS>, int),
                WireError,
            >(
                (
                    match pl {
                        Option::Some(q) => Option::Some(q@),
                        Option::None => Option::None,
                    },
                    p as int,
                ),
            ) && pos < p <= input.len(),
            Result::Err(e) => sd_payload(input@, pos as int) == Result::Err::<
                (Option<PayloadS>, int),
                WireError,
            >(e),
        },
{
    if pos >= input.len() {
        return Result::Err(WireError::Truncated);
    }
    let b: u8 = input[pos];
    if b == 0 {
        Result::Ok((Option::None, pos + 1))
    } else if b == 1 {
        if pos + 1 >= input.len() {
            return Result::Err(WireError::Truncated);
        }
        let c: u8 = input[pos + 1];
        if c == 0 {
            Result::Ok((Option::Some(Payload::Bool(false)), pos + 2))
        } else if c == 1 {
            Result::Ok((Option::Some(Payload::Bool(true)), pos + 2))
        } else {
            Result::Err(WireError::UnknownTag)
        }
    } else if b == 2 {
        match read_varint(input, pos + 1) {
            Result::Err(e) => Result::Err(e),
            Result::Ok((n, end)) => Result::Ok((Option::Some(Payload::Uint(n)), end)),
        }
    } else if b == 3 {
        match read_le(input, pos + 1, 8) {
            Result::Err(e) => Result::Err(e),
            Result::Ok((v, end)) => Result::Ok((Option::Some(Payload::Real(v)), end)),
        }
    } else if b == 4 {
        match read_varint(input, pos + 1) {
            Result::Err(e) => Result::Err(e),
            Result::Ok((len, end)) => {
                let remaining: usize = input.len() - end;
                if len > remaining as u64 {
                    Result::Err(WireError::Truncated)
                } else {
                    let n: usize = len as usize;
                    let mut bytes: Vec<u8> = Vec::new();
                    let mut i: usize = 0;
                    while i < n
                        invariant
                            end + n <= input.len(),
                            i <= n,
                            bytes@ == input@.subrange(end as int, end as int + i as int),
                        decreases n - i,
                    {
                        bytes.push(input[end + i]);
                        assert(bytes@ =~= input@.subrange(end as int, end as int + (i + 1) as int));
                        i = i + 1;
                    }
                    Result::Ok((Option::Some(Payload::Str(bytes)), end + n))
                }
            },
        }
    } else {
        Result::Err(WireError::UnknownTag)
    }
}

/// Parses a request frame; refuses, with the reason, every byte sequence that
/// `spec_decode_request` refuses.
pub fn decode_request(input: &Vec<u8>) -> (r: Result<Request, WireError>)
    ensures
        spec_decode_request(input@) == (match r {
            Result::Ok(q) => Result::Ok::<RequestS, WireError>(q@),
            Result::Err(e) => Result::Err::<RequestS, WireError>(e),
        }),
{
    let (command, p1): (CommandType, usize) = match read_command(input, 0) {
        Result::Ok(x) => x,
        Result::Err(e) => {
            return Result::Err(e);
        },
    };
    let (resource, p2): (Option<Resource>, usize) = match read_resource(input, p1) {
        Result::Ok(x) => x,
        Result::Err(e) => {
            return Result::Err(e);
        },
    };
    let (payload, p3): (Option<Payload>, usize) = match read_payload(input, p2) {
        Result::Ok(x) => x,
        Result::Err(e) => {
            return Result::Err(e);
        },
    };
    if p3 != input.len() {
        return Result::Err(WireError::Trailing);
    }
    Result::Ok(Request { command, resource, payload })
}

/// Parses a response frame; the exact mirror of `spec_decode_response`.
pub fn decode_response(input: &Vec<u8>) -> (r: Result<Response, WireError>)
    ensures
        spec_decode_response(input@) == (match r {
            Result::Ok(q) => Result::Ok::<ResponseS, WireError>(q@),
            Result::Err(e) => Result::Err::<ResponseS, WireError>(e),
        }),
{
    let (command, p1): (CommandType, usize) = match read_command(input, 0) {
        Result::Ok(x) => x,
        Result::Err(e) => {
            return Result::Err(e);
        },
    };
    let (resource, p2): (Option<Resource>, usize) = match read_resource(input, p1) {
        Result::Ok(x) => x,
        Result::Err(e) => {
            return Result::Err(e);
        },
    };
    let (status, p3): (ResponseStatus, usize) = match read_status(input, p2) {
        Result::Ok(x) => x,
        Result::Err(e) => {
            return Result::Err(e);
        },
    };
    let (payload, p4): (Option<Payload>, usize) = match read_payload(input, p3) {
        Result::Ok(x) => x,
        Result::Err(e) => {
            return Result::Err(e);
        },
    };
    if p4 != input.len() {
        return Result::Err(WireError::Trailing);
    }
    Result::Ok(Response { command, resource, status, payload })
}

// ---------------------------------------------------------------------------
// Round trip: decoding the canonical frame of a message yields exactly that
// message.
// ---------------------------------------------------------------------------

/// A payload that a frame can carry: a string no longer than a varint length
/// can say.  Every payload built from an in-memory byte vector satisfies it.
pub open spec fn payload_wf(p: Option<PayloadS>) -> bool {
    match p {
        Option::Some(PayloadS::Str(s)) => s.len() < 0x1_0000_0000_0000_0000,
        _ => true,
    }
}

pub open spec fn request_wf(m: RequestS) -> bool {
    payload_wf(m.payload)
}

pub open spec fn response_wf(m: ResponseS) -> bool {
    payload_wf(m.payload)
}

proof fn lemma_command_code_inverts(c: CommandType)
    ensures
        spec_command_from(spec_command_code(c)) == Option::Some(c),
{
    match c {
        CommandType::SetOp => {},
        CommandType::GetOp => {},
    }
}

proof fn lemma_status_code_inverts(st: ResponseStatus)
    ensures
        spec_status_from(spec_status_code(st)) == Option::Some(st),
{
    match st {
        ResponseStatus::Okay => {},
        ResponseStatus::Fail => {},
    }
}

proof fn lemma_power_code_inverts(p: PowerType)
    ensures
        spec_power_from(spec_power_code(p)) == Option::Some(p),
{
    match p {
        PowerType::Shutdown => {},
        PowerType::Reboot => {},
    }
}

proof fn lemma_sysinfo_code_inverts(k: SysInfoType)
    ensures
        spec_sysinfo_from(spec_sysinfo_code(k)) == Option::Some(k),
{
    match k {
        SysInfoType::Arch => {},
        SysInfoType::Os => {},
        SysInfoType::OsRelease => {},
        SysInfoType::CpuNum => {},
        SysInfoType::CpuSpeed => {},
        SysInfoType::StorageTotal => {},
        SysInfoType::StorageFree => {},
        SysInfoType::Uptime => {},
        SysInfoType::Temperature => {},
        SysInfoType::BootTime => {},
        SysInfoType::OsInfo => {},
        SysInfoType::CpuInfo => {},
        SysInfoType::DiskInfo => {},
    }
}

proof fn lemma_spec_le_bytes_len(n: nat, count: nat)
    ensures
        spec_le_bytes(n, count).len() == count,
    decreases count,
{
    if count > 0 {
        lemma_spec_le_bytes_len(n / 256, (count - 1) as nat);
    }
}

proof fn lemma_sd_varint_of(s: Seq<u8>, pos: int, n: u64)
    requires
        0 <= pos,
        pos + spec_varint(n as nat).len() <= s.len(),
        s.subrange(pos, pos + spec_varint(n as nat).len() as int) == spec_varint(n as nat),
    ensures
        sd_varint(s, pos) == Result::Ok::<(u64, int), WireError>(
            (n, pos + spec_varint(n as nat).len() as int),
        ),
    decreases n,
{
    let e = spec_varint(n as nat);
    let sub = s.subrange(pos, pos + e.len() as int);
    assert(s[pos] == sub[0]);
    if n < 128 {
        assert(e == seq![n as u8]);
    } else {
        let hd = (((n as nat) % 128) + 128) as u8;
        let tail = spec_varint((n as nat) / 128);
        assert(e == seq![hd] + tail);
        assert((seq![hd] + tail)[0] == hd);
        assert(s.subrange(pos + 1, pos + e.len() as int) =~= tail) by {
            assert forall|j: int| 0 <= j < tail.len() implies s.subrange(
                pos + 1,
                pos + e.len() as int,
            )[j] == tail[j] by {
                assert(s.subrange(pos + 1, pos + e.len() as int)[j] == s[pos + 1 + j]);
                assert(sub[j + 1] == s[pos + (j + 1)]);
                assert(e[j + 1] == (seq![hd] + tail)[j + 1]);
                assert((seq![hd] + tail)[j + 1] == tail[j]);
            }
        }
        assert((n as int) / 128 < n as int && (n as int) / 128 >= 1) by {
            lemma_div_is_ordered(128, n as int, 128);
            lemma_fundamental_div_mod(n as int, 128);
            lemma_mul_inequality(1, (n as int) / 128, 128);
        };
        let rest: u64 = ((n as int) / 128) as u64;
        assert(rest as nat == (n as nat) / 128);
        lemma_sd_varint_of(s, pos + 1, rest);
        lemma_fundamental_div_mod(n as int, 128);
        assert((s[pos] - 128) + 128 * (rest as int) == n as int);
    }
}

proof fn lemma_sd_le_of(s: Seq<u8>, pos: int, n: nat, count: nat)
    requires
        0 <= pos,
        pos + count <= s.len(),
        n < pow256(count),
        s.subrange(pos, pos + count) == spec_le_bytes(n, count),
    ensures
        sd_le(s, pos, count) == Result::Ok::<(int, int), WireError>((n as int, pos + count)),
    decreases count,
{
    if count == 0 {
    } else {
        let e = spec_le_bytes(n, count);
        let hd = (n % 256) as u8;
        let tail = spec_le_bytes(n / 256, (count - 1) as nat);
        lemma_spec_le_bytes_len(n, count);
        lemma_spec_le_bytes_len(n / 256, (count - 1) as nat);
        let sub = s.subrange(pos, pos + count);
        assert(e == seq![hd] + tail);
        assert((seq![hd] + tail)[0] == hd);
        assert(s[pos] == sub[0]);
        assert(s.subrange(pos + 1, pos + count) =~= tail) by {
            assert forall|j: int| 0 <= j < tail.len() implies s.subrange(pos + 1, pos + count)[j]
                == tail[j] by {
                assert(s.subrange(pos + 1, pos + count)[j] == s[pos + 1 + j]);
                assert(sub[j + 1] == s[pos + (j + 1)]);
                assert(e[j + 1] == (seq![hd] + tail)[j + 1]);
                assert((seq![hd] + tail)[j + 1] == tail[j]);
            }
        }
        assert(n / 256 < pow256((count - 1) as nat)) by {
            if n / 256 >= pow256((count - 1) as nat) {
                lemma_mul_inequality(pow256((count - 1) as nat) as int, (n / 256) as int, 256);
                lemma_fundamental_div_mod(n as int, 256);
                assert(false);
            }
        };
        lemma_sd_le_of(s, pos + 1, n / 256, (count - 1) as nat);
        lemma_fundamental_div_mod(n as int, 256);
        assert(s[pos] + 256 * ((n / 256) as int) == n as int);
    }
}

proof fn lemma_sd_resource_of(s: Seq<u8>, pos: int, r: Option<Resource>)
    requires
        0 <= pos,
        pos + spec_resource_bytes(r).len() <= s.len(),
        s.subrange(pos, pos + spec_resource_bytes(r).len() as int) == spec_resource_bytes(r),
    ensures
        sd_resource(s, pos) == Result::Ok::<(Option<Resource>, int), WireError>(
            (r, pos + spec_resource_bytes(r).len() as int),
        ),
{
    let e = spec_resource_bytes(r);
    let sub = s.subrange(pos, pos + e.len() as int);
    assert(s[pos] == sub[0]);
    match r {
        Option::None => {},
        Option::Some(Resource::Power(p)) => {
            assert(e == seq![1u8, spec_power_code(p)]);
            assert(s[pos + 1] == sub[1]);
            lemma_power_code_inverts(p);
        },
        Option::Some(Resource::SysInfo(k)) => {
            assert(e == seq![2u8, spec_sysinfo_code(k)]);
            assert(s[pos + 1] == sub[1]);
            lemma_sysinfo_code_inverts(k);
        },
    }
}

proof fn lemma_sd_payload_of(s: Seq<u8>, pos: int, p: Option<PayloadS>)
    requires
        0 <= pos,
        payload_wf(p),
        pos + spec_payload_bytes(p).len() <= s.len(),
        s.subrange(pos, pos + spec_payload_bytes(p).len() as int) == spec_payload_bytes(p),
    ensures
        sd_payload(s, pos) == Result::Ok::<(Option<PayloadS>, int), WireError>(
            (p, pos + spec_payload_bytes(p).len() as int),
        ),
{
    let e = spec_payload_bytes(p);
    let sub = s.subrange(pos, pos + e.len() as int);
    assert(s[pos] == sub[0]);
    match p {
        Option::None => {},
        Option::Some(PayloadS::Bool(b)) => {
            assert(e == seq![1u8, if b { 1u8 } else { 0u8 }]);
            assert(s[pos + 1] == sub[1]);
        },
        Option::Some(PayloadS::Uint(n)) => {
            let ne = spec_varint(n as nat);
            assert(e == seq![2u8] + ne);
            assert((seq![2u8] + ne)[0] == 2u8);
            assert(s.subrange(pos + 1, pos + 1 + ne.len() as int) =~= ne) by {
                assert forall|j: int| 0 <= j < ne.len() implies s.subrange(
                    pos + 1,
                    pos + 1 + ne.len() as int,
                )[j] == ne[j] by {
                    assert(s.subrange(pos + 1, pos + 1 + ne.len() as int)[j] == s[pos + 1 + j]);
                    assert(sub[j + 1] == s[pos + (j + 1)]);
                    assert(e[j + 1] == (seq![2u8] + ne)[j + 1]);
                    assert((seq![2u8] + ne)[j + 1] == ne[j]);
                }
            }
            lemma_sd_varint_of(s, pos + 1, n);
        },
        Option::Some(PayloadS::Real(bits)) => {
            let ne = spec_le_bytes(bits as nat, 8);
            lemma_spec_le_bytes_len(bits as nat, 8);
            assert(e == seq![3u8] + ne);
            assert((seq![3u8] + ne)[0] == 3u8);
            assert(s.subrange(pos + 1, pos + 9) =~= ne) by {
                assert forall|j: int| 0 <= j < ne.len() implies s.subrange(pos + 1, pos + 9)[j]
                    == ne[j] by {
                    assert(s.subrange(pos + 1, pos + 9)[j] == s[pos + 1 + j]);
                    assert(sub[j + 1] == s[pos + (j + 1)]);
                    assert(e[j + 1] == (seq![3u8] + ne)[j + 1]);
                    assert((seq![3u8] + ne)[j + 1] == ne[j]);
                }
            }
            lemma_pow256_8();
            lemma_sd_le_of(s, pos + 1, bits as nat, 8);
        },
        Option::Some(PayloadS::Str(body)) => {
            let le = spec_varint(body.len());
            assert(e == (seq![4u8] + le) + body);
            assert((seq![4u8] + le)[0] == 4u8);
            assert(e[0] == (seq![4u8] + le)[0]);
            assert(s.subrange(pos + 1, pos + 1 + le.len() as int) =~= le) by {
                assert forall|j: int| 0 <= j < le.len() implies s.subrange(
                    pos + 1,
                    pos + 1 + le.len() as int,
                )[j] == le[j] by {
                    assert(s.subrange(pos + 1, pos + 1 + le.len() as int)[j] == s[pos + 1 + j]);
                    assert(sub[j + 1] == s[pos + (j + 1)]);
                    assert(e[j + 1] == ((seq![4u8] + le) + body)[j + 1]);
                    assert(((seq![4u8] + le) + body)[j + 1] == (seq![4u8] + le)[j + 1]);
                    assert((seq![4u8] + le)[j + 1] == le[j]);
                }
            }
            let n64: u64 = (body.len() as int) as u64;
            assert(n64 as nat == body.len());
            lemma_sd_varint_of(s, pos + 1, n64);
            let start = pos + 1 + le.len() as int;
            assert(s.subrange(start, start + body.len() as int) =~= body) by {
                assert forall|j: int| 0 <= j < body.len() implies s.subrange(
                    start,
                    start + body.len() as int,
                )[j] == body[j] by {
                    assert(s.subrange(start, start + body.len() as int)[j] == s[start + j]);
                    assert(sub[1 + le.len() + j] == s[pos + (1 + le.len() + j)]);
                    assert(e[1 + le.len() + j] == ((seq![4u8] + le) + body)[1 + le.len() + j]);
                    assert(((seq![4u8] + le) + body)[1 + le.len() + j] == body[j]);
                }
            }
        },
    }
}

/// Round trip for requests: the canonical frame of a well-formed request
/// decodes to exactly that request.
pub proof fn lemma_request_round_trip(m: RequestS)
    requires
        request_wf(m),
    ensures
        spec_decode_request(spec_encode_request(m)) == Result::Ok::<RequestS, WireError>(m),
{
    let s = spec_encode_request(m);
    let cb = seq![spec_command_code(m.command)];
    let rb = spec_resource_bytes(m.resource);
    let pb = spec_payload_bytes(m.payload);
    assert(s == (cb + rb) + pb);
    assert(s[0] == (cb + rb)[0]);
    assert((cb + rb)[0] == cb[0]);
    lemma_command_code_inverts(m.command);
    let p2 = 1 + rb.len() as int;
    assert(s.subrange(1, p2) =~= rb) by {
        assert forall|j: int| 0 <= j < rb.len() implies s.subrange(1, p2)[j] == rb[j] by {
            assert(s.subrange(1, p2)[j] == s[1 + j]);
            assert(s[1 + j] == (cb + rb)[1 + j]);
            assert((cb + rb)[1 + j] == rb[j]);
        }
    }
    lemma_sd_resource_of(s, 1, m.resource);
    assert(s.subrange(p2, p2 + pb.len() as int) =~= pb) by {
        assert forall|j: int| 0 <= j < pb.len() implies s.subrange(p2, p2 + pb.len() as int)[j]
            == pb[j] by {
            assert(s.subrange(p2, p2 + pb.len() as int)[j] == s[p2 + j]);
            assert(s[p2 + j] == pb[j]);
        }
    }
    lemma_sd_payload_of(s, p2, m.payload);
    assert(p2 + pb.len() as int == s.len());
}

/// Round trip for responses: the canonical frame of a well-formed response
/// decodes to exactly that response.
pub proof fn lemma_response_round_trip(m: ResponseS)
    requires
        response_wf(m),
    ensures
        spec_decode_response(spec_encode_response(m)) == Result::Ok::<ResponseS, WireError>(m),
{
    let s = spec_encode_response(m);
    let cb = seq![spec_command_code(m.command)];
    let rb = spec_resource_bytes(m.resource);
    let sb = seq![spec_status_code(m.status)];
    let pb = spec_payload_bytes(m.payload);
    assert(s == ((cb + rb) + sb) + pb);
    assert(s[0] == ((cb + rb) + sb)[0]);
    assert(((cb + rb) + sb)[0] == (cb + rb)[0]);
    assert((cb + rb)[0] == cb[0]);
    lemma_command_code_inverts(m.command);
    let p2 = 1 + rb.len() as int;
    assert(s.subrange(1, p2) =~= rb) by {
        assert forall|j: int| 0 <= j < rb.len() implies s.subrange(1, p2)[j] == rb[j] by {
            assert(s.subrange(1, p2)[j] == s[1 + j]);
            assert(s[1 + j] == ((cb + rb) + sb)[1 + j]);
            assert(((cb + rb) + sb)[1 + j] == (cb + rb)[1 + j]);
            assert((cb + rb)[1 + j] == rb[j]);
        }
    }
    lemma_sd_resource_of(s, 1, m.resource);
    assert(s[p2] == ((cb + rb) + sb)[p2]);
    assert(((cb + rb) + sb)[p2] == sb[0]);
    lemma_status_code_inverts(m.status);
    let p3 = p2 + 1;
    assert(s.subrange(p3, p3 + pb.len() as int) =~= pb) by {
        assert forall|j: int| 0 <= j < pb.len() implies s.subrange(p3, p3 + pb.len() as int)[j]
            == pb[j] by {
            assert(s.subrange(p3, p3 + pb.len() as int)[j] == s[p3 + j]);
            assert(s[p3 + j] == pb[j]);
        }
    }
    lemma_sd_payload_of(s, p3, m.payload);
    assert(p3 + pb.len() as int == s.len());
}

} // verus!

//! Byte-string helpers for the payloads the dispatcher builds itself:
//! decimal renderings of counters and the fixed diagnostic messages.

use vstd::prelude::*;

use vstd::arithmetic::div_mod::lemma_div_decreases;

use crate::wire::WireError;

verus! {

/// The decimal digits of `n`, most significant first.
pub open spec fn spec_dec(n: nat) -> Seq<u8>
    decreases n,
{
    if n < 10 {
        seq![(n + 48) as u8]
    } else {
        spec_dec(n / 10) + seq![((n % 10) + 48) as u8]
    }
}

fn push_dec(out: &mut Vec<u8>, n: u64)
    ensures
        final(out)@ == old(out)@ + spec_dec(n as nat),
    decreases n,
{
    if n < 10 {
        out.push((n + 48) as u8);
        assert(out@ =~= old(out)@ + spec_dec(n as nat));
    } else {
        proof {
            lemma_div_decreases(n as int, 10);
        }
        push_dec(out, n / 10);
        out.push(((n % 10) + 48) as u8);
        assert(out@ =~= old(out)@ + spec_dec(n as nat));
    }
}

/// Renders `n` in decimal.
pub fn u64_to_dec(n: u64) -> (r: Vec<u8>)
    ensures
        r@ == spec_dec(n as nat),
{
    let mut out: Vec<u8> = Vec::new();
    push_dec(&mut out, n);
    out
}

/// "Not supported", as bytes.
pub open spec fn spec_not_supported_text() -> Seq<u8> {
    seq![78u8, 111u8, 116u8, 32u8, 115u8, 117u8, 112u8, 112u8, 111u8, 114u8, 116u8, 101u8, 100u8]
}

pub fn not_supported_text() -> (r: Vec<u8>)
    ensures
        r@ == spec_not_supported_text(),
{
    let v: Vec<u8> = vec![78u8, 111u8, 116u8, 32u8, 115u8, 117u8, 112u8, 112u8, 111u8, 114u8, 116u8, 101u8, 100u8];
    proof {
        assert(v@ =~= spec_not_supported_text());
    }
    v
}

/// "truncated message", as bytes.
pub open spec fn spec_truncated_text() -> Seq<u8> {
    seq![116u8, 114u8, 117u8, 110u8, 99u8, 97u8, 116u8, 101u8, 100u8, 32u8, 109u8, 101u8, 115u8, 115u8, 97u8, 103u8, 101u8]
}

pub fn truncated_text() -> (r: Vec<u8>)
    ensures
        r@ == spec_truncated_text(),
{
    let v: Vec<u8> = vec![116u8, 114u8, 117u8, 110u8, 99u8, 97u8, 116u8, 101u8, 100u8, 32u8, 109u8, 101u8, 115u8, 115u8, 97u8, 103u8, 101u8];
    proof {
        assert(v@ =~= spec_truncated_text());
    }
    v
}

/// "non-canonical integer", as bytes.
pub open spec fn spec_non_canonical_text() -> Seq<u8> {
    seq![110u8, 111u8, 110u8, 45u8, 99u8, 97u8, 110u8, 111u8, 110u8, 105u8, 99u8, 97u8, 108u8, 32u8, 105u8, 110u8, 116u8, 101u8, 103u8, 101u8, 114u8]
}

pub fn non_canonical_text() -> (r: Vec<u8>)
    ensures
        r@ == spec_non_canonical_text(),
{
    let v: Vec<u8> = vec![110u8, 111u8, 110u8, 45u8, 99u8, 97u8, 110u8, 111u8, 110u8, 105u8, 99u8, 97u8, 108u8, 32u8, 105u8, 110u8, 116u8, 101u8, 103u8, 101u8, 114u8];
    proof {
        assert(v@ =~= spec_non_canonical_text());
    }
    v
}

/// "integer overflow", as bytes.
pub open spec fn spec_overflow_text() -> Seq<u8> {
    seq![105u8, 110u8, 116u8, 101u8, 103u8, 101u8, 114u8, 32u8, 111u8, 118u8, 101u8, 114u8, 102u8, 108u8, 111u8, 119u8]
}

pub fn overflow_text() -> (r: Vec<u8>)
    ensures
        r@ == spec_overflow_text(),
{
    let v: Vec<u8> = vec![105u8, 110u8, 116u8, 101u8, 103u8, 101u8, 114u8, 32u8, 111u8, 118u8, 101u8, 114u8, 102u8, 108u8, 111u8, 119u8];
    proof {
        assert(v@ =~= spec_overflow_text());
    }
    v
}

/// "unknown tag byte", as bytes.
pub open spec fn spec_unknown_tag_text() -> Seq<u8> {
    seq![117u8, 110u8, 107u8, 110u8, 111u8, 119u8, 110u8, 32u8, 116u8, 97u8, 103u8, 32u8, 98u8, 121u8, 116u8, 101u8]
}

pub fn unknown_tag_text() -> (r: Vec<u8>)
    ensures
        r@ == spec_unknown_tag_text(),
{
    let v: Vec<u8> = vec![117u8, 110u8, 107u8, 110u8, 111u8, 119u8, 110u8, 32u8, 116u8, 97u8, 103u8, 32u8, 98u8, 121u8, 116u8, 101u8];
    proof {
        assert(v@ =~= spec_unknown_tag_text());
    }
    v
}

/// "trailing bytes", as bytes.
pub open spec fn spec_trailing_text() -> Seq<u8> {
    seq![116u8, 114u8, 97u8, 105u8, 108u8, 105u8, 110u8, 103u8, 32u8, 98u8, 121u8, 116u8, 101u8, 115u8]
}

pub fn trailing_text() -> (r: Vec<u8>)
    ensures
        r@ == spec_trailing_text(),
{
    let v: Vec<u8> = vec![116u8, 114u8, 97u8, 105u8, 108u8, 105u8, 110u8, 103u8, 32u8, 98u8, 121u8, 116u8, 101u8, 115u8];
    proof {
        assert(v@ =~= spec_trailing_text());
    }
    v
}

/// "cpus=", as bytes.
pub open spec fn spec_cpus_label_text() -> Seq<u8> {
    seq![99u8, 112u8, 117u8, 115u8, 61u8]
}

pub fn cpus_label_text() -> (r: Vec<u8>)
    ensures
        r@ == spec_cpus_label_text(),
{
    let v: Vec<u8> = vec![99u8, 112u8, 117u8, 115u8, 61u8];
    proof {
        assert(v@ =~= spec_cpus_label_text());
    }
    v
}

/// " mhz=", as bytes.
pub open spec fn spec_mhz_label_text() -> Seq<u8> {
    seq![32u8, 109u8, 104u8, 122u8, 61u8]
}

pub fn mhz_label_text() -> (r: Vec<u8>)
    ensures
        r@ == spec_mhz_label_text(),
{
    let v: Vec<u8> = vec![32u8, 109u8, 104u8, 122u8, 61u8];
    proof {
        assert(v@ =~= spec_mhz_label_text());
    }
    v
}

/// "total_kb=", as bytes.
pub open spec fn spec_total_kb_label_text() -> Seq<u8> {
    seq![116u8, 111u8, 116u8, 97u8, 108u8, 95u8, 107u8, 98u8, 61u8]
}

pub fn total_kb_label_text() -> (r: Vec<u8>)
    ensures
        r@ == spec_total_kb_label_text(),
{
    let v: Vec<u8> = vec![116u8, 111u8, 116u8, 97u8, 108u8, 95u8, 107u8, 98u8, 61u8];
    proof {
        assert(v@ =~= spec_total_kb_label_text());
    }
    v
}

/// " free_kb=", as bytes.
pub open spec fn spec_free_kb_label_text() -> Seq<u8> {
    seq![32u8, 102u8, 114u8, 101u8, 101u8, 95u8, 107u8, 98u8, 61u8]
}

pub fn free_kb_label_text() -> (r: Vec<u8>)
    ensures
        r@ == spec_free_kb_label_text(),
{
    let v: Vec<u8> = vec![32u8, 102u8, 114u8, 101u8, 101u8, 95u8, 107u8, 98u8, 61u8];
    proof {
        assert(v@ =~= spec_free_kb_label_text());
    }
    v
}

/// What the decoder's refusal of a frame says in the reply payload.
pub open spec fn spec_wire_error_text(e: WireError) -> Seq<u8> {
    match e {
        WireError::Truncated => spec_truncated_text(),
        WireError::NonCanonical => spec_non_canonical_text(),
        WireError::Overflow => spec_overflow_text(),
        WireError::UnknownTag => spec_unknown_tag_text(),
        WireError::Trailing => spec_trailing_text(),
    }
}

pub fn wire_error_text(e: WireError) -> (r: Vec<u8>)
    ensures
        r@ == spec_wire_error_text(e),
{
    match e {
        WireError::Truncated => truncated_text(),
        WireError::NonCanonical => non_canonical_text(),
        WireError::Overflow => overflow_text(),
        WireError::UnknownTag => unknown_tag_text(),
        WireError::Trailing => trailing_text(),
    }
}

/// The processor description: core count, then nominal speed.
pub open spec fn spec_cpu_info_text(cpus: nat, mhz: nat) -> Seq<u8> {
    spec_cpus_label_text() + spec_dec(cpus) + spec_mhz_label_text() + spec_dec(mhz)
}

pub fn cpu_info_text(cpus: u32, mhz: u64) -> (r: Vec<u8>)
    ensures
        r@ == spec_cpu_info_text(cpus as nat, mhz as nat),
{
    let mut out: Vec<u8> = cpus_label_text();
    push_dec(&mut out, cpus as u64);
    let mut label: Vec<u8> = mhz_label_text();
    out.append(&mut label);
    push_dec(&mut out, mhz);
    proof {
        assert(out@ =~= spec_cpu_info_text(cpus as nat, mhz as nat));
    }
    out
}

/// The storage description: total size, then free space, in kilobytes.
pub open spec fn spec_disk_info_text(total_kb: nat, free_kb: nat) -> Seq<u8> {
    spec_total_kb_label_text() + spec_dec(total_kb) + spec_free_kb_label_text() + spec_dec(free_kb)
}

pub fn disk_info_text(total_kb: u64, free_kb: u64) -> (r: Vec<u8>)
    ensures
        r@ == spec_disk_info_text(total_kb as nat, free_kb as nat),
{
    let mut out: Vec<u8> = total_kb_label_text();
    push_dec(&mut out, total_kb);
    let mut label: Vec<u8> = free_kb_label_text();
    out.append(&mut label);
    push_dec(&mut out, free_kb);
    proof {
        assert(out@ =~= spec_disk_info_text(total_kb as nat, free_kb as nat));
    }
    out
}

/// An uptime: whole seconds, suffixed with "s".
pub open spec fn spec_uptime_text(secs: nat) -> Seq<u8> {
    spec_dec(secs) + seq![115u8]
}

pub fn uptime_text(secs: u64) -> (r: Vec<u8>)
    ensures
        r@ == spec_uptime_text(secs as nat),
{
    let mut out: Vec<u8> = u64_to_dec(secs);
    out.push(115);
    proof {
        assert(out@ =~= spec_uptime_text(secs as nat));
    }
    out
}

/// Copies a byte vector; the capability interface hands values out by value.
pub fn copy_bytes(src: &Vec<u8>) -> (r: Vec<u8>)
    ensures
        r@ == src@,
{
    let mut out: Vec<u8> = Vec::new();
    let mut i: usize = 0;
    while i < src.len()
        invariant
            i <= src.len(),
            out@ == src@.subrange(0, i as int),
        decreases src.len() - i,
    {
        out.push(src[i]);
        assert(out@ =~= src@.subrange(0, (i + 1) as int));
        i = i + 1;
    }
    assert(src@.subrange(0, src@.len() as int) =~= src@);
    out
}

} // verus!

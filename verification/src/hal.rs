//! The capability provider: power control and system-information queries.
//! Each call into an outside crate stands behind one trusted wrapper whose
//! body only makes the call and converts its values; everything around the
//! calls (field selection, formatting, bit widening) is verified.

use vstd::prelude::*;

use systemstat::Platform;

use crate::realbits::spec_widen_real;
use crate::realbits::widen_real_bits;
use crate::text::copy_bytes;
use crate::text::cpu_info_text;
use crate::text::disk_info_text;
use crate::text::spec_cpu_info_text;
use crate::text::spec_dec;
use crate::text::spec_disk_info_text;
use crate::text::spec_uptime_text;
use crate::text::u64_to_dec;
use crate::text::uptime_text;

verus! {

/// Host identity handed in once by the embedding process: the names of the
/// target architecture and operating system.  They are properties of the
/// host build, so the process that embeds the library supplies them.
pub struct HostInfo {
    pub arch: Vec<u8>,
    pub os: Vec<u8>,
}

pub struct HostInfoS {
    pub arch: Seq<u8>,
    pub os: Seq<u8>,
}

impl View for HostInfo {
    type V = HostInfoS;

    open spec fn view(&self) -> HostInfoS {
        HostInfoS { arch: self.arch@, os: self.os@ }
    }
}

/// Relies on system_shutdown::shutdown: asks the OS to power the machine
/// off.  Whether it succeeds depends on the machine; nothing more is
/// assumed.  The error text is handed back as bytes.
#[verifier::external_body]
pub fn shutdown() -> (r: Result<(), Vec<u8>>) {
    match system_shutdown::shutdown() {
        Ok(()) => Ok(()),
        Err(e) => Err(e.to_string().into_bytes()),
    }
}

/// Relies on system_shutdown::reboot: asks the OS to restart the machine.
#[verifier::external_body]
pub fn reboot() -> (r: Result<(), Vec<u8>>) {
    match system_shutdown::reboot() {
        Ok(()) => Ok(()),
        Err(e) => Err(e.to_string().into_bytes()),
    }
}

/// Relies on sys_info::os_release: the kernel release string, as bytes.
#[verifier::external_body]
pub fn get_os_release() -> (r: Result<Vec<u8>, Vec<u8>>) {
    match sys_info::os_release() {
        Ok(v) => Ok(v.into_bytes()),
        Err(e) => Err(e.to_string().into_bytes()),
    }
}

/// Relies on sys_info::os_type: the operating-system family name reported
/// at run time, as bytes.
#[verifier::external_body]
pub fn get_os_info() -> (r: Result<Vec<u8>, Vec<u8>>) {
    match sys_info::os_type() {
        Ok(v) => Ok(v.into_bytes()),
        Err(e) => Err(e.to_string().into_bytes()),
    }
}

/// Relies on sys_info::cpu_num: the number of logical processors.
#[verifier::external_body]
pub fn get_cpu_num() -> (r: Result<u32, Vec<u8>>) {
    match sys_info::cpu_num() {
        Ok(n) => Ok(n),
        Err(e) => Err(e.to_string().into_bytes()),
    }
}

/// Relies on sys_info::cpu_speed: the processor speed in MHz.
#[verifier::external_body]
pub fn get_cpu_speed() -> (r: Result<u64, Vec<u8>>) {
    match sys_info::cpu_speed() {
        Ok(n) => Ok(n),
        Err(e) => Err(e.to_string().into_bytes()),
    }
}

/// Relies on sys_info::disk_info: total and free disk space in kilobytes,
/// as the pair (total, free).
#[verifier::external_body]
fn disk_info() -> (r: Result<(u64, u64), Vec<u8>>) {
    match sys_info::disk_info() {
        Ok(d) => Ok((d.total, d.free)),
        Err(e) => Err(e.to_string().into_bytes()),
    }
}

/// Relies on sys_info::boottime: the seconds field of the reported time
/// value.
#[verifier::external_body]
fn boottime_secs() -> (r: Result<u64, Vec<u8>>) {
    match sys_info::boottime() {
        Ok(t) => Ok(t.tv_sec as u64),
        Err(e) => Err(e.to_string().into_bytes()),
    }
}

/// Relies on systemstat's uptime (on a freshly constructed System): the
/// time since boot, in whole seconds.
#[verifier::external_body]
fn uptime_secs() -> (r: Result<u64, Vec<u8>>) {
    match systemstat::System::new().uptime() {
        Ok(d) => Ok(d.as_secs()),
        Err(e) => Err(e.to_string().into_bytes()),
    }
}

/// Relies on systemstat's cpu_temp (on a freshly constructed System): the
/// processor temperature in degrees Celsius, handed back as the raw bits of
/// the binary32 reading.
#[verifier::external_body]
fn cpu_temp_bits() -> (r: Result<u32, Vec<u8>>) {
    match systemstat::System::new().cpu_temp() {
        Ok(t) => Ok(t.to_bits()),
        Err(e) => Err(e.to_string().into_bytes()),
    }
}

/// The target architecture name: the value the host process handed in.
pub fn get_arch(host: &HostInfo) -> (r: Vec<u8>)
    ensures
        r@ == host@.arch,
{
    copy_bytes(&host.arch)
}

/// The target operating-system name: the value the host process handed in.
pub fn get_os(host: &HostInfo) -> (r: Vec<u8>)
    ensures
        r@ == host@.os,
{
    copy_bytes(&host.os)
}

/// The total-space half of one storage report.
pub fn storage_total_of(report: (u64, u64)) -> (r: u64)
    ensures
        r == report.0,
{
    report.0
}

/// The free-space half of one storage report.
pub fn storage_free_of(report: (u64, u64)) -> (r: u64)
    ensures
        r == report.1,
{
    report.1
}

/// Total disk space in kilobytes: the total-space half of a storage report.
pub fn get_storage_total() -> (r: Result<u64, Vec<u8>>) {
    match disk_info() {
        Result::Ok(report) => Result::Ok(storage_total_of(report)),
        Result::Err(e) => Result::Err(e),
    }
}

/// Free disk space in kilobytes: the free-space half of a storage report.
pub fn get_storage_free() -> (r: Result<u64, Vec<u8>>) {
    match disk_info() {
        Result::Ok(report) => Result::Ok(storage_free_of(report)),
        Result::Err(e) => Result::Err(e),
    }
}

/// The uptime, rendered as whole seconds with an "s" suffix.
pub fn get_uptime() -> (r: Result<Vec<u8>, Vec<u8>>)
    ensures
        r matches Result::Ok(v) ==> exists|secs: nat| v@ == spec_uptime_text(secs),
{
    match uptime_secs() {
        Result::Ok(secs) => {
            let v = uptime_text(secs);
            proof {
                assert(v@ == spec_uptime_text(secs as nat));
            }
            Result::Ok(v)
        },
        Result::Err(e) => Result::Err(e),
    }
}

/// The boot time, rendered as a decimal count of seconds.  Note that on
/// Linux the underlying reading comes from /proc/uptime, so the value counts
/// seconds since boot rather than an epoch timestamp of the boot.
pub fn get_boot_time() -> (r: Result<Vec<u8>, Vec<u8>>)
    ensures
        r matches Result::Ok(v) ==> exists|secs: nat| v@ == spec_dec(secs),
{
    match boottime_secs() {
        Result::Ok(secs) => {
            let v = u64_to_dec(secs);
            proof {
                assert(v@ == spec_dec(secs as nat));
            }
            Result::Ok(v)
        },
        Result::Err(e) => Result::Err(e),
    }
}

/// The processor temperature as binary64 bits, widened from the sensor's
/// binary32 reading.
pub fn get_temperature() -> (r: Result<u64, Vec<u8>>)
    ensures
        r matches Result::Ok(bits) ==> exists|b32: u32| bits == spec_widen_real(b32),
{
    match cpu_temp_bits() {
        Result::Ok(b32) => {
            let bits = widen_real_bits(b32);
            proof {
                assert(bits == spec_widen_real(b32));
            }
            Result::Ok(bits)
        },
        Result::Err(e) => Result::Err(e),
    }
}

/// The processor description: core count and speed.
pub fn get_cpu_info() -> (r: Result<Vec<u8>, Vec<u8>>)
    ensures
        r matches Result::Ok(v) ==> exists|cpus: nat, mhz: nat|
            v@ == spec_cpu_info_text(cpus, mhz),
{
    match get_cpu_num() {
        Result::Ok(cpus) => match get_cpu_speed() {
            Result::Ok(mhz) => {
                let v = cpu_info_text(cpus, mhz);
                proof {
                    assert(v@ == spec_cpu_info_text(cpus as nat, mhz as nat));
                }
                Result::Ok(v)
            },
            Result::Err(e) => Result::Err(e),
        },
        Result::Err(e) => Result::Err(e),
    }
}

/// The storage description: total and free space.
pub fn get_disk_info() -> (r: Result<Vec<u8>, Vec<u8>>)
    ensures
        r matches Result::Ok(v) ==> exists|total: nat, free: nat|
            v@ == spec_disk_info_text(total, free),
{
    match disk_info() {
        Result::Ok((total, free)) => {
            let v = disk_info_text(total, free);
            proof {
                assert(v@ == spec_disk_info_text(total as nat, free as nat));
            }
            Result::Ok(v)
        },
        Result::Err(e) => Result::Err(e),
    }
}

} // verus!

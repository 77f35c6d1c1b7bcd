//! CPU time gauges: the process's user and system time in microseconds, in total and per
//! available CPU.
use vstd::prelude::*;

verus! {

/// The number of CPUs this process may use.
///
/// Wraps `num_cpus::get`, documented to always return at least 1; the value depends on the
/// machine and the process's affinity, so nothing more is claimed.
#[verifier::external_body]
fn cpu_count() -> (r: usize)
    ensures
        r >= 1,
{
    num_cpus::get()
}

/// A CPU time of `sec` seconds and `usec` microseconds, in microseconds.
pub open spec fn spec_cpu_time(sec: u64, usec: u32) -> int {
    sec * 1_000_000 + usec
}

/// A time of `micros` microseconds shared out over `cpus` CPUs, rounded down.
pub open spec fn shared(micros: int, cpus: int) -> int {
    micros / cpus
}

/// A CPU time as `getrusage` reports it, in whole microseconds, kept to the low 64 bits as
/// the gauge reports it.
pub fn cpu_time_micros(sec: u64, usec: u32) -> (r: u64)
    requires
        usec <= 4_294_967,
        sec + usec / 1_000_000 <= u64::MAX,
    ensures
        r == spec_cpu_time(sec, usec) % 0x1_0000_0000_0000_0000,
{
    let m: u128 = (sec as u128) * 1_000_000 + usec as u128;
    (m % 0x1_0000_0000_0000_0000) as u64
}

/// A CPU time shared out over `cpus` CPUs, rounded down.
pub fn per_cpu(micros: u64, cpus: u64) -> (r: u64)
    requires
        cpus >= 1,
    ensures
        r == shared(micros as int, cpus as int),
{
    micros / cpus
}

/// A CPU time in microseconds per CPU this process may use, as the normalized gauges
/// report it.
pub fn cpu_time_micros_per_cpu(sec: u64, usec: u32) -> (r: u64)
    requires
        usec <= 4_294_967,
        sec + usec / 1_000_000 <= u64::MAX,
    ensures
        exists|cpus: int|
            cpus >= 1 && r == #[trigger] shared(spec_cpu_time(sec, usec) % 0x1_0000_0000_0000_0000, cpus),
{
    let micros = cpu_time_micros(sec, usec);
    let cpus = cpu_count() as u64;
    let r = per_cpu(micros, cpus);
    assert(cpus as int >= 1 && r == shared(spec_cpu_time(sec, usec) % 0x1_0000_0000_0000_0000, cpus as int));
    r
}

} // verus!

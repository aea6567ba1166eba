//! CPU time accounting between two readings of the system's or the process's
//! cumulative times.
use vstd::prelude::*;

verus! {

/// A 64-bit time from its low and high 32-bit halves, as the operating system
/// reports it.
pub open spec fn time_from_halves(low: u32, high: u32) -> i64 {
    (high * 0x1_0000_0000 + low) as i64
}

pub fn to_i64(low: u32, high: u32) -> (r: i64)
    ensures
        r == time_from_halves(low, high),
{
    let wide: i128 = high as i128 * 0x1_0000_0000 + low as i128;
    #[verifier::truncate]
    (wide as i64)
}

/// The cumulative times of the previous reading.
#[derive(Clone, Copy, Debug, Default, PartialEq, Eq, Structural)]
pub struct PerfRecord {
    pub last_idle_time: i64,
    pub last_kernel_time: i64,
    pub last_user_time: i64,
}

/// Busy and total time since the previous reading, each cut to 32 bits:
/// total is kernel plus user time, busy is total minus idle time.
pub open spec fn perf_delta(p: PerfRecord, idle: i64, kernel: i64, user: i64) -> (i32, i32) {
    let di = (idle - p.last_idle_time) as i32;
    let dk = (kernel - p.last_kernel_time) as i32;
    let du = (user - p.last_user_time) as i32;
    let total = (dk + du) as i32;
    ((total - di) as i32, total)
}

impl PerfRecord {
    /// Takes a new reading; returns busy and total time since the last one.
    pub fn update(&mut self, idle: i64, kernel: i64, user: i64) -> (r: (i32, i32))
        ensures
            r == perf_delta(*old(self), idle, kernel, user),
            *final(self) == (PerfRecord {
                last_idle_time: idle,
                last_kernel_time: kernel,
                last_user_time: user,
            }),
    {
        let di: i32 = #[verifier::truncate]
        ((idle as i128 - self.last_idle_time as i128) as i32);
        let dk: i32 = #[verifier::truncate]
        ((kernel as i128 - self.last_kernel_time as i128) as i32);
        let du: i32 = #[verifier::truncate]
        ((user as i128 - self.last_user_time as i128) as i32);
        let total_time: i32 = #[verifier::truncate]
        ((dk as i64 + du as i64) as i32);
        let busy_time: i32 = #[verifier::truncate]
        ((total_time as i64 - di as i64) as i32);
        self.last_idle_time = idle;
        self.last_kernel_time = kernel;
        self.last_user_time = user;
        (busy_time, total_time)
    }
}

/// Readings of the whole system's and of this process's CPU times.
#[derive(Clone, Copy, Debug, Default, PartialEq, Eq, Structural)]
pub struct PerfMonitor {
    pub system: PerfRecord,
    pub process: PerfRecord,
}

impl PerfMonitor {
    /// Takes a reading of the system's idle, kernel and user times.
    pub fn update_system_time(&mut self, idle: i64, kernel: i64, user: i64) -> (r: (i32, i32))
        ensures
            r == perf_delta(old(self).system, idle, kernel, user),
            final(self).system == (PerfRecord {
                last_idle_time: idle,
                last_kernel_time: kernel,
                last_user_time: user,
            }),
            final(self).process == old(self).process,
    {
        self.system.update(idle, kernel, user)
    }

    /// Takes a reading of this process's kernel and user times; a process
    /// has no idle time.
    pub fn update_process_time(&mut self, kernel: i64, user: i64) -> (r: (i32, i32))
        ensures
            r == perf_delta(old(self).process, 0, kernel, user),
            final(self).process == (PerfRecord {
                last_idle_time: 0,
                last_kernel_time: kernel,
                last_user_time: user,
            }),
            final(self).system == old(self).system,
    {
        self.process.update(0, kernel, user)
    }
}

} // verus!

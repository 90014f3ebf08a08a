//! The decisions of the CPU and heap profiling endpoints: which requests are
//! accepted, and how a finished profile is labelled in the response.
use vstd::prelude::*;

verus! {

/// The longest CPU profile that may be requested, in seconds.
pub const MAX_PROFILE_SECS: u64 = 300;

/// The highest sampling frequency that may be requested, in Hz.
pub const MAX_PROFILE_FREQUENCY: i32 = 10000;

/// The status of a refused request (400 Bad Request).
pub const BAD_REQUEST: u16 = 400;

/// The status of the endpoints when profiling was not built in (501).
pub const NOT_IMPLEMENTED: u16 = 501;

/// The body of the endpoints when profiling was not built in.
pub const PROFILING_DISABLED_MESSAGE: &'static str =
    "Profiling feature not enabled. Rebuild with --features profiling";

/// The output of a CPU profile.
#[derive(Debug, Clone, Copy, PartialEq, Eq, Structural)]
pub enum ProfileFormat {
    Flamegraph,
    Protobuf,
}

impl Default for ProfileFormat {
    fn default() -> (r: Self)
        ensures
            r == ProfileFormat::Flamegraph,
    {
        ProfileFormat::Flamegraph
    }
}

/// The query of a CPU profile request.
#[derive(Debug, Clone, Copy)]
pub struct ProfileParams {
    pub duration_secs: u64,
    pub format: ProfileFormat,
    pub frequency: i32,
}

/// The duration used when a request names none.
pub fn default_duration() -> (r: u64)
    ensures
        r == 30,
{
    30
}

/// The frequency used when a request names none: 99 Hz rather than 100, so
/// that sampling does not run in lock-step with other timers.
pub fn default_frequency() -> (r: i32)
    ensures
        r == 99,
{
    99
}

impl Default for ProfileParams {
    fn default() -> (r: Self)
        ensures
            r.duration_secs == 30,
            r.format == ProfileFormat::Flamegraph,
            r.frequency == 99,
    {
        ProfileParams {
            duration_secs: default_duration(),
            format: ProfileFormat::Flamegraph,
            frequency: default_frequency(),
        }
    }
}

/// Whether a CPU profile request is accepted: a duration from 1 to 300
/// seconds and a frequency from 1 to 10000 Hz.
pub open spec fn profile_params_valid(p: ProfileParams) -> bool {
    &&& 1 <= p.duration_secs <= MAX_PROFILE_SECS
    &&& 1 <= p.frequency <= MAX_PROFILE_FREQUENCY
}

/// Checks a CPU profile request; a refused one is answered 400.
pub fn check_profile_params(params: &ProfileParams) -> (r: Result<(), u16>)
    ensures
        profile_params_valid(*params) ==> r is Ok,
        !profile_params_valid(*params) ==> r == Err::<(), u16>(BAD_REQUEST),
{
    if params.duration_secs == 0 || params.duration_secs > MAX_PROFILE_SECS {
        return Err(BAD_REQUEST);
    }
    if params.frequency < 1 || params.frequency > MAX_PROFILE_FREQUENCY {
        return Err(BAD_REQUEST);
    }
    Ok(())
}

/// The content type of a finished CPU profile and, for a download, its
/// content disposition.
pub fn profile_headers(format: ProfileFormat) -> (r: (&'static str, Option<&'static str>))
    ensures
        format == ProfileFormat::Flamegraph ==> r.0@ == "image/svg+xml"@ && r.1 is None,
        format == ProfileFormat::Protobuf ==> r.0@ == "application/octet-stream"@ && (r.1 matches Some(
            d,
        ) && d@ == "attachment; filename=\"profile.pb\""@),
{
    match format {
        ProfileFormat::Flamegraph => ("image/svg+xml", None),
        ProfileFormat::Protobuf => ("application/octet-stream", Some("attachment; filename=\"profile.pb\"")),
    }
}

/// The content type and disposition of a heap profile.
pub fn heap_profile_headers() -> (r: (&'static str, &'static str))
    ensures
        r.0@ == "application/octet-stream"@,
        r.1@ == "attachment; filename=\"heap.pb.gz\""@,
{
    ("application/octet-stream", "attachment; filename=\"heap.pb.gz\"")
}

/// The libraries left out of CPU samples, so that the profiler does not
/// profile its own stack walking.
pub fn profiler_blocklist() -> (r: Vec<&'static str>)
    ensures
        r@.len() == 6,
        r@[0]@ == "libc"@,
        r@[1]@ == "libgcc"@,
        r@[2]@ == "pthread"@,
        r@[3]@ == "vdso"@,
        r@[4]@ == "libunwind"@,
        r@[5]@ == "backtrace"@,
{
    vec!["libc", "libgcc", "pthread", "vdso", "libunwind", "backtrace"]
}

} // verus!

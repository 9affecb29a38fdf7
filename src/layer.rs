//! The formatter: the instant it started, and the rendering of one event
//! against it.

use vstd::prelude::*;
use crate::level::{channel_of, Severity, StandardOutput};
use crate::render::{format_line, line_text, opt_view};
use crate::visitor::FmtEventVisitor;

verus! {

#[verifier::external_type_specification]
#[verifier::external_body]
pub struct ExInstant(std::time::Instant);

/// Relies on `Instant::now`: reads the monotonic clock.
#[verifier::external_body]
fn instant_now() -> std::time::Instant {
    std::time::Instant::now()
}

/// Relies on `Instant::duration_since`: the time from `earlier` to `later`,
/// zero when `earlier` is the later of the two.
#[verifier::external_body]
fn duration_since(later: &std::time::Instant, earlier: &std::time::Instant) -> core::time::Duration {
    later.duration_since(*earlier)
}

/// Relies on `Duration::as_secs`: the whole seconds of a duration.
pub assume_specification[ core::time::Duration::as_secs ](d: &core::time::Duration) -> u64;

/// Relies on `Duration::subsec_nanos`: the fractional part of a duration in
/// nanoseconds, which is always less than one second.
pub assume_specification[ core::time::Duration::subsec_nanos ](d: &core::time::Duration) -> (r: u32)
    ensures
        r < 1_000_000_000,
;

/// Output messages to standard streams.
///
/// ERROR/WARN go to stderr.
/// All others to go to stdout.
pub struct FmtLayer {
    start: std::time::Instant,
}

impl FmtLayer {
    /// A formatter whose elapsed times count from now.
    pub fn new() -> Self {
        FmtLayer { start: instant_now() }
    }

    /// The time since this formatter was made, as whole seconds and the
    /// nanoseconds of the second under way.
    pub fn elapsed(&self) -> (r: (u64, u32))
        ensures
            r.1 < 1_000_000_000,
    {
        let now = instant_now();
        let d = duration_since(&now, &self.start);
        (d.as_secs(), d.subsec_nanos())
    }

    /// Renders one event: the stream it goes to and the line written there,
    /// stamped with the time since this formatter was made.
    pub fn format_event(
        &self,
        level: Severity,
        module: Option<&str>,
        spans: &Vec<String>,
        visitor: &FmtEventVisitor,
    ) -> (r: (StandardOutput, String))
        ensures
            r.0 == channel_of(level),
            exists|secs: nat, nanos: nat|
                nanos < 1_000_000_000 && r.1@ == line_text(
                    secs,
                    nanos,
                    level,
                    spans.deep_view(),
                    opt_view(module),
                    visitor@,
                ),
    {
        let (secs, nanos) = self.elapsed();
        let line = format_line(secs, nanos, level, spans, module, visitor.message());
        let output = StandardOutput::new(&level);
        assert(line@ == line_text(
            secs as nat,
            nanos as nat,
            level,
            spans.deep_view(),
            opt_view(module),
            visitor@,
        ));
        (output, line)
    }
}

} // verus!

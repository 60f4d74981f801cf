//! The profiler lifecycle: a single slot that is either absent (inactive)
//! or holds a fully populated session (active); never anything in between.
//!
//! The process-wide plumbing owns one `ProfilerSlot` behind a mutex and
//! drives it: `start_prepare` makes every decision that can fail before any
//! handler is touched, the caller installs the tick handler, `start_commit`
//! populates the slot (the slot is whole before any tick can find it), and
//! only then is the interval timer armed. On each tick the handler
//! try-locks the mutex and calls `record_tick`; a tick that finds the lock
//! held, or the slot empty, is dropped. `stop_take` empties the slot and
//! hands back the serialized artifact, so no later tick can touch the
//! report; the caller then writes the file and uninstalls the handler.

use vstd::prelude::*;

use crate::errors::ProfError;
use crate::frames::{
    frame_strc, spec_record, sum_counts, sum_strs, sum_syms, sym_strc, FrameView, Report,
    SymbolView,
};
use crate::pprof::{render_profile, spec_profile_bytes};
use crate::resolver::{
    build_debug_context, debug_frame_of, dwarf_loads, extract_frame, function_index, image_parses,
    img_function, img_location, location_index, spec_resolve, DebugContext,
};
use crate::timer::{period_of, Timer, Timing};

verus! {

/// One active profiling session: output name, the observed machine's
/// address, the resolver, the timer record, and the growing report.
struct Session {
    fname: String,
    machine_addr: usize,
    context: DebugContext,
    timer: Timer,
    report: Report,
}

/// The profiler slot: absent or a whole session.
pub struct ProfilerSlot {
    session: Option<Session>,
}

/// Everything a successful `start_prepare` decided: the built resolver and
/// the validated frequency.
pub struct PreparedStart {
    context: DebugContext,
    frequency: i32,
}

impl PreparedStart {
    pub closed spec fn context_spec(&self) -> DebugContext {
        self.context
    }

    pub closed spec fn frequency_spec(&self) -> i32 {
        self.frequency
    }

    pub open spec fn wf(&self) -> bool {
        self.frequency_spec() >= 1
    }
}

/// The result of a successful stop: where to write, the timing snapshot,
/// and the serialized profile message.
pub struct StopOutput {
    pub fname: String,
    pub timing: Timing,
    pub data: Vec<u8>,
}

/// Whether one more tick for frame `f` fits the machine-width totals.
/// In practice these bounds are unreachable; a tick that would overflow
/// them is dropped like a contended one.
pub open spec fn tick_limits(s: Seq<(FrameView, u64)>, f: FrameView) -> bool {
    &&& sum_counts(s) < u64::MAX
    &&& sum_syms(s) + f.len() <= u64::MAX
    &&& sum_strs(s) + frame_strc(f) <= u64::MAX - 3
}

impl ProfilerSlot {
    /// Whether a session is active.
    pub closed spec fn is_active(&self) -> bool {
        self.session is Some
    }

    /// The active session's report entries.
    pub closed spec fn active_report(&self) -> Seq<(FrameView, u64)> {
        match self.session {
            Some(s) => s.report@,
            None => Seq::empty(),
        }
    }

    /// The active session's recorded tick total.
    pub closed spec fn active_total(&self) -> u64 {
        match self.session {
            Some(s) => s.report.total(),
            None => 0,
        }
    }

    /// The active session's output path.
    pub closed spec fn active_fname(&self) -> Seq<char> {
        match self.session {
            Some(s) => s.fname@,
            None => Seq::empty(),
        }
    }

    /// The active session's machine address.
    pub closed spec fn active_machine_addr(&self) -> usize {
        match self.session {
            Some(s) => s.machine_addr,
            None => 0,
        }
    }

    /// The active session's resolver.
    pub closed spec fn active_context(&self) -> DebugContext {
        match self.session {
            Some(s) => s.context,
            None => arbitrary(),
        }
    }

    /// The active session's sampling frequency.
    pub closed spec fn active_frequency(&self) -> u64 {
        match self.session {
            Some(s) => s.timer.frequency(),
            None => 1,
        }
    }

    /// The active session's start instant.
    pub closed spec fn active_start_nanos(&self) -> u64 {
        match self.session {
            Some(s) => s.timer.start_nanos(),
            None => 0,
        }
    }

    /// An absent slot is well formed; a present one is whole: a
    /// well-formed report and a positive-frequency timer.
    pub closed spec fn wf(&self) -> bool {
        match self.session {
            Some(s) => s.report.wf() && s.timer.wf(),
            None => true,
        }
    }

    /// A fresh, inactive slot.
    pub fn new() -> (r: ProfilerSlot)
        ensures
            !r.is_active(),
            r.wf(),
    {
        ProfilerSlot { session: None }
    }
}

/// Whether a session is active: true exactly between a successful start
/// and the stop that matches it.
pub fn is_profiler_started(slot: &ProfilerSlot) -> (r: bool)
    ensures
        r == slot.is_active(),
{
    slot.session.is_some()
}

/// Every start-time decision that can fail, taken before any handler or
/// timer is touched, so that a failed start leaves no trace: rejects a
/// start while active (`AlreadyStarted`) and a non-positive frequency
/// (`InvalidArgument`), then builds the resolver from the image
/// (`ImageParse`, `DebugLoad`, `MissingDebugInfo`, exactly as the build
/// states them). A prepared start carries this image's resolver: its
/// lookup indices are exactly `img_location` / `img_function` of the
/// image bytes, and `start_commit` stores it unchanged.
pub fn start_prepare(slot: &ProfilerSlot, image: &[u8], frequency_per_sec: i32) -> (r: Result<
    PreparedStart,
    ProfError,
>)
    ensures
        slot.is_active() ==> (r matches Err(e) && e == ProfError::AlreadyStarted),
        (!slot.is_active() && frequency_per_sec <= 0) ==> (r matches Err(e) && e
            == ProfError::InvalidArgument),
        (!slot.is_active() && frequency_per_sec >= 1) ==> ((r is Ok) == (image_parses(image@)
            && dwarf_loads(image@) && debug_frame_of(image@) is Some)),
        (!slot.is_active() && frequency_per_sec >= 1) ==> (match r {
            Ok(p) => p.wf() && p.frequency_spec() == frequency_per_sec,
            Err(e) => e == (if !image_parses(image@) {
                ProfError::ImageParse
            } else if !dwarf_loads(image@) {
                ProfError::DebugLoad
            } else {
                ProfError::MissingDebugInfo
            }),
        }),
        (r matches Ok(p) ==> forall|pc: u64| #![trigger location_index(p.context_spec(), pc)]
            location_index(p.context_spec(), pc) == img_location(image@, pc)),
        (r matches Ok(p) ==> forall|pc: u64| #![trigger function_index(p.context_spec(), pc)]
            function_index(p.context_spec(), pc) == img_function(image@, pc)),
{
    if is_profiler_started(slot) {
        return Err(ProfError::AlreadyStarted);
    }
    if frequency_per_sec <= 0 {
        return Err(ProfError::InvalidArgument);
    }
    match build_debug_context(image) {
        Ok(context) => Ok(PreparedStart { context, frequency: frequency_per_sec }),
        Err(e) => Err(e),
    }
}

/// Populate the slot with a whole session: the prepared resolver, a fresh
/// empty report, and the timer record started now. The caller installs the
/// tick handler before this call and arms the interval timer only after it
/// returns, so a tick never observes a partial slot.
pub fn start_commit(
    slot: &mut ProfilerSlot,
    fname: String,
    machine_addr: usize,
    prepared: PreparedStart,
)
    requires
        !old(slot).is_active(),
        prepared.wf(),
    ensures
        final(slot).wf(),
        final(slot).is_active(),
        final(slot).active_report() == Seq::<(FrameView, u64)>::empty(),
        final(slot).active_total() == 0,
        final(slot).active_fname() == fname@,
        final(slot).active_machine_addr() == machine_addr,
        final(slot).active_context() == prepared.context_spec(),
        final(slot).active_frequency() == prepared.frequency_spec() as u64,
{
    let PreparedStart { context, frequency } = prepared;
    let timer = Timer::start(frequency);
    let report = Report::new();
    slot.session = Some(Session { fname, machine_addr, context, timer, report });
}

/// The machine address a tick should read the program counter from, when
/// a session is active.
pub fn slot_machine_addr(slot: &ProfilerSlot) -> (r: Option<usize>)
    ensures
        (r is Some) == slot.is_active(),
        (match r {
            Some(a) => a == slot.active_machine_addr(),
            None => true,
        }),
{
    match &slot.session {
        Some(s) => Some(s.machine_addr),
        None => None,
    }
}

/// The body of one tick: resolve the sampled pc and record one occurrence
/// of the resolved frame. A tick on an empty slot changes nothing — after
/// a stop has emptied the slot, no tick mutates any report. A tick that
/// would overflow a machine-width total is dropped.
pub fn record_tick(slot: &mut ProfilerSlot, pc: u64)
    requires
        old(slot).wf(),
    ensures
        final(slot).wf(),
        final(slot).is_active() == old(slot).is_active(),
        !old(slot).is_active() ==> *final(slot) == *old(slot),
        old(slot).is_active() ==> final(slot).active_fname() == old(slot).active_fname(),
        old(slot).is_active() ==> final(slot).active_machine_addr() == old(slot).active_machine_addr(),
        old(slot).is_active() ==> final(slot).active_context() == old(slot).active_context(),
        old(slot).is_active() ==> final(slot).active_frequency() == old(slot).active_frequency(),
        old(slot).is_active() ==> final(slot).active_start_nanos() == old(slot).active_start_nanos(),
        (old(slot).is_active() && tick_limits(
            old(slot).active_report(),
            spec_resolve(old(slot).active_context(), pc),
        )) ==> (final(slot).active_report() == spec_record(
            old(slot).active_report(),
            spec_resolve(old(slot).active_context(), pc),
        ) && final(slot).active_total() == old(slot).active_total() + 1),
        (old(slot).is_active() && !tick_limits(
            old(slot).active_report(),
            spec_resolve(old(slot).active_context(), pc),
        )) ==> (final(slot).active_report() == old(slot).active_report() && final(slot).active_total() == old(slot).active_total()),
{
    match &mut slot.session {
        None => {},
        Some(sess) => {
            let frame = extract_frame(pc, &sess.context);
            proof {
                assert(spec_resolve(sess.context, pc).len() == 1);
                assert(frame.stacks@.len() == 1);
            }
            let has_file = frame.stacks[0].file.is_some();
            let strc: u64 = if has_file {
                2
            } else {
                1
            };
            proof {
                let f = spec_resolve(sess.context, pc);
                assert(f.drop_first() =~= Seq::<SymbolView>::empty());
                assert(frame_strc(Seq::<SymbolView>::empty()) == 0);
                assert(frame@[0] == frame.stacks@[0]@);
                assert((f[0].file is Some) == has_file);
                assert(frame_strc(f) == sym_strc(f.first()));
                assert(frame_strc(f) == strc);
                sess.report.lemma_wf_sums();
            }
            let ok = sess.report.total_count() < u64::MAX && sess.report.sym_count() <= u64::MAX
                - 1 && sess.report.str_count() <= u64::MAX - 3 - strc;
            if ok {
                sess.report.record(frame);
            }
        },
    }
}

/// Stop the session: take it out of the slot (so the slot is inactive the
/// moment this returns), snapshot the timing, and serialize the report.
/// On an inactive slot, `NotStarted` and no change. The caller writes the
/// returned bytes to the returned path and uninstalls the handler; even if
/// that write fails, the slot stays cleared.
pub fn stop_take(slot: &mut ProfilerSlot) -> (r: Result<StopOutput, ProfError>)
    requires
        old(slot).wf(),
    ensures
        final(slot).wf(),
        !final(slot).is_active(),
        !old(slot).is_active() ==> *final(slot) == *old(slot),
        !old(slot).is_active() ==> (r matches Err(e) && e == ProfError::NotStarted),
        old(slot).is_active() ==> (r matches Ok(out) && out.fname@ == old(slot).active_fname()
            && out.timing.start_time_nanos == old(slot).active_start_nanos()
            && out.timing.period_nanos as int == period_of(old(slot).active_frequency())
            && out.data@ == spec_profile_bytes(
            old(slot).active_report(),
            out.timing.start_time_nanos,
            out.timing.duration_nanos,
            out.timing.period_nanos,
        )),
{
    let mut taken: Option<Session> = None;
    core::mem::swap(&mut taken, &mut slot.session);
    match taken {
        None => Err(ProfError::NotStarted),
        Some(sess) => {
            let timing = sess.timer.timing();
            let data = render_profile(&sess.report, &timing);
            Ok(StopOutput { fname: sess.fname, timing, data })
        },
    }
}

} // verus!

use vstd::prelude::*;

verus! {

/// Number of control characters in a terminal attribute set.
pub const NCCS: usize = 32;

/// Value given to the inter-byte timeout in raw mode, in tenths of a second.
pub const RAW_TIMEOUT: u8 = 8;

/// A terminal's attributes as plain values: the four flag words, the control
/// characters and the two line speeds.
#[derive(Clone, Copy, Debug, PartialEq, Eq)]
pub struct TermAttrs {
    pub iflag: u32,
    pub oflag: u32,
    pub cflag: u32,
    pub lflag: u32,
    pub cc: [u8; 32],
    pub ispeed: u32,
    pub ospeed: u32,
}

/// The platform's values of the flags and control-character slots that raw
/// mode touches.
#[derive(Clone, Copy, Debug, PartialEq, Eq)]
pub struct RawFlags {
    pub brkint: u32,
    pub icrnl: u32,
    pub inpck: u32,
    pub istrip: u32,
    pub ixon: u32,
    pub opost: u32,
    pub cs8: u32,
    pub echo: u32,
    pub icanon: u32,
    pub iexten: u32,
    pub isig: u32,
    pub vmin: usize,
    pub vtime: usize,
}

impl RawFlags {
    pub open spec fn wf(&self) -> bool {
        self.vmin < NCCS && self.vtime < NCCS
    }
}

/// `r` is raw mode derived from `a`: break, CR-to-NL mapping, parity,
/// stripping and flow control off on input; output post-processing off;
/// 8-bit characters; echo, canonical mode, extended input and signal keys
/// off; a read waits for no minimum count, with the raw-mode inter-byte
/// timeout. The speeds are kept.
pub open spec fn is_raw_of(r: TermAttrs, a: TermAttrs, f: RawFlags) -> bool {
    &&& r.iflag == a.iflag & !(f.brkint | f.icrnl | f.inpck | f.istrip | f.ixon)
    &&& r.oflag == a.oflag & !f.opost
    &&& r.cflag == a.cflag | f.cs8
    &&& r.lflag == a.lflag & !(f.echo | f.icanon | f.iexten | f.isig)
    &&& r.cc@ == a.cc@.update(f.vmin as int, 0u8).update(f.vtime as int, RAW_TIMEOUT)
    &&& r.ispeed == a.ispeed
    &&& r.ospeed == a.ospeed
}

impl TermAttrs {
    /// The raw-mode attribute set derived from these attributes.
    pub fn make_raw(&self, f: &RawFlags) -> (r: TermAttrs)
        requires
            f.wf(),
        ensures
            is_raw_of(r, *self, *f),
    {
        let mut cc = self.cc;
        cc[f.vmin] = 0;
        cc[f.vtime] = RAW_TIMEOUT;
        TermAttrs {
            iflag: self.iflag & !(f.brkint | f.icrnl | f.inpck | f.istrip | f.ixon),
            oflag: self.oflag & !f.opost,
            cflag: self.cflag | f.cs8,
            lflag: self.lflag & !(f.echo | f.icanon | f.iexten | f.isig),
            cc,
            ispeed: self.ispeed,
            ospeed: self.ospeed,
        }
    }
}

/// Where a terminal session stands in its lifetime.
#[derive(Clone, Copy, Debug, PartialEq, Eq, Structural)]
pub enum Phase {
    Uninitialized,
    Captured,
    Raw,
    Restored,
}

/// The controller of a terminal session: it holds the attributes captured at
/// start and decides which attribute set is to be applied at each step. A
/// step that returns `Some(a)` asks the caller to apply `a`; `None` asks for
/// nothing. The attributes are restored at most once.
#[derive(Clone, Copy, Debug)]
pub struct TermSession {
    phase: Phase,
    saved: TermAttrs,
}

/// The terminal's attributes after a step's request is carried out.
pub open spec fn apply(term: TermAttrs, req: Option<TermAttrs>) -> TermAttrs {
    match req {
        Some(a) => a,
        None => term,
    }
}

impl TermSession {
    pub closed spec fn phase_spec(&self) -> Phase {
        self.phase
    }

    /// The captured attributes; meaningful once the phase has left `Uninitialized`.
    pub closed spec fn saved_spec(&self) -> TermAttrs {
        self.saved
    }

    /// The session and request that restoring from `self` gives.
    pub open spec fn restore_step(self) -> (TermSession, Option<TermAttrs>) {
        if self.phase_spec() == Phase::Captured || self.phase_spec() == Phase::Raw {
            (self.with_phase(Phase::Restored), Some(self.saved_spec()))
        } else {
            (self, None)
        }
    }

    pub closed spec fn with_phase(self, p: Phase) -> TermSession {
        TermSession { phase: p, ..self }
    }

    /// The session and result that capturing `current` from `self` gives.
    pub open spec fn capture_step(self, current: TermAttrs) -> (TermSession, bool) {
        if self.phase_spec() == Phase::Uninitialized {
            (self.with_saved(current).with_phase(Phase::Captured), true)
        } else {
            (self, false)
        }
    }

    pub closed spec fn with_saved(self, a: TermAttrs) -> TermSession {
        TermSession { saved: a, ..self }
    }

    /// The session that entering raw mode from `self` leaves.
    pub open spec fn enter_raw_step(self) -> TermSession {
        if self.phase_spec() == Phase::Captured {
            self.with_phase(Phase::Raw)
        } else {
            self
        }
    }

    pub proof fn lemma_with(self, p: Phase, a: TermAttrs)
        ensures
            self.with_phase(p).phase_spec() == p,
            self.with_phase(p).saved_spec() == self.saved_spec(),
            self.with_saved(a).saved_spec() == a,
            self.with_saved(a).phase_spec() == self.phase_spec(),
    {
    }

    /// A session that has captured nothing yet.
    pub fn new() -> (r: TermSession)
        ensures
            r.phase_spec() == Phase::Uninitialized,
    {
        TermSession {
            phase: Phase::Uninitialized,
            saved: TermAttrs {
                iflag: 0,
                oflag: 0,
                cflag: 0,
                lflag: 0,
                cc: [0u8; 32],
                ispeed: 0,
                ospeed: 0,
            },
        }
    }

    pub fn phase(&self) -> (r: Phase)
        ensures
            r == self.phase_spec(),
    {
        self.phase
    }

    /// The captured attributes, once there are any.
    pub fn saved(&self) -> (r: Option<TermAttrs>)
        ensures
            r == (if self.phase_spec() == Phase::Uninitialized {
                None
            } else {
                Some(self.saved_spec())
            }),
    {
        if self.phase == Phase::Uninitialized {
            None
        } else {
            Some(self.saved)
        }
    }

    /// Records the terminal's current attributes. Only the first capture
    /// counts: later ones change nothing and return `false`.
    pub fn capture(&mut self, current: TermAttrs) -> (r: bool)
        ensures
            (*final(self), r) == old(self).capture_step(current),
            r == (old(self).phase_spec() == Phase::Uninitialized),
            r ==> final(self).phase_spec() == Phase::Captured
                && final(self).saved_spec() == current,
            !r ==> *final(self) == *old(self),
    {
        if self.phase == Phase::Uninitialized {
            self.phase = Phase::Captured;
            self.saved = current;
            true
        } else {
            false
        }
    }

    /// Enters raw mode: from `Captured`, returns the raw attribute set derived
    /// from the captured one; from any other phase, changes nothing.
    pub fn enter_raw(&mut self, f: &RawFlags) -> (r: Option<TermAttrs>)
        requires
            f.wf(),
        ensures
            *final(self) == old(self).enter_raw_step(),
            old(self).phase_spec() == Phase::Captured ==> {
                &&& r is Some
                &&& is_raw_of(r->0, old(self).saved_spec(), *f)
            },
            old(self).phase_spec() != Phase::Captured ==> r is None,
    {
        if self.phase == Phase::Captured {
            self.phase = Phase::Raw;
            Some(self.saved.make_raw(f))
        } else {
            None
        }
    }

    /// Restores the captured attributes: from `Captured` or `Raw`, returns
    /// them and moves to `Restored`; otherwise changes nothing.
    pub fn restore(&mut self) -> (r: Option<TermAttrs>)
        ensures
            (*final(self), r) == old(self).restore_step(),
    {
        if self.phase == Phase::Captured || self.phase == Phase::Raw {
            self.phase = Phase::Restored;
            Some(self.saved)
        } else {
            None
        }
    }
}

/// A request that reaches the controller: entering raw mode, or restoring
/// (on an exit command or on a termination signal).
pub enum Step {
    EnterRaw,
    Restore,
}

/// The session after `steps`, and how many of them restored the terminal.
pub open spec fn run(s: TermSession, steps: Seq<Step>) -> (TermSession, nat)
    decreases steps.len(),
{
    if steps.len() == 0 {
        (s, 0)
    } else {
        let (s1, n1) = match steps[0] {
            Step::EnterRaw => (s.enter_raw_step(), 0nat),
            Step::Restore => {
                let (s1, req) = s.restore_step();
                (s1, if req is Some { 1nat } else { 0nat })
            },
        };
        let (s2, n2) = run(s1, steps.drop_first());
        (s2, n1 + n2)
    }
}

pub open spec fn is_restore(st: Step) -> bool {
    st matches Step::Restore
}

/// Restoring twice in a row leaves the terminal as restoring once does: the
/// second restore requests nothing, and after a session that had captured
/// attributes the terminal holds exactly those.
pub proof fn lemma_restore_idempotent(s: TermSession, term: TermAttrs)
    ensures
        ({
            let (s1, r1) = s.restore_step();
            let (s2, r2) = s1.restore_step();
            &&& r2 is None
            &&& s2 == s1
            &&& apply(apply(term, r1), r2) == apply(term, r1)
            &&& (s.phase_spec() == Phase::Captured || s.phase_spec() == Phase::Raw)
                ==> apply(apply(term, r1), r2) == s.saved_spec()
        }),
{
    s.lemma_with(Phase::Restored, term);
}

/// Capturing `t0`, entering raw mode (whatever raw set was applied) and
/// restoring leaves the terminal with `t0`, field for field.
pub proof fn lemma_raw_round_trip(s: TermSession, t0: TermAttrs, raw: TermAttrs)
    requires
        s.phase_spec() == Phase::Uninitialized,
    ensures
        ({
            let s1 = s.capture_step(t0).0;
            let s2 = s1.enter_raw_step();
            let (s3, req) = s2.restore_step();
            &&& s1.phase_spec() == Phase::Captured
            &&& s2.phase_spec() == Phase::Raw
            &&& s3.phase_spec() == Phase::Restored
            &&& req == Some(t0)
            &&& apply(apply(t0, Some(raw)), req) == t0
        }),
{
    s.lemma_with(Phase::Captured, t0);
    let s1 = s.with_saved(t0);
    s1.lemma_with(Phase::Captured, t0);
    let s2 = s1.with_phase(Phase::Captured);
    s2.lemma_with(Phase::Raw, t0);
    let s3 = s2.with_phase(Phase::Raw);
    s3.lemma_with(Phase::Restored, t0);
}

/// Whatever order raw-mode and restore requests come in, the terminal is
/// restored at most once; from a captured or raw session, a sequence that
/// holds a restore request restores it exactly once and ends `Restored`.
pub proof fn lemma_restored_once(s: TermSession, steps: Seq<Step>)
    requires
        s.phase_spec() != Phase::Uninitialized,
    ensures
        run(s, steps).1 <= 1,
        s.phase_spec() == Phase::Restored ==> run(s, steps).1 == 0 && run(s, steps).0 == s,
        (s.phase_spec() != Phase::Restored && exists|i: int|
            0 <= i < steps.len() && is_restore(#[trigger] steps[i])) ==> {
            &&& run(s, steps).1 == 1
            &&& run(s, steps).0.phase_spec() == Phase::Restored
        },
    decreases steps.len(),
{
    if steps.len() > 0 {
        s.lemma_with(Phase::Raw, s.saved_spec());
        s.lemma_with(Phase::Restored, s.saved_spec());
        let s1 = match steps[0] {
            Step::EnterRaw => s.enter_raw_step(),
            Step::Restore => s.restore_step().0,
        };
        lemma_restored_once(s1, steps.drop_first());
        if s.phase_spec() != Phase::Restored && exists|i: int|
            0 <= i < steps.len() && is_restore(#[trigger] steps[i]) {
            if !is_restore(steps[0]) {
                let i = choose|i: int| 0 <= i < steps.len() && is_restore(#[trigger] steps[i]);
                assert(steps.drop_first()[i - 1] == steps[i]);
                assert(is_restore(steps.drop_first()[i - 1]));
            }
        }
    }
}

} // verus!

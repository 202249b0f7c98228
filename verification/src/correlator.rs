//! Session correlator: maps the externally supplied session identifier to a
//! durable internal run identity, holding at most one session current at a
//! time.
//!
//! An explicit init and an implicit (just-in-time) creation follow the same
//! transition rule: a matching identifier continues the current session with
//! its already-assigned run identity; anything else finalizes the current
//! session and opens a fresh one whose run identity carries a caller-supplied
//! random disambiguator.

use vstd::prelude::*;
use vstd::string::StrSliceExecFns;
use vstd::string::StringExecFns;
use crate::codec::dec_digits;

verus! {

/// The current session: external identifier, derived internal run identity,
/// and the tick at which it was created.
pub struct Session {
    pub external_id: String,
    pub internal_run_id: String,
    pub created_tick: u64,
}

pub struct SessionView {
    pub external_id: Seq<char>,
    pub internal_run_id: Seq<char>,
    pub created_tick: u64,
}

impl View for Session {
    type V = SessionView;

    open spec fn view(&self) -> SessionView {
        SessionView {
            external_id: self.external_id@,
            internal_run_id: self.internal_run_id@,
            created_tick: self.created_tick,
        }
    }
}

/// The internal run identity: the external identifier, an underscore, and
/// the decimal rendering of the random disambiguator.
pub open spec fn run_id_of(ext: Seq<char>, suffix: u32) -> Seq<char> {
    ext + seq!['_'] + dec_digits(suffix as nat)
}

/// What one observation of an external identifier does to the current slot.
pub struct StepResult {
    pub next: Option<SessionView>,
    pub run_id: Seq<char>,
    pub finalized: Option<Seq<char>>,
    pub created: bool,
}

/// The transition rule shared by explicit init and just-in-time creation.
pub open spec fn step(cur: Option<SessionView>, ext: Seq<char>, tick: u64, suffix: u32) -> StepResult {
    match cur {
        Some(s) => if s.external_id == ext {
            StepResult { next: cur, run_id: s.internal_run_id, finalized: None, created: false }
        } else {
            StepResult {
                next: Some(
                    SessionView {
                        external_id: ext,
                        internal_run_id: run_id_of(ext, suffix),
                        created_tick: tick,
                    },
                ),
                run_id: run_id_of(ext, suffix),
                finalized: Some(s.internal_run_id),
                created: true,
            }
        },
        None => StepResult {
            next: Some(
                SessionView {
                    external_id: ext,
                    internal_run_id: run_id_of(ext, suffix),
                    created_tick: tick,
                },
            ),
            run_id: run_id_of(ext, suffix),
            finalized: None,
            created: true,
        },
    }
}

/// What an observation reported: the now-current run identity, the run
/// identity of a session that was finalized by this observation, and whether
/// a new session was created.
pub struct SessionChange {
    pub run_id: String,
    pub finalized: Option<String>,
    pub created: bool,
}

/// The correlator: at most one current session.
pub struct Correlator {
    current: Option<Session>,
}

impl Correlator {
    /// The current session, if any.
    pub closed spec fn current_session(self) -> Option<SessionView> {
        match self.current {
            Some(s) => Some(s@),
            None => None,
        }
    }

    pub fn new() -> (r: Self)
        ensures
            r.current_session() is None,
    {
        Correlator { current: None }
    }

    /// The run identity of the current session, if one is current.
    pub fn current_run_id(&self) -> (r: Option<String>)
        ensures
            match r {
                Some(id) => self.current_session() is Some && id@
                    == self.current_session()->Some_0.internal_run_id,
                None => self.current_session() is None,
            },
    {
        match &self.current {
            Some(s) => Some(s.internal_run_id.clone()),
            None => None,
        }
    }

    /// Observe an external identifier, explicitly or just in time. The
    /// outcome follows `step` exactly: a matching current session is kept
    /// unchanged, any other is finalized and replaced.
    pub fn observe(&mut self, ext: &str, tick: u64, suffix: u32) -> (r: SessionChange)
        ensures
            final(self).current_session() == step(
                old(self).current_session(),
                ext@,
                tick,
                suffix,
            ).next,
            r.run_id@ == step(old(self).current_session(), ext@, tick, suffix).run_id,
            match r.finalized {
                Some(f) => step(old(self).current_session(), ext@, tick, suffix).finalized
                    == Some(f@),
                None => step(old(self).current_session(), ext@, tick, suffix).finalized
                    is None,
            },
            r.created == step(old(self).current_session(), ext@, tick, suffix).created,
    {
        let ext_owned = ext.to_owned();
        let matches_current = match &self.current {
            Some(s) => s.external_id == ext_owned,
            None => false,
        };
        if matches_current {
            let run_id = match &self.current {
                Some(s) => s.internal_run_id.clone(),
                None => String::new(),
            };
            SessionChange { run_id, finalized: None, created: false }
        } else {
            let finalized = match self.current.take() {
                Some(s) => Some(s.internal_run_id),
                None => None,
            };
            let run_id = make_run_id(ext, suffix);
            self.current = Some(
                Session {
                    external_id: ext_owned,
                    internal_run_id: run_id.clone(),
                    created_tick: tick,
                },
            );
            SessionChange { run_id, finalized, created: true }
        }
    }

    /// Finalize the current session, if any, returning its run identity.
    pub fn close(&mut self) -> (r: Option<String>)
        ensures
            final(self).current_session() is None,
            match r {
                Some(id) => old(self).current_session() is Some && id@
                    == old(self).current_session()->Some_0.internal_run_id,
                None => old(self).current_session() is None,
            },
    {
        match self.current.take() {
            Some(s) => Some(s.internal_run_id),
            None => None,
        }
    }
}

/// Build the internal run identity from the external identifier and the
/// random disambiguator.
pub fn make_run_id(ext: &str, suffix: u32) -> (r: String)
    ensures
        r@ == run_id_of(ext@, suffix),
{
    let r = ext.to_owned().concat("_").concat(crate::codec::u64_to_dec(suffix as u64).as_str());
    proof {
        reveal_strlit("_");
        assert("_"@ =~= seq!['_']);
    }
    r
}

/// Repeated observations of the matching external identifier while a session
/// is current return the same run identity and leave the state unchanged.
pub proof fn lemma_run_id_stable(
    cur: Option<SessionView>,
    ext: Seq<char>,
    t1: u64,
    t2: u64,
    sfx1: u32,
    sfx2: u32,
)
    requires
        cur is Some,
        cur->Some_0.external_id == ext,
    ensures
        step(cur, ext, t1, sfx1).next == cur,
        step(step(cur, ext, t1, sfx1).next, ext, t2, sfx2).run_id == step(
            cur,
            ext,
            t1,
            sfx1,
        ).run_id,
        step(cur, ext, t1, sfx1).run_id == cur->Some_0.internal_run_id,
        !step(cur, ext, t1, sfx1).created,
{
}

} // verus!

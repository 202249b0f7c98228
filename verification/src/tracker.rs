//! Call tracker: the keyed state machine of in-flight instrumented spans.
//!
//! Each span is keyed by a caller-chosen logical identifier; a start inserts
//! a context, a matching end removes it and yields the end-of-span record,
//! and a session transition force-closes everything that is still open.

use vstd::prelude::*;
use vstd::pervasive::VecAdditionalExecFns;
use vstd::string::StrSliceExecFns;
use vstd::string::StringExecFns;
use crate::codec::dec_digits;
use crate::event::pairs_view;

verus! {

/// Context of one in-flight span.
pub struct CallContext {
    pub call_id: String,
    pub trace_id: String,
    pub session_id: String,
    pub start_tick: u64,
    pub inputs: Vec<(String, String)>,
}

pub struct CallContextView {
    pub call_id: Seq<char>,
    pub trace_id: Seq<char>,
    pub session_id: Seq<char>,
    pub start_tick: u64,
    pub inputs: Seq<(Seq<char>, Seq<char>)>,
}

impl View for CallContext {
    type V = CallContextView;

    open spec fn view(&self) -> CallContextView {
        CallContextView {
            call_id: self.call_id@,
            trace_id: self.trace_id@,
            session_id: self.session_id@,
            start_tick: self.start_tick,
            inputs: pairs_view(self.inputs@),
        }
    }
}

/// The record forwarded to the transport when a span ends. The duration is
/// the tick distance from start to end, clamped to zero if the end tick lies
/// before the start tick.
pub struct EndedSpan {
    pub call_id: String,
    pub session_id: String,
    pub end_tick: u64,
    pub duration_ticks: u64,
    pub outputs: Vec<(String, String)>,
    pub success: bool,
}

/// The map of in-flight spans behind a vector of unique keys.
pub struct CallTracker {
    active: Vec<(String, CallContext)>,
}

/// The abstract map held by an entry list, later entries shadowing none
/// because keys are unique.
pub open spec fn map_of(s: Seq<(String, CallContext)>) -> Map<Seq<char>, CallContextView>
    decreases s.len(),
{
    if s.len() == 0 {
        Map::empty()
    } else {
        map_of(s.drop_last()).insert(s.last().0@, s.last().1@)
    }
}

pub open spec fn keys_unique(s: Seq<(String, CallContext)>) -> bool {
    forall|i: int, j: int| 0 <= i < j < s.len() ==> s[i].0@ != s[j].0@
}

proof fn lemma_map_of_contains(s: Seq<(String, CallContext)>, k: Seq<char>)
    ensures
        map_of(s).contains_key(k) <==> exists|i: int| 0 <= i < s.len() && s[i].0@ == k,
    decreases s.len(),
{
    if s.len() > 0 {
        lemma_map_of_contains(s.drop_last(), k);
        if map_of(s).contains_key(k) {
            if s.last().0@ == k {
                assert(s[s.len() - 1].0@ == k);
            } else {
                let i = choose|i: int| 0 <= i < s.drop_last().len() && s.drop_last()[i].0@ == k;
                assert(s[i].0@ == k);
            }
        }
        if exists|i: int| 0 <= i < s.len() && s[i].0@ == k {
            let i = choose|i: int| 0 <= i < s.len() && s[i].0@ == k;
            if i < s.len() - 1 {
                assert(s.drop_last()[i].0@ == k);
            }
        }
    }
}

proof fn lemma_map_of_len(s: Seq<(String, CallContext)>)
    requires
        keys_unique(s),
    ensures
        map_of(s).len() == s.len(),
        map_of(s).dom().finite(),
    decreases s.len(),
{
    if s.len() > 0 {
        assert(keys_unique(s.drop_last()));
        lemma_map_of_len(s.drop_last());
        lemma_map_of_contains(s.drop_last(), s.last().0@);
        assert(forall|i: int| 0 <= i < s.drop_last().len() ==> s[i].0@ != s.last().0@);
        assert(!map_of(s.drop_last()).contains_key(s.last().0@));
    }
}

proof fn lemma_map_of_get(s: Seq<(String, CallContext)>, i: int)
    requires
        keys_unique(s),
        0 <= i < s.len(),
    ensures
        map_of(s).contains_key(s[i].0@),
        map_of(s)[s[i].0@] == s[i].1@,
    decreases s.len(),
{
    if i == s.len() - 1 {
    } else {
        assert(keys_unique(s.drop_last()));
        lemma_map_of_get(s.drop_last(), i);
        assert(s.drop_last()[i] == s[i]);
        assert(s[i].0@ != s.last().0@);
    }
}

proof fn lemma_map_of_update(s: Seq<(String, CallContext)>, i: int, p: (String, CallContext))
    requires
        keys_unique(s),
        0 <= i < s.len(),
        p.0@ == s[i].0@,
    ensures
        map_of(s.update(i, p)) =~= map_of(s).insert(p.0@, p.1@),
    decreases s.len(),
{
    if s.len() > 0 {
        if i == s.len() - 1 {
            assert(s.update(i, p).drop_last() =~= s.drop_last());
            assert(s.update(i, p).last() == p);
        } else {
            assert(s.update(i, p).drop_last() =~= s.drop_last().update(i, p));
            assert(keys_unique(s.drop_last()));
            lemma_map_of_update(s.drop_last(), i, p);
            assert(s.update(i, p).last() == s.last());
            assert(p.0@ != s.last().0@);
        }
    }
}

proof fn lemma_map_of_remove(s: Seq<(String, CallContext)>, i: int)
    requires
        keys_unique(s),
        0 <= i < s.len(),
    ensures
        map_of(s.remove(i)) =~= map_of(s).remove(s[i].0@),
    decreases s.len(),
{
    if s.len() > 0 {
        lemma_map_of_contains(s.drop_last(), s.last().0@);
        if i == s.len() - 1 {
            assert(s.remove(i) =~= s.drop_last());
            assert(forall|j: int| 0 <= j < s.drop_last().len() ==> s[j].0@ != s.last().0@);
            lemma_map_of_contains(s.drop_last(), s.last().0@);
            assert(!map_of(s.drop_last()).contains_key(s.last().0@));
            assert(map_of(s.drop_last()).remove(s.last().0@) =~= map_of(s.drop_last()));
            assert(map_of(s).remove(s[i].0@) =~= map_of(s.drop_last()));
        } else {
            assert(s.remove(i).drop_last() =~= s.drop_last().remove(i));
            assert(s.remove(i).last() == s.last());
            assert(keys_unique(s.drop_last()));
            lemma_map_of_remove(s.drop_last(), i);
            assert(s[i].0@ != s.last().0@);
        }
    }
}

impl CallTracker {
    /// The in-flight spans, keyed by logical identifier.
    pub closed spec fn calls(self) -> Map<Seq<char>, CallContextView> {
        map_of(self.active@)
    }

    /// Keys are unique: one logical identifier maps to at most one context.
    pub closed spec fn wf(self) -> bool {
        keys_unique(self.active@)
    }

    pub fn new() -> (r: Self)
        ensures
            r.wf(),
            r.calls() =~= Map::empty(),
    {
        CallTracker { active: Vec::new() }
    }

    fn find_index(&self, logical_id: &str) -> (r: Option<usize>)
        ensures
            match r {
                Some(i) => i < self.active@.len() && self.active@[i as int].0@ == logical_id@,
                None => forall|i: int| 0 <= i < self.active@.len()
                    ==> self.active@[i].0@ != logical_id@,
            },
    {
        let target = logical_id.to_owned();
        let mut i: usize = 0;
        while i < self.active.len()
            invariant
                i <= self.active@.len(),
                target@ == logical_id@,
                forall|j: int| 0 <= j < i ==> self.active@[j].0@ != logical_id@,
            decreases self.active@.len() - i,
        {
            if self.active[i].0 == target {
                return Some(i);
            }
            i = i + 1;
        }
        None
    }

    /// Whether a span is in flight under this logical identifier.
    pub fn is_call_active(&self, logical_id: &str) -> (r: bool)
        requires
            self.wf(),
        ensures
            r == self.calls().contains_key(logical_id@),
    {
        proof {
            lemma_map_of_contains(self.active@, logical_id@);
        }
        match self.find_index(logical_id) {
            Some(_) => true,
            None => false,
        }
    }

    /// The number of in-flight spans.
    pub fn active_call_count(&self) -> (r: usize)
        requires
            self.wf(),
        ensures
            r == self.calls().len(),
    {
        proof {
            lemma_map_of_len(self.active@);
        }
        self.active.len()
    }

    /// Start a span: insert a context under the logical identifier. A
    /// context already under that key is silently overwritten — callers are
    /// expected not to reuse an unfinished key.
    pub fn start_call(&mut self, logical_id: String, context: CallContext)
        requires
            old(self).wf(),
        ensures
            final(self).wf(),
            final(self).calls() =~= old(self).calls().insert(logical_id@, context@),
    {
        let ghost old_active = self.active@;
        match self.find_index(logical_id.as_str()) {
            Some(i) => {
                proof {
                    lemma_map_of_update(old_active, i as int, (logical_id, context));
                }
                self.active.set(i, (logical_id, context));
                proof {
                    assert forall|a: int, b: int| 0 <= a < b < self.active@.len() implies
                        self.active@[a].0@ != self.active@[b].0@ by {
                        assert(old_active[a].0@ != old_active[b].0@);
                    }
                }
            },
            None => {
                self.active.push((logical_id, context));
                proof {
                    assert(self.active@.drop_last() =~= old_active);
                    assert forall|a: int, b: int| 0 <= a < b < self.active@.len() implies
                        self.active@[a].0@ != self.active@[b].0@ by {
                        if b < self.active@.len() - 1 {
                            assert(old_active[a].0@ != old_active[b].0@);
                        } else {
                            assert(old_active[a].0@ != logical_id@);
                        }
                    }
                }
            },
        }
    }

    /// End a span. If the key is absent, nothing changes and `None` reports
    /// the missing call. If present, the context is removed and the returned
    /// record carries `duration = end_tick - start_tick`, clamped to zero
    /// when the end tick lies before the start tick.
    pub fn end_call(
        &mut self,
        logical_id: &str,
        tick: u64,
        outputs: Vec<(String, String)>,
        success: bool,
    ) -> (r: Option<EndedSpan>)
        requires
            old(self).wf(),
        ensures
            final(self).wf(),
            match r {
                None => !old(self).calls().contains_key(logical_id@) && final(self).calls()
                    =~= old(self).calls(),
                Some(span) => {
                    &&& old(self).calls().contains_key(logical_id@)
                    &&& final(self).calls() =~= old(self).calls().remove(logical_id@)
                    &&& span.call_id@ == old(self).calls()[logical_id@].call_id
                    &&& span.session_id@ == old(self).calls()[logical_id@].session_id
                    &&& span.end_tick == tick
                    &&& span.duration_ticks == (if tick
                        >= old(self).calls()[logical_id@].start_tick {
                        tick - old(self).calls()[logical_id@].start_tick
                    } else {
                        0
                    })
                    &&& pairs_view(span.outputs@) == pairs_view(outputs@)
                    &&& span.success == success
                },
            },
    {
        let ghost old_active = self.active@;
        match self.find_index(logical_id) {
            None => {
                proof {
                    lemma_map_of_contains(old_active, logical_id@);
                }
                None
            },
            Some(i) => {
                proof {
                    lemma_map_of_get(old_active, i as int);
                    lemma_map_of_remove(old_active, i as int);
                }
                let (_, context) = self.active.remove(i);
                proof {
                    assert forall|a: int, b: int| 0 <= a < b < self.active@.len() implies
                        self.active@[a].0@ != self.active@[b].0@ by {
                        let a0: int = if a < i { a } else { a + 1 };
                        let b0: int = if b < i { b } else { b + 1 };
                        assert(self.active@[a] == old_active[a0]);
                        assert(self.active@[b] == old_active[b0]);
                        assert(old_active[a0].0@ != old_active[b0].0@);
                    }
                }
                let duration = if tick >= context.start_tick {
                    tick - context.start_tick
                } else {
                    0
                };
                Some(
                    EndedSpan {
                        call_id: context.call_id,
                        session_id: context.session_id,
                        end_tick: tick,
                        duration_ticks: duration,
                        outputs,
                        success,
                    },
                )
            },
        }
    }

    /// Force-close every in-flight span, as on session transition or
    /// shutdown: the map is emptied and each removed context yields an
    /// end record with `success = false`, no outputs, and zero duration.
    pub fn force_close_all(&mut self) -> (r: Vec<EndedSpan>)
        requires
            old(self).wf(),
        ensures
            final(self).wf(),
            final(self).calls() =~= Map::<Seq<char>, CallContextView>::empty(),
            final(self).calls().len() == 0,
            r@.len() == old(self).calls().len(),
            r@.len() == old(self).keys().len(),
            forall|i: int| 0 <= i < r@.len() ==> {
                &&& (#[trigger] r@[i]).success == false
                &&& r@[i].duration_ticks == 0
                &&& r@[i].outputs@.len() == 0
                &&& old(self).calls().contains_key(old(self).keys()[i])
                &&& r@[i].call_id@ == old(self).calls()[old(self).keys()[i]].call_id
                &&& r@[i].session_id@ == old(self).calls()[old(self).keys()[i]].session_id
                &&& r@[i].end_tick == old(self).calls()[old(self).keys()[i]].start_tick
            },
    {
        proof {
            lemma_map_of_len(self.active@);
        }
        let mut out: Vec<EndedSpan> = Vec::new();
        let mut drained: Vec<(String, CallContext)> = Vec::new();
        core::mem::swap(&mut self.active, &mut drained);
        let ghost old_active = drained@;
        let mut i: usize = 0;
        while i < drained.len()
            invariant
                drained@ == old_active,
                keys_unique(old_active),
                i <= old_active.len(),
                out@.len() == i,
                forall|j: int| 0 <= j < i ==> {
                    &&& (#[trigger] out@[j]).success == false
                    &&& out@[j].duration_ticks == 0
                    &&& out@[j].outputs@.len() == 0
                    &&& out@[j].call_id@ == old_active[j].1.call_id@
                    &&& out@[j].session_id@ == old_active[j].1.session_id@
                    &&& out@[j].end_tick == old_active[j].1.start_tick
                },
            decreases old_active.len() - i,
        {
            let entry = &drained[i];
            out.push(
                EndedSpan {
                    call_id: entry.1.call_id.clone(),
                    session_id: entry.1.session_id.clone(),
                    end_tick: entry.1.start_tick,
                    duration_ticks: 0,
                    outputs: Vec::new(),
                    success: false,
                },
            );
            i = i + 1;
        }
        proof {
            assert forall|j: int| 0 <= j < out@.len() implies {
                &&& (#[trigger] out@[j]).success == false
                &&& out@[j].duration_ticks == 0
                &&& out@[j].outputs@.len() == 0
                &&& old(self).calls().contains_key(old(self).keys()[j])
                &&& out@[j].call_id@ == old(self).calls()[old(self).keys()[j]].call_id
                &&& out@[j].session_id@ == old(self).calls()[old(self).keys()[j]].session_id
                &&& out@[j].end_tick == old(self).calls()[old(self).keys()[j]].start_tick
            } by {
                lemma_map_of_get(old_active, j);
            }
        }
        out
    }

    /// The logical identifiers of the in-flight spans, in insertion order.
    pub closed spec fn keys(self) -> Seq<Seq<char>> {
        self.active@.map_values(|p: (String, CallContext)| p.0@)
    }
}

/// The composite key that lets a research-finished event resolve the span
/// its start opened: the technology name, a colon, and the decimal level.
pub fn research_key(tech_name: &str, tech_level: u32) -> (r: String)
    ensures
        r@ == tech_name@ + seq![':'] + dec_digits(tech_level as nat),
{
    let r = tech_name.to_owned().concat(":").concat(
        crate::codec::u64_to_dec(tech_level as u64).as_str(),
    );
    proof {
        reveal_strlit(":");
        assert(":"@ =~= seq![':']);
    }
    r
}

} // verus!

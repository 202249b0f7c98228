//! Metric merging for the dashboard sink: every item name ever seen in a
//! session is reported on every cycle, with its current value or zero, so
//! that items going inactive drop to zero instead of vanishing.

use vstd::prelude::*;
use vstd::string::StrSliceExecFns;
use vstd::string::StringExecFns;
use crate::event::pairs_view;

verus! {

/// First-match lookup in an association list of name/numeric-text pairs.
pub open spec fn assoc(ps: Seq<(Seq<char>, Seq<char>)>, k: Seq<char>) -> Option<Seq<char>>
    decreases ps.len(),
{
    if ps.len() == 0 {
        None
    } else if ps[0].0 == k {
        Some(ps[0].1)
    } else {
        assoc(ps.skip(1), k)
    }
}

/// The names of `ps` not yet in `seen`, appended in first-occurrence order.
pub open spec fn extend_seen(seen: Seq<Seq<char>>, names: Seq<Seq<char>>) -> Seq<Seq<char>>
    decreases names.len(),
{
    if names.len() == 0 {
        seen
    } else {
        extend_seen(
            if seen.contains(names[0]) {
                seen
            } else {
                seen.push(names[0])
            },
            names.skip(1),
        )
    }
}

/// One reported metric per seen name, in seen order: the prefixed name and
/// the current value, or `"0"` for a name with no value this cycle.
pub open spec fn merged(
    seen: Seq<Seq<char>>,
    ps: Seq<(Seq<char>, Seq<char>)>,
    prefix: Seq<char>,
) -> Seq<(Seq<char>, Seq<char>)> {
    Seq::new(
        seen.len(),
        |i: int| (prefix + seen[i], match assoc(ps, seen[i]) {
            Some(v) => v,
            None => "0"@,
        }),
    )
}

proof fn lemma_extend_seen_snoc(seen: Seq<Seq<char>>, names: Seq<Seq<char>>, x: Seq<char>)
    ensures
        extend_seen(seen, names.push(x)) == (if extend_seen(seen, names).contains(x) {
            extend_seen(seen, names)
        } else {
            extend_seen(seen, names).push(x)
        }),
    decreases names.len(),
{
    if names.len() == 0 {
        let s1 = if seen.contains(x) {
            seen
        } else {
            seen.push(x)
        };
        assert(names.push(x).skip(1) =~= Seq::<Seq<char>>::empty());
        assert(names.push(x)[0] == x);
        assert(extend_seen(s1, Seq::<Seq<char>>::empty()) == s1);
        assert(extend_seen(seen, names) == seen);
    } else {
        let s1 = if seen.contains(names[0]) {
            seen
        } else {
            seen.push(names[0])
        };
        assert(names.push(x)[0] == names[0]);
        assert(names.push(x).skip(1) =~= names.skip(1).push(x));
        lemma_extend_seen_snoc(s1, names.skip(1), x);
        assert(extend_seen(seen, names.push(x)) == extend_seen(s1, names.skip(1).push(x)));
        assert(extend_seen(seen, names) == extend_seen(s1, names.skip(1)));
    }
}

/// Per-session tracker of the metric names seen so far.
pub struct MetricsTracker {
    seen_production: Vec<String>,
    seen_consumption: Vec<String>,
}

/// The names of an association list, in order.
pub open spec fn names_of(ps: Seq<(Seq<char>, Seq<char>)>) -> Seq<Seq<char>> {
    ps.map_values(|p: (Seq<char>, Seq<char>)| p.0)
}

impl MetricsTracker {
    pub closed spec fn seen_production(self) -> Seq<Seq<char>> {
        self.seen_production@.map_values(|s: String| s@)
    }

    pub closed spec fn seen_consumption(self) -> Seq<Seq<char>> {
        self.seen_consumption@.map_values(|s: String| s@)
    }

    pub fn new() -> (r: Self)
        ensures
            r.seen_production() =~= Seq::<Seq<char>>::empty(),
            r.seen_consumption() =~= Seq::<Seq<char>>::empty(),
    {
        MetricsTracker { seen_production: Vec::new(), seen_consumption: Vec::new() }
    }

    /// Forget everything seen, as on session transition.
    pub fn clear(&mut self)
        ensures
            final(self).seen_production() =~= Seq::<Seq<char>>::empty(),
            final(self).seen_consumption() =~= Seq::<Seq<char>>::empty(),
    {
        self.seen_production = Vec::new();
        self.seen_consumption = Vec::new();
    }

    /// Record the names of this cycle and report one metric per seen name:
    /// production metrics first, then consumption metrics, each with its
    /// current value or zero.
    pub fn record_and_merge(
        &mut self,
        production: &Vec<(String, String)>,
        consumption: &Vec<(String, String)>,
    ) -> (r: Vec<(String, String)>)
        ensures
            final(self).seen_production() == extend_seen(
                old(self).seen_production(),
                names_of(pairs_view(production@)),
            ),
            final(self).seen_consumption() == extend_seen(
                old(self).seen_consumption(),
                names_of(pairs_view(consumption@)),
            ),
            pairs_view(r@) =~= merged(
                final(self).seen_production(),
                pairs_view(production@),
                "production/"@,
            ) + merged(final(self).seen_consumption(), pairs_view(consumption@), "consumption/"@),
    {
        record_names(&mut self.seen_production, production);
        record_names(&mut self.seen_consumption, consumption);
        let mut out: Vec<(String, String)> = Vec::new();
        merge_into(&mut out, &self.seen_production, production, "production/");
        let ghost first_half = pairs_view(out@);
        merge_into(&mut out, &self.seen_consumption, consumption, "consumption/");
        proof {
            assert(pairs_view(out@) =~= first_half + merged(
                self.seen_consumption@.map_values(|s: String| s@),
                pairs_view(consumption@),
                "consumption/"@,
            ));
        }
        out
    }
}

fn seen_contains(seen: &Vec<String>, name: &String) -> (r: bool)
    ensures
        r == seen@.map_values(|s: String| s@).contains(name@),
{
    let ghost views = seen@.map_values(|s: String| s@);
    let mut i: usize = 0;
    while i < seen.len()
        invariant
            views == seen@.map_values(|s: String| s@),
            i <= seen@.len(),
            forall|j: int| 0 <= j < i ==> views[j] != name@,
        decreases seen@.len() - i,
    {
        if seen[i] == *name {
            proof {
                assert(views[i as int] == name@);
            }
            return true;
        }
        i = i + 1;
    }
    proof {
        assert(forall|j: int| 0 <= j < views.len() ==> views[j] != name@);
    }
    false
}

fn record_names(seen: &mut Vec<String>, ps: &Vec<(String, String)>)
    ensures
        final(seen)@.map_values(|s: String| s@) == extend_seen(
            old(seen)@.map_values(|s: String| s@),
            names_of(pairs_view(ps@)),
        ),
{
    let ghost names = names_of(pairs_view(ps@));
    let mut i: usize = 0;
    while i < ps.len()
        invariant
            names == names_of(pairs_view(ps@)),
            i <= ps@.len(),
            seen@.map_values(|s: String| s@) == extend_seen(
                old(seen)@.map_values(|s: String| s@),
                names.take(i as int),
            ),
        decreases ps@.len() - i,
    {
        let name = &ps[i].0;
        proof {
            assert(names.take(i + 1 as int) =~= names.take(i as int).push(names[i as int]));
            assert(names[i as int] == name@);
            lemma_extend_seen_snoc(
                old(seen)@.map_values(|s: String| s@),
                names.take(i as int),
                name@,
            );
        }
        if !seen_contains(seen, name) {
            let ghost before = seen@.map_values(|s: String| s@);
            seen.push(name.clone());
            proof {
                assert(seen@.map_values(|s: String| s@) =~= before.push(name@));
            }
        }
        i = i + 1;
    }
    proof {
        assert(names.take(ps@.len() as int) =~= names);
    }
}

fn assoc_or_zero(ps: &Vec<(String, String)>, name: &String) -> (r: String)
    ensures
        r@ == (match assoc(pairs_view(ps@), name@) {
            Some(v) => v,
            None => "0"@,
        }),
{
    let ghost view = pairs_view(ps@);
    proof {
        assert(view.skip(0) =~= view);
    }
    let mut i: usize = 0;
    while i < ps.len()
        invariant
            view == pairs_view(ps@),
            i <= ps@.len(),
            assoc(view, name@) == assoc(view.skip(i as int), name@),
        decreases ps@.len() - i,
    {
        proof {
            assert(view.skip(i as int)[0] == view[i as int]);
            assert(view[i as int] == (ps@[i as int].0@, ps@[i as int].1@));
            assert(view.skip(i as int).skip(1) =~= view.skip(i + 1 as int));
        }
        if ps[i].0 == *name {
            return ps[i].1.clone();
        }
        i = i + 1;
    }
    proof {
        assert(view.skip(ps@.len() as int).len() == 0);
    }
    String::from_str("0")
}

fn merge_into(
    out: &mut Vec<(String, String)>,
    seen: &Vec<String>,
    ps: &Vec<(String, String)>,
    prefix: &str,
)
    ensures
        pairs_view(final(out)@) =~= pairs_view(old(out)@) + merged(
            seen@.map_values(|s: String| s@),
            pairs_view(ps@),
            prefix@,
        ),
{
    let ghost seen_views = seen@.map_values(|s: String| s@);
    let ghost target = merged(seen_views, pairs_view(ps@), prefix@);
    let mut i: usize = 0;
    while i < seen.len()
        invariant
            seen_views == seen@.map_values(|s: String| s@),
            target == merged(seen_views, pairs_view(ps@), prefix@),
            i <= seen@.len(),
            pairs_view(out@) =~= pairs_view(old(out)@) + target.take(i as int),
        decreases seen@.len() - i,
    {
        let name = &seen[i];
        let key = prefix.to_owned().concat(name.as_str());
        let value = assoc_or_zero(ps, name);
        let ghost kv = (key@, value@);
        let ghost before_push = pairs_view(out@);
        out.push((key, value));
        proof {
            assert(pairs_view(out@) =~= before_push.push(kv));
            assert(seen_views[i as int] == name@);
            assert(target[i as int] == kv);
            assert(target.take(i + 1 as int) =~= target.take(i as int).push(target[i as int]));
            assert(pairs_view(out@) =~= pairs_view(old(out)@) + target.take(i + 1 as int));
        }
        i = i + 1;
    }
    proof {
        assert(target.take(seen@.len() as int) =~= target);
    }
}

} // verus!

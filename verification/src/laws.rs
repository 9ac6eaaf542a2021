//! Laws of the traversal, stated and proved over the models.
//!
//! These proof functions state run-wide guarantees that relate several of
//! the operations in [`crate::explorer`]: the run cache bounds the external
//! tool's mutate calls to one per path and run, the counters depend only on
//! what was discovered and not on what the tool answered, and a
//! subdirectory that a matched rule excludes is never enqueued from its
//! parent.

use crate::config::RuleV;
use crate::explorer::{ClassifyV, EntryV, StateModel, spec_attempted, spec_classify,
    spec_classify_from, spec_enqueue_list, spec_first_match, spec_plan, spec_record_attempt,
    spec_rule_candidates, spec_rule_stops};
use crate::paths::{spec_ends_with_slash, spec_join};
use vstd::prelude::*;

verus! {

broadcast use vstd::set::group_set_axioms, vstd::seq::group_seq_axioms;

/// One discovery of an exclusion path, as the worker performs it: when the
/// run cache already holds the path ([`spec_attempted`]) the external tool
/// is not consulted and the state is untouched; otherwise the attempt is
/// made and recorded ([`spec_record_attempt`]).  The second component says
/// whether the tool was consulted.
pub open spec fn spec_gated_attempt(m: StateModel, p: Seq<char>, newly: bool) -> (
    StateModel,
    bool,
) {
    if spec_attempted(m, p) {
        (m, false)
    } else {
        (spec_record_attempt(m, p, newly), true)
    }
}

/// One discovery event of a run: the exclusion path found present on disk,
/// and whether the external tool would report a state change for it.
#[verifier::ext_equal]
pub ghost struct AttemptV {
    pub path: Seq<char>,
    pub newly: bool,
}

/// A whole run's discoveries folded over the state, oldest first.
pub open spec fn spec_run_attempts(m: StateModel, evts: Seq<AttemptV>) -> StateModel
    decreases evts.len(),
{
    if evts.len() == 0 {
        m
    } else {
        spec_run_attempts(
            spec_gated_attempt(m, evts[0].path, evts[0].newly).0,
            evts.drop_first(),
        )
    }
}

/// How often the external tool is consulted for path `p` over a run's
/// discoveries.
pub open spec fn spec_oracle_calls_for(m: StateModel, evts: Seq<AttemptV>, p: Seq<char>) -> int
    decreases evts.len(),
{
    if evts.len() == 0 {
        0
    } else {
        let stepped = spec_gated_attempt(m, evts[0].path, evts[0].newly);
        (if stepped.1 && evts[0].path == p {
            1int
        } else {
            0int
        }) + spec_oracle_calls_for(stepped.0, evts.drop_first(), p)
    }
}

/// Whether some discovery of the run names path `p`.
pub open spec fn spec_some_attempt_names(evts: Seq<AttemptV>, p: Seq<char>) -> bool {
    exists|i: int| 0 <= i < evts.len() && evts[i].path == p
}

/// Law: over any sequence of discoveries, however often a path is
/// rediscovered and whatever the tool answers, the external tool's call
/// for that path happens at most once — and exactly once when the path is
/// discovered at all and was not already in the run cache.
pub proof fn lemma_oracle_called_exactly_once(m: StateModel, evts: Seq<AttemptV>, p: Seq<char>)
    ensures
        spec_oracle_calls_for(m, evts, p) <= 1,
        spec_attempted(m, p) ==> spec_oracle_calls_for(m, evts, p) == 0,
        !spec_attempted(m, p) && spec_some_attempt_names(evts, p) ==> spec_oracle_calls_for(
            m,
            evts,
            p,
        ) == 1,
    decreases evts.len(),
{
    if evts.len() > 0 {
        let stepped = spec_gated_attempt(m, evts[0].path, evts[0].newly);
        assert(spec_attempted(m, p) ==> spec_attempted(stepped.0, p));
        assert(evts[0].path == p ==> spec_attempted(stepped.0, p));
        assert(!spec_attempted(m, p) && evts[0].path != p ==> !spec_attempted(stepped.0, p));
        lemma_oracle_called_exactly_once(stepped.0, evts.drop_first(), p);
        if !spec_attempted(m, p) && spec_some_attempt_names(evts, p) && evts[0].path != p {
            let i = choose|i: int| 0 <= i < evts.len() && evts[i].path == p;
            assert(evts.drop_first()[i - 1].path == p);
            assert(spec_some_attempt_names(evts.drop_first(), p));
        }
    }
}

/// Law: a re-run over an unchanged tree in which the external tool reports
/// every path as already excluded leaves the newly-excluded counter where
/// it was.
pub proof fn lemma_noop_run_leaves_newly(m: StateModel, evts: Seq<AttemptV>)
    requires
        forall|i: int| 0 <= i < evts.len() ==> !evts[i].newly,
    ensures
        spec_run_attempts(m, evts).newly == m.newly,
    decreases evts.len(),
{
    if evts.len() > 0 {
        let stepped = spec_gated_attempt(m, evts[0].path, evts[0].newly);
        assert(stepped.0.newly == m.newly);
        assert forall|i: int| 0 <= i < evts.drop_first().len() implies !evts.drop_first()[i].newly by {
            assert(evts.drop_first()[i] == evts[i + 1]);
        }
        lemma_noop_run_leaves_newly(stepped.0, evts.drop_first());
    }
}

/// Law: the exclusion-found counter and the run cache depend only on which
/// paths a run discovers and in what order — not on what the external tool
/// answered.  With [`lemma_noop_run_leaves_newly`], a re-run over an
/// unchanged tree reports the same exclusion-found count as the first run
/// and zero newly excluded paths.
pub proof fn lemma_found_depends_on_paths_only(
    m1: StateModel,
    m2: StateModel,
    evts1: Seq<AttemptV>,
    evts2: Seq<AttemptV>,
)
    requires
        m1.found == m2.found,
        m1.seen == m2.seen,
        evts1.len() == evts2.len(),
        forall|i: int| 0 <= i < evts1.len() ==> evts1[i].path == evts2[i].path,
    ensures
        spec_run_attempts(m1, evts1).found == spec_run_attempts(m2, evts2).found,
        spec_run_attempts(m1, evts1).seen == spec_run_attempts(m2, evts2).seen,
    decreases evts1.len(),
{
    if evts1.len() > 0 {
        let s1 = spec_gated_attempt(m1, evts1[0].path, evts1[0].newly);
        let s2 = spec_gated_attempt(m2, evts2[0].path, evts2[0].newly);
        assert(s1.0.found == s2.0.found);
        assert(s1.0.seen == s2.0.seen);
        assert forall|i: int| 0 <= i < evts1.drop_first().len() implies evts1.drop_first()[i].path
            == evts2.drop_first()[i].path by {
            assert(evts1.drop_first()[i] == evts1[i + 1]);
            assert(evts2.drop_first()[i] == evts2[i + 1]);
        }
        lemma_found_depends_on_paths_only(s1.0, s2.0, evts1.drop_first(), evts2.drop_first());
    }
}

proof fn lemma_classify_suppress_monotone(
    dir: Seq<char>,
    rules: Seq<RuleV>,
    entries: Seq<EntryV>,
    i: int,
    acc: ClassifyV,
    e: Seq<char>,
)
    requires
        acc.suppress.contains(e),
    ensures
        spec_classify_from(dir, rules, entries, i, acc).suppress.contains(e),
    decreases entries.len() - i,
{
    if 0 <= i < entries.len() {
        match spec_first_match(rules, entries[i].name) {
            None => {
                lemma_classify_suppress_monotone(dir, rules, entries, i + 1, acc, e);
            },
            Some(ri) => {
                let acc2 = ClassifyV {
                    candidates: acc.candidates + spec_rule_candidates(dir, rules[ri]),
                    ..acc
                };
                if !spec_rule_stops(rules[ri]) {
                    let acc3 = ClassifyV { suppress: acc2.suppress + rules[ri].exclusions, ..acc2 };
                    let k = choose|k: int| 0 <= k < acc.suppress.len() && acc.suppress[k] == e;
                    assert(acc3.suppress[k] == e);
                    lemma_classify_suppress_monotone(dir, rules, entries, i + 1, acc3, e);
                }
            },
        }
    }
}

proof fn lemma_classify_covers(
    dir: Seq<char>,
    rules: Seq<RuleV>,
    entries: Seq<EntryV>,
    i: int,
    acc: ClassifyV,
    j: int,
    ri: int,
    e: Seq<char>,
)
    requires
        0 <= i <= j < entries.len(),
        spec_first_match(rules, entries[j].name) == Some(ri),
        0 <= ri < rules.len(),
        rules[ri].exclusions.contains(e),
        !spec_classify_from(dir, rules, entries, i, acc).stopped,
    ensures
        spec_classify_from(dir, rules, entries, i, acc).suppress.contains(e),
    decreases entries.len() - i,
{
    match spec_first_match(rules, entries[i].name) {
        None => {
            assert(i < j);
            lemma_classify_covers(dir, rules, entries, i + 1, acc, j, ri, e);
        },
        Some(rk) => {
            let acc2 = ClassifyV {
                candidates: acc.candidates + spec_rule_candidates(dir, rules[rk]),
                ..acc
            };
            if spec_rule_stops(rules[rk]) {
                assert(spec_classify_from(dir, rules, entries, i, acc).stopped);
            } else {
                let acc3 = ClassifyV { suppress: acc2.suppress + rules[rk].exclusions, ..acc2 };
                if i == j {
                    assert(rk == ri);
                    let k = choose|k: int|
                        0 <= k < rules[ri].exclusions.len() && rules[ri].exclusions[k] == e;
                    assert(acc3.suppress[acc2.suppress.len() + k] == e);
                    assert(acc3.suppress.contains(e));
                    lemma_classify_suppress_monotone(dir, rules, entries, i + 1, acc3, e);
                } else {
                    lemma_classify_covers(dir, rules, entries, i + 1, acc3, j, ri, e);
                }
            }
        },
    }
}

proof fn lemma_enqueue_members(dir: Seq<char>, entries: Seq<EntryV>, c: ClassifyV, p: Seq<char>)
    requires
        spec_enqueue_list(dir, entries, c).contains(p),
    ensures
        exists|k: int|
            0 <= k < entries.len() && entries[k].is_dir && !c.suppress.contains(entries[k].name)
                && p == spec_join(dir, entries[k].name),
    decreases entries.len(),
{
    assert(!c.stopped && entries.len() > 0);
    let rest = spec_enqueue_list(dir, entries.drop_first(), c);
    let head_taken = entries[0].is_dir && !c.suppress.contains(entries[0].name);
    if head_taken && p == spec_join(dir, entries[0].name) {
        assert(0 <= 0 < entries.len() && entries[0].is_dir && !c.suppress.contains(entries[0].name)
            && p == spec_join(dir, entries[0].name));
    } else {
        if head_taken {
            let whole = seq![spec_join(dir, entries[0].name)] + rest;
            let idx = choose|idx: int| 0 <= idx < whole.len() && whole[idx] == p;
            assert(idx != 0);
            assert(rest[idx - 1] == p);
        }
        assert(rest.contains(p));
        lemma_enqueue_members(dir, entries.drop_first(), c, p);
        let k = choose|k: int|
            0 <= k < entries.drop_first().len() && entries.drop_first()[k].is_dir
                && !c.suppress.contains(entries.drop_first()[k].name) && p == spec_join(
                dir,
                entries.drop_first()[k].name,
            );
        assert(entries.drop_first()[k] == entries[k + 1]);
        assert(0 <= k + 1 < entries.len() && entries[k + 1].is_dir && !c.suppress.contains(
            entries[k + 1].name,
        ) && p == spec_join(dir, entries[k + 1].name));
    }
}

/// Joining two different names to the same directory gives two different
/// paths.
pub proof fn lemma_join_same_dir_injective(dir: Seq<char>, a: Seq<char>, b: Seq<char>)
    requires
        spec_join(dir, a) == spec_join(dir, b),
    ensures
        a == b,
{
    if spec_ends_with_slash(dir) {
        assert(a =~= (dir + a).subrange(dir.len() as int, (dir + a).len() as int));
        assert(b =~= (dir + b).subrange(dir.len() as int, (dir + b).len() as int));
    } else {
        let p = dir + "/"@;
        assert(dir + "/"@ + a =~= p + a);
        assert(dir + "/"@ + b =~= p + b);
        assert(a =~= (p + a).subrange(p.len() as int, (p + a).len() as int));
        assert(b =~= (p + b).subrange(p.len() as int, (p + b).len() as int));
    }
}

/// Law: the subtree under an excluded directory is never visited.  When
/// entry `j` of a directory matches rule `ri` and `e` is one of that
/// rule's exclusion names, the plan for that directory never enqueues the
/// child path `dir/e` — so no worker ever dequeues it or counts its
/// descendants.
pub proof fn lemma_excluded_child_not_enqueued(
    dir: Seq<char>,
    rules: Seq<RuleV>,
    entries: Seq<EntryV>,
    j: int,
    ri: int,
    e: Seq<char>,
)
    requires
        0 <= j < entries.len(),
        spec_first_match(rules, entries[j].name) == Some(ri),
        0 <= ri < rules.len(),
        rules[ri].exclusions.contains(e),
    ensures
        !spec_plan(dir, rules, entries).to_enqueue.contains(spec_join(dir, e)),
{
    let c = spec_classify(dir, rules, entries);
    if c.stopped {
        assert(spec_enqueue_list(dir, entries, c) =~= Seq::<Seq<char>>::empty());
    } else {
        lemma_classify_covers(
            dir,
            rules,
            entries,
            0,
            ClassifyV { candidates: Seq::empty(), suppress: Seq::empty(), stopped: false },
            j,
            ri,
            e,
        );
        assert(c.suppress.contains(e));
        if spec_enqueue_list(dir, entries, c).contains(spec_join(dir, e)) {
            lemma_enqueue_members(dir, entries, c, spec_join(dir, e));
            let k = choose|k: int|
                0 <= k < entries.len() && entries[k].is_dir && !c.suppress.contains(
                    entries[k].name,
                ) && spec_join(dir, e) == spec_join(dir, entries[k].name);
            lemma_join_same_dir_injective(dir, entries[k].name, e);
            assert(false);
        }
    }
}

} // verus!

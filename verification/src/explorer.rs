//! The traversal core: shared state, per-directory processing, run cache
//! and termination.
//!
//! The crate does no directory I/O and spawns no threads itself.  Instead it
//! defines a state machine: the surrounding binary dequeues a path with
//! [`try_dequeue`], looks at the filesystem, reports what it found as a
//! [`DirFate`], receives back a [`DirPlan`] from [`process_path`], runs the
//! planned exclusion candidates through the external backup tool gated by
//! [`already_attempted`], records each completed attempt with
//! [`record_attempt`], enqueues the planned subdirectories with
//! [`enqueue_plan`], and detects termination with [`try_finish`].  Every
//! decision in that loop is made here and is verified; the binary only
//! performs the actions.

use crate::config::{Config, ConfigError, Rule, RuleV, expand_root, home_dir_string,
    spec_expand_root};
use crate::paths::{basename_of, join_path, spec_basename, spec_has_tilde_prefix, spec_join};
use crate::pattern::{ignore_name_matches, rule_name_matches, spec_ignore_match, spec_rule_match};
use vstd::prelude::*;

verus! {

broadcast use vstd::set::group_set_axioms, vstd::seq::group_seq_axioms;

/// One step of a monotonic run counter: counters saturate instead of
/// overflowing.
pub open spec fn spec_bump(c: int) -> int {
    if c < i32::MAX {
        c + 1
    } else {
        c
    }
}

/// The mathematical content of the shared traversal [`State`].
#[verifier::ext_equal]
pub ghost struct StateModel {
    /// Pending directories, in FIFO order.
    pub queue: Seq<Seq<char>>,
    /// Directories whose entries were read and classified.
    pub processed: int,
    /// Exclusion paths found present on disk, deduplicated per run.
    pub found: int,
    /// Exclusion paths the external tool newly excluded this run.
    pub newly: int,
    /// Workers currently holding a dequeued directory.
    pub active: int,
    /// The termination latch; once set it is never unset.
    pub complete: bool,
    /// The run cache: exclusion paths already attempted this run.
    pub seen: Set<Seq<char>>,
}

/// The shared traversal state: the directory queue, the run counters, the
/// termination latch and the run cache.
pub struct State {
    pub folder_queue: Vec<String>,
    pub exclusion_found: i32,
    pub processed_paths: i32,
    pub active_tasks: usize,
    pub processing_complete: bool,
    pub newly_excluded: i32,
    /// Exclusion paths already attempted this run, to avoid repeated calls
    /// to the external tool.
    pub seen_exclusion_paths: Vec<String>,
}

impl View for State {
    type V = StateModel;

    open spec fn view(&self) -> StateModel {
        StateModel {
            queue: self.folder_queue.deep_view(),
            processed: self.processed_paths as int,
            found: self.exclusion_found as int,
            newly: self.newly_excluded as int,
            active: self.active_tasks as int,
            complete: self.processing_complete,
            seen: self.seen_exclusion_paths.deep_view().to_set(),
        }
    }
}

/// The state a run starts from: nothing queued, nothing counted, nothing
/// seen, not complete.
pub open spec fn spec_new_state() -> StateModel {
    StateModel {
        queue: Seq::empty(),
        processed: 0,
        found: 0,
        newly: 0,
        active: 0,
        complete: false,
        seen: Set::empty(),
    }
}

impl State {
    /// The run counters never go negative.
    pub open spec fn wf(&self) -> bool {
        self.processed_paths >= 0 && self.exclusion_found >= 0 && self.newly_excluded >= 0
    }

    /// A fresh state for one run.
    pub fn new() -> (s: State)
        ensures
            s.wf(),
            s@ == spec_new_state(),
    {
        let s = State {
            folder_queue: Vec::new(),
            exclusion_found: 0,
            processed_paths: 0,
            active_tasks: 0,
            processing_complete: false,
            newly_excluded: 0,
            seen_exclusion_paths: Vec::new(),
        };
        proof {
            assert(s.folder_queue.deep_view() =~= Seq::<Seq<char>>::empty());
            assert(s.seen_exclusion_paths.deep_view().to_set() =~= Set::<Seq<char>>::empty());
            assert(s@ =~~= spec_new_state());
        }
        s
    }
}

impl Default for State {
    fn default() -> (s: State)
        ensures
            s.wf(),
            s@ == spec_new_state(),
    {
        State::new()
    }
}

fn bump_i32(c: i32) -> (r: i32)
    requires
        c >= 0,
    ensures
        r as int == spec_bump(c as int),
        r >= 0,
{
    if c < i32::MAX {
        c + 1
    } else {
        c
    }
}

fn vec_contains_string(v: &Vec<String>, s: &String) -> (r: bool)
    ensures
        r == v.deep_view().contains(s@),
{
    let mut i: usize = 0;
    while i < v.len()
        invariant
            0 <= i <= v@.len(),
            forall|j: int| 0 <= j < i ==> v.deep_view()[j] != s@,
        decreases v@.len() - i,
    {
        if v[i].eq(s) {
            proof {
                assert(v.deep_view()[i as int] == s@);
            }
            return true;
        }
        i = i + 1;
    }
    false
}

/// Whether an exclusion attempt for `p` was already recorded this run.
pub open spec fn spec_attempted(m: StateModel, p: Seq<char>) -> bool {
    m.seen.contains(p)
}

/// The run-cache check: whether the external tool was already consulted for
/// `path` during this run.  A caller skips the oracle entirely when this
/// holds.
pub fn already_attempted(state: &State, path: &String) -> (r: bool)
    ensures
        r == spec_attempted(state@, path@),
{
    vec_contains_string(&state.seen_exclusion_paths, path)
}

/// What recording one completed oracle attempt for path `p` does: the
/// exclusion-found counter steps once, the newly-excluded counter steps
/// exactly when the tool reported a state change, and `p` enters the run
/// cache.
pub open spec fn spec_record_attempt(m: StateModel, p: Seq<char>, newly: bool) -> StateModel {
    StateModel {
        found: spec_bump(m.found),
        newly: if newly {
            spec_bump(m.newly)
        } else {
            m.newly
        },
        seen: m.seen.insert(p),
        ..m
    }
}

/// One exclusion event, as reported to the caller: the path, the rule that
/// asked for it, and whether the external tool newly excluded it.
pub struct ExclusionEvent {
    pub path: String,
    pub rule_name: String,
    pub newly_excluded: bool,
}

/// Record one completed oracle attempt (successful or not) for `path`:
/// count it as found, count it as newly excluded if the tool said so, and
/// remember the path so it is never attempted again this run.
pub fn record_attempt(
    state: &mut State,
    path: &String,
    rule_name: &String,
    newly_excluded: bool,
) -> (ev: ExclusionEvent)
    requires
        old(state).wf(),
    ensures
        final(state).wf(),
        final(state)@ == spec_record_attempt(old(state)@, path@, newly_excluded),
        ev.path@ == path@,
        ev.rule_name@ == rule_name@,
        ev.newly_excluded == newly_excluded,
{
    state.exclusion_found = bump_i32(state.exclusion_found);
    if newly_excluded {
        state.newly_excluded = bump_i32(state.newly_excluded);
    }
    if !vec_contains_string(&state.seen_exclusion_paths, path) {
        let ghost pre = state.seen_exclusion_paths.deep_view();
        state.seen_exclusion_paths.push(path.clone());
        proof {
            assert(state.seen_exclusion_paths.deep_view() =~= pre.push(path@));
            pre.lemma_push_to_set_commute(path@);
        }
    } else {
        proof {
            assert(state.seen_exclusion_paths.deep_view().to_set() =~= state
                .seen_exclusion_paths
                .deep_view()
                .to_set()
                .insert(path@));
        }
    }
    proof {
        assert(state@ =~~= spec_record_attempt(old(state)@, path@, newly_excluded));
    }
    ExclusionEvent { path: path.clone(), rule_name: rule_name.clone(), newly_excluded }
}

/// Pop the queue head under exclusive access; on success the worker is
/// counted active before it starts processing.
pub fn try_dequeue(state: &mut State) -> (r: Option<String>)
    requires
        old(state).wf(),
        old(state).active_tasks < usize::MAX,
    ensures
        final(state).wf(),
        match r {
            Some(p) => old(state)@.queue.len() > 0 && p@ == old(state)@.queue[0] && final(state)@
                == (StateModel {
                queue: old(state)@.queue.drop_first(),
                active: old(state)@.active + 1,
                ..old(state)@
            }),
            None => old(state)@.queue.len() == 0 && final(state)@ == old(state)@,
        },
{
    if state.folder_queue.len() > 0 {
        state.active_tasks = state.active_tasks + 1;
        let ghost pre = state.folder_queue.deep_view();
        let p = state.folder_queue.remove(0);
        proof {
            assert(state.folder_queue.deep_view() =~= pre.drop_first());
            assert(state@ =~~= (StateModel {
                queue: old(state)@.queue.drop_first(),
                active: old(state)@.active + 1,
                ..old(state)@
            }));
        }
        Some(p)
    } else {
        None
    }
}

/// A worker finished the directory it had dequeued.
pub fn finish_task(state: &mut State)
    requires
        old(state).wf(),
        old(state).active_tasks > 0,
    ensures
        final(state).wf(),
        final(state)@ == (StateModel { active: old(state)@.active - 1, ..old(state)@ }),
{
    state.active_tasks = state.active_tasks - 1;
    proof {
        assert(state@ =~~= (StateModel { active: old(state)@.active - 1, ..old(state)@ }));
    }
}

/// The termination detector: in one observation, if the queue is empty and
/// no worker is active, set the completion latch.  The latch is one-way:
/// nothing ever unsets it.
pub fn try_finish(state: &mut State) -> (done: bool)
    requires
        old(state).wf(),
    ensures
        final(state).wf(),
        done == (old(state)@.queue.len() == 0 && old(state)@.active == 0),
        final(state)@ == (StateModel { complete: old(state)@.complete || done, ..old(state)@ }),
{
    if state.folder_queue.len() == 0 && state.active_tasks == 0 {
        state.processing_complete = true;
        proof {
            assert(state@ =~~= (StateModel { complete: true, ..old(state)@ }));
        }
        true
    } else {
        proof {
            assert(state@ =~~= old(state)@);
        }
        false
    }
}

/// Whether the termination latch is set.
pub fn is_complete(state: &State) -> (r: bool)
    ensures
        r == state@.complete,
{
    state.processing_complete
}

/// The final counters of one run.
pub struct ExplorerStats {
    pub processed_paths: i32,
    pub exclusions_found: i32,
    pub newly_excluded: i32,
}

impl State {
    /// The aggregator: read the final counters.
    pub fn stats(&self) -> (r: ExplorerStats)
        ensures
            r.processed_paths as int == self@.processed,
            r.exclusions_found as int == self@.found,
            r.newly_excluded as int == self@.newly,
    {
        ExplorerStats {
            processed_paths: self.processed_paths,
            exclusions_found: self.exclusion_found,
            newly_excluded: self.newly_excluded,
        }
    }
}

/// A directory entry as the binary lists it: its name and whether it is
/// itself a directory, taken from one snapshot of the parent's contents.
pub struct Entry {
    pub name: String,
    pub is_dir: bool,
}

/// The mathematical content of an [`Entry`].
#[verifier::ext_equal]
pub ghost struct EntryV {
    pub name: Seq<char>,
    pub is_dir: bool,
}

impl View for Entry {
    type V = EntryV;

    open spec fn view(&self) -> EntryV {
        EntryV { name: self.name@, is_dir: self.is_dir }
    }
}

impl DeepView for Entry {
    type V = EntryV;

    open spec fn deep_view(&self) -> EntryV {
        self.view()
    }
}

/// What the binary found when it looked at a dequeued path: the path may
/// have vanished or stopped being a directory since it was enqueued.
pub enum DirFate {
    Missing,
    NotDirectory,
    Listed(Vec<Entry>),
}

/// One exclusion path to hand to the external tool, with the rule that
/// asked for it.
pub struct ExclusionCandidate {
    pub path: String,
    pub rule_name: String,
}

/// The mathematical content of an [`ExclusionCandidate`].
#[verifier::ext_equal]
pub ghost struct CandidateV {
    pub path: Seq<char>,
    pub rule_name: Seq<char>,
}

impl View for ExclusionCandidate {
    type V = CandidateV;

    open spec fn view(&self) -> CandidateV {
        CandidateV { path: self.path@, rule_name: self.rule_name@ }
    }
}

impl DeepView for ExclusionCandidate {
    type V = CandidateV;

    open spec fn deep_view(&self) -> CandidateV {
        self.view()
    }
}

/// The decisions for one visited directory: the exclusion candidates to run
/// through the external tool in order, whether descent stops here, and the
/// subdirectories to enqueue.
pub struct DirPlan {
    pub candidates: Vec<ExclusionCandidate>,
    pub stop_descend: bool,
    pub to_enqueue: Vec<String>,
}

/// The mathematical content of a [`DirPlan`].
#[verifier::ext_equal]
pub ghost struct PlanV {
    pub candidates: Seq<CandidateV>,
    pub stop_descend: bool,
    pub to_enqueue: Seq<Seq<char>>,
}

impl View for DirPlan {
    type V = PlanV;

    open spec fn view(&self) -> PlanV {
        PlanV {
            candidates: self.candidates.deep_view(),
            stop_descend: self.stop_descend,
            to_enqueue: self.to_enqueue.deep_view(),
        }
    }
}

/// How one visit of a dequeued path ended.
pub enum VisitOutcome {
    /// The path no longer exists or is not a directory: skipped silently.
    SkippedAbsent,
    /// The directory's basename matches an ignore pattern: the whole
    /// subtree is pruned and nothing is counted.
    SkippedIgnored,
    /// The directory was classified; the plan says what to do next.
    Planned(DirPlan),
}

/// Index of the first rule whose marker glob matches entry name `name`;
/// the first match wins and later rules are not consulted.
pub open spec fn spec_first_match(rules: Seq<RuleV>, name: Seq<char>) -> Option<int>
    decreases rules.len(),
{
    if rules.len() == 0 {
        None
    } else if spec_rule_match(rules[0].file_match, name) {
        Some(0)
    } else {
        match spec_first_match(rules.drop_first(), name) {
            Some(i) => Some(i + 1),
            None => None,
        }
    }
}

/// Whether a rule stops descent at the directory holding its marker: its
/// exclusions name the directory itself (`.`) or its parent (`..`).
pub open spec fn spec_rule_stops(r: RuleV) -> bool {
    r.exclusions.contains("."@) || r.exclusions.contains(".."@)
}

/// The exclusion candidates one matched rule contributes in directory
/// `dir`: each exclusion name joined to `dir`, in the rule's order.
pub open spec fn spec_rule_candidates(dir: Seq<char>, r: RuleV) -> Seq<CandidateV> {
    Seq::new(
        r.exclusions.len(),
        |i: int| CandidateV { path: spec_join(dir, r.exclusions[i]), rule_name: r.name },
    )
}

/// The running result of classifying a directory's entries.
#[verifier::ext_equal]
pub ghost struct ClassifyV {
    pub candidates: Seq<CandidateV>,
    pub suppress: Seq<Seq<char>>,
    pub stopped: bool,
}

/// Classification of entries `i..` of one directory, starting from the
/// accumulated result `acc`: for each entry the first matching rule (if
/// any) contributes its exclusion candidates; a rule naming `.` or `..`
/// stops classification at once; otherwise the rule's exclusion names are
/// suppressed from the later enqueue phase.
pub open spec fn spec_classify_from(
    dir: Seq<char>,
    rules: Seq<RuleV>,
    entries: Seq<EntryV>,
    i: int,
    acc: ClassifyV,
) -> ClassifyV
    decreases entries.len() - i,
{
    if i < 0 || i >= entries.len() {
        acc
    } else {
        match spec_first_match(rules, entries[i].name) {
            None => spec_classify_from(dir, rules, entries, i + 1, acc),
            Some(ri) => {
                let acc2 = ClassifyV {
                    candidates: acc.candidates + spec_rule_candidates(dir, rules[ri]),
                    ..acc
                };
                if spec_rule_stops(rules[ri]) {
                    ClassifyV { stopped: true, ..acc2 }
                } else {
                    spec_classify_from(
                        dir,
                        rules,
                        entries,
                        i + 1,
                        ClassifyV { suppress: acc2.suppress + rules[ri].exclusions, ..acc2 },
                    )
                }
            },
        }
    }
}

/// Phase 1 of processing a directory: classify all entries.
pub open spec fn spec_classify(dir: Seq<char>, rules: Seq<RuleV>, entries: Seq<EntryV>) -> ClassifyV {
    spec_classify_from(
        dir,
        rules,
        entries,
        0,
        ClassifyV { candidates: Seq::empty(), suppress: Seq::empty(), stopped: false },
    )
}

/// Phase 2 of processing a directory: the full paths of the entries to
/// enqueue — every subdirectory whose name classification did not suppress.
/// When classification stopped, nothing is enqueued.
pub open spec fn spec_enqueue_list(dir: Seq<char>, entries: Seq<EntryV>, c: ClassifyV) -> Seq<
    Seq<char>,
>
    decreases entries.len(),
{
    if c.stopped || entries.len() == 0 {
        Seq::empty()
    } else {
        let rest = spec_enqueue_list(dir, entries.drop_first(), c);
        if entries[0].is_dir && !c.suppress.contains(entries[0].name) {
            seq![spec_join(dir, entries[0].name)] + rest
        } else {
            rest
        }
    }
}

/// Whether the directory at `path` is pruned outright because its basename
/// matches an ignore pattern.
pub open spec fn spec_dir_ignored(path: Seq<char>, ignores: Seq<Seq<char>>) -> bool {
    match spec_basename(path) {
        Some(b) => exists|i: int| 0 <= i < ignores.len() && spec_ignore_match(ignores[i], b),
        None => false,
    }
}

/// The complete plan for one listed directory.
pub open spec fn spec_plan(dir: Seq<char>, rules: Seq<RuleV>, entries: Seq<EntryV>) -> PlanV {
    let c = spec_classify(dir, rules, entries);
    PlanV {
        candidates: c.candidates,
        stop_descend: c.stopped,
        to_enqueue: spec_enqueue_list(dir, entries, c),
    }
}

proof fn lemma_first_match_at(rules: Seq<RuleV>, name: Seq<char>, k: int)
    requires
        0 <= k < rules.len(),
        spec_rule_match(rules[k].file_match, name),
        forall|j: int| 0 <= j < k ==> !spec_rule_match(rules[j].file_match, name),
    ensures
        spec_first_match(rules, name) == Some(k),
    decreases k,
{
    if k > 0 {
        assert(!spec_rule_match(rules[0].file_match, name));
        assert forall|j: int| 0 <= j < k - 1 implies !spec_rule_match(
            rules.drop_first()[j].file_match,
            name,
        ) by {
            assert(rules.drop_first()[j] == rules[j + 1]);
        }
        lemma_first_match_at(rules.drop_first(), name, k - 1);
    }
}

proof fn lemma_first_match_none(rules: Seq<RuleV>, name: Seq<char>)
    requires
        forall|j: int| 0 <= j < rules.len() ==> !spec_rule_match(rules[j].file_match, name),
    ensures
        spec_first_match(rules, name) is None,
    decreases rules.len(),
{
    if rules.len() > 0 {
        assert forall|j: int| 0 <= j < rules.len() - 1 implies !spec_rule_match(
            rules.drop_first()[j].file_match,
            name,
        ) by {
            assert(rules.drop_first()[j] == rules[j + 1]);
        }
        lemma_first_match_none(rules.drop_first(), name);
    }
}

fn is_stop_marker(s: &String) -> (r: bool)
    ensures
        r == (s@ == "."@ || s@ == ".."@),
{
    proof {
        reveal_strlit(".");
        reveal_strlit("..");
    }
    let n = s.as_str().unicode_len();
    if n == 1 {
        let r = s.as_str().get_char(0) == '.';
        proof {
            if r {
                assert(s@ =~= "."@);
            }
        }
        r
    } else if n == 2 {
        let r = s.as_str().get_char(0) == '.' && s.as_str().get_char(1) == '.';
        proof {
            if r {
                assert(s@ =~= ".."@);
            }
        }
        r
    } else {
        false
    }
}

fn rule_stops(rule: &Rule) -> (r: bool)
    ensures
        r == spec_rule_stops(rule@),
{
    let mut i: usize = 0;
    while i < rule.exclusions.len()
        invariant
            0 <= i <= rule.exclusions@.len(),
            forall|j: int| 0 <= j < i ==> rule@.exclusions[j] != "."@ && rule@.exclusions[j]
                != ".."@,
        decreases rule.exclusions@.len() - i,
    {
        if is_stop_marker(&rule.exclusions[i]) {
            proof {
                assert(rule@.exclusions[i as int] == rule.exclusions@[i as int]@);
            }
            return true;
        }
        i = i + 1;
    }
    proof {
        if spec_rule_stops(rule@) {
            let j = choose|j: int| 0 <= j < rule@.exclusions.len() && (rule@.exclusions[j] == "."@
                || rule@.exclusions[j] == ".."@);
        }
    }
    false
}

fn first_matching_rule(rules: &Vec<Rule>, name: &String) -> (r: Option<usize>)
    ensures
        match r {
            Some(i) => i < rules@.len() && spec_first_match(rules.deep_view(), name@) == Some(
                i as int,
            ),
            None => spec_first_match(rules.deep_view(), name@) is None,
        },
{
    let mut i: usize = 0;
    while i < rules.len()
        invariant
            0 <= i <= rules@.len(),
            forall|j: int| 0 <= j < i ==> !spec_rule_match(
                rules.deep_view()[j].file_match,
                name@,
            ),
        decreases rules@.len() - i,
    {
        if rule_name_matches(rules[i].file_match.as_str(), name.as_str()) {
            proof {
                assert(rules.deep_view()[i as int] == rules@[i as int]@);
                lemma_first_match_at(rules.deep_view(), name@, i as int);
            }
            return Some(i);
        }
        proof {
            assert(rules.deep_view()[i as int] == rules@[i as int]@);
        }
        i = i + 1;
    }
    proof {
        lemma_first_match_none(rules.deep_view(), name@);
    }
    None
}

fn push_rule_candidates(cands: &mut Vec<ExclusionCandidate>, dir: &String, rule: &Rule)
    ensures
        final(cands).deep_view() == old(cands).deep_view() + spec_rule_candidates(dir@, rule@),
{
    let ghost pre = old(cands).deep_view();
    let mut j: usize = 0;
    while j < rule.exclusions.len()
        invariant
            0 <= j <= rule.exclusions@.len(),
            cands.deep_view() =~= pre + spec_rule_candidates(dir@, rule@).take(j as int),
        decreases rule.exclusions@.len() - j,
    {
        let c = ExclusionCandidate {
            path: join_path(dir.as_str(), rule.exclusions[j].as_str()),
            rule_name: rule.name.clone(),
        };
        proof {
            assert(c@ == spec_rule_candidates(dir@, rule@)[j as int]);
        }
        let ghost prev = cands.deep_view();
        cands.push(c);
        proof {
            assert(cands.deep_view() =~= prev.push(c@));
            assert(prev.push(c@) =~= pre + spec_rule_candidates(dir@, rule@).take(j as int + 1));
        }
        j = j + 1;
    }
    proof {
        assert(spec_rule_candidates(dir@, rule@).take(rule.exclusions@.len() as int)
            =~= spec_rule_candidates(dir@, rule@));
    }
}

fn push_suppress(suppress: &mut Vec<String>, rule: &Rule)
    ensures
        final(suppress).deep_view() == old(suppress).deep_view() + rule@.exclusions,
{
    let ghost pre = old(suppress).deep_view();
    let mut j: usize = 0;
    while j < rule.exclusions.len()
        invariant
            0 <= j <= rule.exclusions@.len(),
            suppress.deep_view() =~= pre + rule@.exclusions.take(j as int),
        decreases rule.exclusions@.len() - j,
    {
        let ghost prev = suppress.deep_view();
        suppress.push(rule.exclusions[j].clone());
        proof {
            assert(suppress.deep_view() =~= prev.push(rule@.exclusions[j as int]));
            assert(prev.push(rule@.exclusions[j as int]) =~= pre + rule@.exclusions.take(
                j as int + 1,
            ));
        }
        j = j + 1;
    }
    proof {
        assert(rule@.exclusions.take(rule.exclusions@.len() as int) =~= rule@.exclusions);
    }
}

/// Whether the directory at `dir` is pruned outright: its basename matches
/// one of the ignore patterns.  The traversal then reads none of its
/// entries.
pub fn dir_is_ignored(dir: &String, ignores: &Vec<String>) -> (r: bool)
    ensures
        r == spec_dir_ignored(dir@, ignores.deep_view()),
{
    match basename_of(dir.as_str()) {
        None => false,
        Some(b) => {
            let mut i: usize = 0;
            while i < ignores.len()
                invariant
                    0 <= i <= ignores@.len(),
                    spec_basename(dir@) == Some(b@),
                    forall|j: int| 0 <= j < i ==> !spec_ignore_match(ignores.deep_view()[j], b@),
                decreases ignores@.len() - i,
            {
                if ignore_name_matches(ignores[i].as_str(), b.as_str()) {
                    proof {
                        assert(ignores.deep_view()[i as int] == ignores@[i as int]@);
                    }
                    return true;
                }
                proof {
                    assert(ignores.deep_view()[i as int] == ignores@[i as int]@);
                }
                i = i + 1;
            }
            false
        },
    }
}

/// Process one dequeued directory: skip it silently when it vanished, prune
/// it without counting when its basename matches an ignore pattern, and
/// otherwise count it as processed and return the two-phase plan computed
/// from one snapshot of its entries.
pub fn process_path(
    state: &mut State,
    dir: &String,
    fate: &DirFate,
    rules: &Vec<Rule>,
    ignore_patterns: &Vec<String>,
) -> (r: VisitOutcome)
    requires
        old(state).wf(),
    ensures
        final(state).wf(),
        match fate {
            DirFate::Missing => r matches VisitOutcome::SkippedAbsent && final(state)@ == old(
                state,
            )@,
            DirFate::NotDirectory => r matches VisitOutcome::SkippedAbsent && final(state)@ == old(
                state,
            )@,
            DirFate::Listed(entries) => {
                if spec_dir_ignored(dir@, ignore_patterns.deep_view()) {
                    r matches VisitOutcome::SkippedIgnored && final(state)@ == old(state)@
                } else {
                    r matches VisitOutcome::Planned(plan) && plan@ == spec_plan(
                        dir@,
                        rules.deep_view(),
                        entries.deep_view(),
                    ) && final(state)@ == (StateModel {
                        processed: spec_bump(old(state)@.processed),
                        ..old(state)@
                    })
                }
            },
        },
{
    match fate {
        DirFate::Missing => VisitOutcome::SkippedAbsent,
        DirFate::NotDirectory => VisitOutcome::SkippedAbsent,
        DirFate::Listed(entries) => {
            if dir_is_ignored(dir, ignore_patterns) {
                return VisitOutcome::SkippedIgnored;
            }
            state.processed_paths = bump_i32(state.processed_paths);
            proof {
                assert(state@ =~~= (StateModel {
                    processed: spec_bump(old(state)@.processed),
                    ..old(state)@
                }));
            }
            let ghost dirv = dir@;
            let ghost rulesv = rules.deep_view();
            let ghost entriesv = entries.deep_view();
            let mut cands: Vec<ExclusionCandidate> = Vec::new();
            let mut suppress: Vec<String> = Vec::new();
            let mut stopped = false;
            let mut i: usize = 0;
            proof {
                assert(cands.deep_view() =~= Seq::<CandidateV>::empty());
                assert(suppress.deep_view() =~= Seq::<Seq<char>>::empty());
                assert(spec_classify(dirv, rulesv, entriesv) == spec_classify_from(
                    dirv,
                    rulesv,
                    entriesv,
                    0,
                    ClassifyV {
                        candidates: cands.deep_view(),
                        suppress: suppress.deep_view(),
                        stopped: false,
                    },
                ));
            }
            while i < entries.len() && !stopped
                invariant
                    0 <= i <= entriesv.len(),
                    dirv == dir@,
                    entriesv == entries.deep_view(),
                    rulesv == rules.deep_view(),
                    !stopped ==> spec_classify(dirv, rulesv, entriesv) == spec_classify_from(
                        dirv,
                        rulesv,
                        entriesv,
                        i as int,
                        ClassifyV {
                            candidates: cands.deep_view(),
                            suppress: suppress.deep_view(),
                            stopped: false,
                        },
                    ),
                    stopped ==> spec_classify(dirv, rulesv, entriesv) == (ClassifyV {
                        candidates: cands.deep_view(),
                        suppress: suppress.deep_view(),
                        stopped: true,
                    }),
                decreases entriesv.len() - i, (if stopped { 0int } else { 1int }),
            {
                let ghost acc0 = ClassifyV {
                    candidates: cands.deep_view(),
                    suppress: suppress.deep_view(),
                    stopped: false,
                };
                let entry_name = &entries[i].name;
                proof {
                    assert(entriesv[i as int] == entries@[i as int]@);
                }
                match first_matching_rule(rules, entry_name) {
                    None => {
                        proof {
                            assert(spec_classify_from(dirv, rulesv, entriesv, i as int, acc0)
                                == spec_classify_from(dirv, rulesv, entriesv, i as int + 1, acc0));
                        }
                        i = i + 1;
                    },
                    Some(ri) => {
                        let rule = &rules[ri];
                        proof {
                            assert(rulesv[ri as int] == rules@[ri as int]@);
                        }
                        push_rule_candidates(&mut cands, dir, rule);
                        let ghost acc2 = ClassifyV {
                            candidates: acc0.candidates + spec_rule_candidates(
                                dirv,
                                rulesv[ri as int],
                            ),
                            ..acc0
                        };
                        proof {
                            assert(rule@ == rulesv[ri as int]);
                            assert(spec_rule_candidates(dir@, rule@) =~= spec_rule_candidates(
                                dirv,
                                rulesv[ri as int],
                            ));
                            assert(cands.deep_view() == acc2.candidates);
                        }
                        if rule_stops(rule) {
                            stopped = true;
                            proof {
                                assert(spec_classify_from(dirv, rulesv, entriesv, i as int, acc0)
                                    == (ClassifyV { stopped: true, ..acc2 }));
                                assert(spec_classify(dirv, rulesv, entriesv) =~~= (ClassifyV {
                                    candidates: cands.deep_view(),
                                    suppress: suppress.deep_view(),
                                    stopped: true,
                                }));
                            }
                        } else {
                            push_suppress(&mut suppress, rule);
                            let ghost acc3 = ClassifyV {
                                suppress: acc2.suppress + rulesv[ri as int].exclusions,
                                ..acc2
                            };
                            proof {
                                assert(suppress.deep_view() == acc3.suppress);
                                assert(spec_classify_from(dirv, rulesv, entriesv, i as int, acc0)
                                    == spec_classify_from(
                                    dirv,
                                    rulesv,
                                    entriesv,
                                    i as int + 1,
                                    acc3,
                                ));
                                assert(acc3 =~~= (ClassifyV {
                                    candidates: cands.deep_view(),
                                    suppress: suppress.deep_view(),
                                    stopped: false,
                                }));
                            }
                            i = i + 1;
                        }
                    },
                }
            }
            let ghost cls = spec_classify(dirv, rulesv, entriesv);
            proof {
                if !stopped {
                    assert(spec_classify_from(dirv, rulesv, entriesv, i as int, ClassifyV {
                        candidates: cands.deep_view(),
                        suppress: suppress.deep_view(),
                        stopped: false,
                    }) == (ClassifyV {
                        candidates: cands.deep_view(),
                        suppress: suppress.deep_view(),
                        stopped: false,
                    }));
                }
                assert(cls == (ClassifyV {
                    candidates: cands.deep_view(),
                    suppress: suppress.deep_view(),
                    stopped,
                }));
            }
            let mut to_enqueue: Vec<String> = Vec::new();
            if !stopped {
                let mut k: usize = 0;
                proof {
                    assert(entriesv.skip(0) =~= entriesv);
                    assert(to_enqueue.deep_view() =~= Seq::<Seq<char>>::empty());
                }
                while k < entries.len()
                    invariant
                        0 <= k <= entriesv.len(),
                        dirv == dir@,
                        entriesv == entries.deep_view(),
                        cls.stopped == false,
                        cls.suppress == suppress.deep_view(),
                        spec_enqueue_list(dirv, entriesv, cls) == to_enqueue.deep_view()
                            + spec_enqueue_list(dirv, entriesv.skip(k as int), cls),
                    decreases entriesv.len() - k,
                {
                    let ghost rest = entriesv.skip(k as int);
                    proof {
                        assert(rest[0] == entriesv[k as int]);
                        assert(rest.drop_first() =~= entriesv.skip(k as int + 1));
                        assert(entriesv[k as int] == entries@[k as int]@);
                    }
                    let is_dir = entries[k].is_dir;
                    let name = &entries[k].name;
                    if is_dir && !vec_contains_string(&suppress, name) {
                        let ghost prev = to_enqueue.deep_view();
                        let child = join_path(dir.as_str(), name.as_str());
                        proof {
                            assert(child@ == spec_join(dirv, entriesv[k as int].name));
                        }
                        to_enqueue.push(child);
                        proof {
                            assert(to_enqueue.deep_view() =~= prev.push(
                                spec_join(dirv, entriesv[k as int].name),
                            ));
                            assert(prev.push(spec_join(dirv, entriesv[k as int].name))
                                + spec_enqueue_list(dirv, entriesv.skip(k as int + 1), cls)
                                =~= prev + spec_enqueue_list(dirv, entriesv.skip(k as int), cls));
                        }
                    }
                    k = k + 1;
                }
                proof {
                    assert(entriesv.skip(entriesv.len() as int) =~= Seq::<EntryV>::empty());
                    assert(spec_enqueue_list(dirv, entriesv, cls) =~= to_enqueue.deep_view());
                }
            } else {
                proof {
                    assert(to_enqueue.deep_view() =~= Seq::<Seq<char>>::empty());
                    assert(spec_enqueue_list(dirv, entriesv, cls) =~= to_enqueue.deep_view());
                }
            }
            let plan = DirPlan { candidates: cands, stop_descend: stopped, to_enqueue };
            proof {
                assert(plan@ =~~= spec_plan(dirv, rulesv, entriesv));
            }
            VisitOutcome::Planned(plan)
        },
    }
}

/// Phase 2 effect: append the planned subdirectories to the shared queue.
pub fn enqueue_plan(state: &mut State, plan: &DirPlan)
    requires
        old(state).wf(),
    ensures
        final(state).wf(),
        final(state)@ == (StateModel {
            queue: old(state)@.queue + plan@.to_enqueue,
            ..old(state)@
        }),
{
    let ghost pre = state.folder_queue.deep_view();
    let mut i: usize = 0;
    while i < plan.to_enqueue.len()
        invariant
            0 <= i <= plan.to_enqueue@.len(),
            state.folder_queue.deep_view() =~= pre + plan@.to_enqueue.take(i as int),
            state.exclusion_found == old(state).exclusion_found,
            state.processed_paths == old(state).processed_paths,
            state.active_tasks == old(state).active_tasks,
            state.processing_complete == old(state).processing_complete,
            state.newly_excluded == old(state).newly_excluded,
            state.seen_exclusion_paths@ == old(state).seen_exclusion_paths@,
            pre == old(state)@.queue,
        decreases plan.to_enqueue@.len() - i,
    {
        let ghost prev = state.folder_queue.deep_view();
        state.folder_queue.push(plan.to_enqueue[i].clone());
        proof {
            assert(state.folder_queue.deep_view() =~= prev.push(plan@.to_enqueue[i as int]));
            assert(prev.push(plan@.to_enqueue[i as int]) =~= pre + plan@.to_enqueue.take(
                i as int + 1,
            ));
        }
        i = i + 1;
    }
    proof {
        assert(plan@.to_enqueue.take(plan.to_enqueue@.len() as int) =~= plan@.to_enqueue);
        assert(state@ =~~= (StateModel { queue: old(state)@.queue + plan@.to_enqueue, ..old(
            state,
        )@ }));
    }
}

/// Every root path expanded against `home`; a root whose expansion would
/// have failed keeps its text (a run never starts in that case).
pub open spec fn spec_expanded_roots(roots: Seq<Seq<char>>, home: Option<Seq<char>>) -> Seq<
    Seq<char>,
> {
    Seq::new(
        roots.len(),
        |i: int|
            match spec_expand_root(roots[i], home) {
                Ok(p) => p,
                Err(_) => roots[i],
            },
    )
}

/// Whether some root path needs the home directory to expand.
pub open spec fn spec_roots_need_home(roots: Seq<Seq<char>>) -> bool {
    exists|i: int| 0 <= i < roots.len() && spec_has_tilde_prefix(roots[i])
}

/// A fresh state whose queue holds `queue`.
pub open spec fn spec_seeded_state(queue: Seq<Seq<char>>) -> StateModel {
    StateModel { queue, ..spec_new_state() }
}

/// Begin a run: refuse a configuration without roots, and otherwise seed a
/// fresh traversal state's queue with the expanded root paths, in order.
/// The returned state is what the worker loop drives through
/// [`try_dequeue`], [`process_path`] and the rest.
pub fn run_explorer(config: &Config) -> (r: Result<State, ConfigError>)
    ensures
        config.roots@.len() == 0 ==> (r matches Err(e) && e == ConfigError::EmptyRoots),
        r matches Err(e) ==> if config.roots@.len() == 0 {
            e == ConfigError::EmptyRoots
        } else {
            e == ConfigError::NoHomeDir && spec_roots_need_home(config.roots.deep_view())
        },
        r matches Ok(st) ==> st.wf() && exists|h: Option<Seq<char>>|
            !(h is None && spec_roots_need_home(config.roots.deep_view())) && st@
                == spec_seeded_state(spec_expanded_roots(config.roots.deep_view(), h)),
{
    if config.roots.len() == 0 {
        return Err(ConfigError::EmptyRoots);
    }
    let home = home_dir_string();
    let ghost h = home.deep_view();
    let ghost rootsv = config.roots.deep_view();
    let mut st = State::new();
    let mut i: usize = 0;
    proof {
        assert(st.folder_queue.deep_view() =~= spec_expanded_roots(rootsv, h).take(0));
    }
    while i < config.roots.len()
        invariant
            0 <= i <= rootsv.len(),
            rootsv == config.roots.deep_view(),
            h == home.deep_view(),
            st.wf(),
            st@.processed == 0,
            st@.found == 0,
            st@.newly == 0,
            st@.active == 0,
            st@.complete == false,
            st@.seen == Set::<Seq<char>>::empty(),
            st@.queue =~= spec_expanded_roots(rootsv, h).take(i as int),
            h is None ==> forall|j: int| 0 <= j < i ==> !spec_has_tilde_prefix(rootsv[j]),
        decreases rootsv.len() - i,
    {
        proof {
            assert(rootsv[i as int] == config.roots@[i as int].path@);
        }
        match expand_root(&config.roots[i].path, &home) {
            Ok(p) => {
                let ghost prev = st.folder_queue.deep_view();
                st.folder_queue.push(p);
                proof {
                    assert(st.folder_queue.deep_view() =~= prev.push(
                        spec_expanded_roots(rootsv, h)[i as int],
                    ));
                    assert(prev.push(spec_expanded_roots(rootsv, h)[i as int])
                        =~= spec_expanded_roots(rootsv, h).take(i as int + 1));
                }
            },
            Err(e) => {
                proof {
                    assert(spec_expand_root(rootsv[i as int], h) == Err::<Seq<char>, ConfigError>(
                        e,
                    ));
                    assert(e == ConfigError::NoHomeDir);
                    assert(spec_has_tilde_prefix(rootsv[i as int]));
                    assert(spec_roots_need_home(rootsv));
                }
                return Err(e);
            },
        }
        i = i + 1;
    }
    proof {
        assert(spec_expanded_roots(rootsv, h).take(rootsv.len() as int) =~= spec_expanded_roots(
            rootsv,
            h,
        ));
        assert(st@ =~~= spec_seeded_state(spec_expanded_roots(rootsv, h)));
    }
    Ok(st)
}

} // verus!

//! The identification engine: which candidates a target matches.
//!
//! A candidate matches when every one of its rule instances passes. The
//! instances are probed in declared order, candidate after candidate; the
//! first instance that does not pass ends the candidate, and an engine-level
//! fault ends the whole identification. [`Identification`] is that loop as a
//! state machine: the host asks it for the next probe, runs the probe on the
//! emulator, and records the outcome.
use vstd::prelude::*;
use crate::emu;
use crate::calling_convention::CallingConvention;
use crate::args::EmuArgs;

verus! {

/// Failures surfaced to the caller of an identification.
#[derive(Debug, Clone, PartialEq, Eq, Structural)]
pub enum Error {
    /// An engine-level fault of the emulator or the address space.
    EmuError(emu::Error),
}

/// The function under test.
pub struct TargetInfo {
    /// Entry address.
    pub fva: u64,
    /// Calling convention of the target.
    pub cc: CallingConvention,
}

/// A candidate that matched.
#[derive(Debug)]
pub struct FunctionInfo {
    pub name: String,
}

/// What one probe established.
#[derive(Debug, Clone, PartialEq, Eq, Structural)]
pub enum CallOutcome {
    /// The rule instance's verifier accepted the effects.
    Passed,
    /// The verifier rejected the effects, or the callee faulted.
    NotMatched,
    /// The engine itself failed; the identification cannot go on.
    Fault(emu::Error),
}

/// Classifies a probe: `Ok(verdict)` when the call completed and the
/// verifier gave `verdict`, `Err(e)` when it could not complete. A fault of
/// the callee's own execution only rules the candidate out; any other error
/// is an engine fault.
pub fn classify(result: Result<bool, emu::Error>) -> (r: CallOutcome)
    ensures
        result == Ok::<bool, emu::Error>(true) ==> r == CallOutcome::Passed,
        result == Ok::<bool, emu::Error>(false) ==> r == CallOutcome::NotMatched,
        result matches Err(emu::Error::ExecError(_)) ==> r == CallOutcome::NotMatched,
        (result is Err && !(result->Err_0 is ExecError)) ==> r == CallOutcome::Fault(result->Err_0),
{
    match result {
        Ok(true) => CallOutcome::Passed,
        Ok(false) => CallOutcome::NotMatched,
        Err(emu::Error::ExecError(_)) => CallOutcome::NotMatched,
        Err(e) => CallOutcome::Fault(e),
    }
}

/// How the instances of one candidate turned out.
pub enum Verdict {
    AllPassed,
    Mismatch,
    Faulted(emu::Error),
}

/// The verdict on candidate `c` when its instances from `k` up to `count`
/// are probed in order and instance `j` gives `o(c, j)`.
pub open spec fn instances_verdict(o: spec_fn(int, int) -> CallOutcome, c: int, k: int, count: int) -> Verdict
    decreases count - k,
{
    if k >= count {
        Verdict::AllPassed
    } else {
        match o(c, k) {
            CallOutcome::Passed => instances_verdict(o, c, k + 1, count),
            CallOutcome::NotMatched => Verdict::Mismatch,
            CallOutcome::Fault(e) => Verdict::Faulted(e),
        }
    }
}

/// The result of identifying from candidate `c` on, having matched
/// `matched` so far, when probe `(c, k)` gives `o(c, k)`.
pub open spec fn identify_from(counts: Seq<usize>, o: spec_fn(int, int) -> CallOutcome, c: int, matched: Seq<usize>) -> Result<Seq<usize>, emu::Error>
    decreases counts.len() - c,
{
    if c >= counts.len() || c < 0 {
        Ok(matched)
    } else {
        match instances_verdict(o, c, 0, counts[c] as int) {
            Verdict::AllPassed => identify_from(counts, o, c + 1, matched.push(c as usize)),
            Verdict::Mismatch => identify_from(counts, o, c + 1, matched),
            Verdict::Faulted(e) => Err(e),
        }
    }
}

/// The result of identifying a target against candidates with `counts[c]`
/// rule instances each, when probe `(c, k)` gives `o(c, k)`: the matched
/// candidates in declared order, or the first engine fault.
pub open spec fn identify_spec(counts: Seq<usize>, o: spec_fn(int, int) -> CallOutcome) -> Result<Seq<usize>, emu::Error> {
    identify_from(counts, o, 0, Seq::empty())
}

/// Whether every instance of candidate `c` passes.
pub open spec fn all_passed(o: spec_fn(int, int) -> CallOutcome, c: int, count: int) -> bool {
    forall|k: int| 0 <= k < count ==> #[trigger] o(c, k) == CallOutcome::Passed
}

/// Whether no probe of any candidate faults the engine.
pub open spec fn no_faults(counts: Seq<usize>, o: spec_fn(int, int) -> CallOutcome) -> bool {
    forall|c: int, k: int| 0 <= c < counts.len() && 0 <= k < counts[c] ==> !(#[trigger] o(c, k) is Fault)
}

proof fn lemma_verdict_all_passed(o: spec_fn(int, int) -> CallOutcome, c: int, k: int, count: int)
    requires
        0 <= k,
    ensures
        instances_verdict(o, c, k, count) is AllPassed <==> forall|j: int| k <= j < count ==> #[trigger] o(c, j) == CallOutcome::Passed,
    decreases count - k,
{
    if k < count {
        lemma_verdict_all_passed(o, c, k + 1, count);
    }
}

proof fn lemma_verdict_no_fault(o: spec_fn(int, int) -> CallOutcome, c: int, k: int, count: int)
    requires
        0 <= k,
        forall|j: int| k <= j < count ==> !(#[trigger] o(c, j) is Fault),
    ensures
        !(instances_verdict(o, c, k, count) is Faulted),
    decreases count - k,
{
    if k < count {
        lemma_verdict_no_fault(o, c, k + 1, count);
    }
}

proof fn lemma_verdict_agree(o1: spec_fn(int, int) -> CallOutcome, o2: spec_fn(int, int) -> CallOutcome, c: int, k: int, count: int)
    requires
        0 <= k,
        forall|j: int| k <= j < count ==> #[trigger] o1(c, j) == o2(c, j),
    ensures
        instances_verdict(o1, c, k, count) == instances_verdict(o2, c, k, count),
    decreases count - k,
{
    if k < count {
        lemma_verdict_agree(o1, o2, c, k + 1, count);
    }
}

/// What a successful identification from `c` on holds: the candidates
/// matched before, and each later candidate whose instances all pass.
proof fn lemma_identify_from_members(counts: Seq<usize>, o: spec_fn(int, int) -> CallOutcome, c: int, matched: Seq<usize>, x: usize)
    requires
        0 <= c,
        counts.len() <= usize::MAX,
        identify_from(counts, o, c, matched) is Ok,
    ensures
        identify_from(counts, o, c, matched)->Ok_0.contains(x) <==> matched.contains(x) || (c <= x < counts.len()
            && all_passed(o, x as int, counts[x as int] as int)),
    decreases counts.len() - c,
{
    if c < counts.len() {
        lemma_verdict_all_passed(o, c, 0, counts[c] as int);
        let v = instances_verdict(o, c, 0, counts[c] as int);
        if v is AllPassed {
            lemma_identify_from_members(counts, o, c + 1, matched.push(c as usize), x);
            let mp = matched.push(c as usize);
            if mp.contains(x) {
                let i = choose|i: int| 0 <= i < mp.len() && mp[i] == x;
                if i < matched.len() {
                    assert(matched[i] == x);
                }
            }
            if matched.contains(x) {
                let i = choose|i: int| 0 <= i < matched.len() && matched[i] == x;
                assert(mp[i] == x);
            }
            if x == c {
                assert(mp[matched.len() as int] == x);
            }
        } else {
            lemma_identify_from_members(counts, o, c + 1, matched, x);
        }
    }
}

proof fn lemma_identify_from_ok(counts: Seq<usize>, o: spec_fn(int, int) -> CallOutcome, c: int, matched: Seq<usize>)
    requires
        0 <= c,
        no_faults(counts, o),
    ensures
        identify_from(counts, o, c, matched) is Ok,
    decreases counts.len() - c,
{
    if c < counts.len() {
        assert forall|j: int| 0 <= j < counts[c] implies !(#[trigger] o(c, j) is Fault) by {}
        lemma_verdict_no_fault(o, c, 0, counts[c] as int);
        if instances_verdict(o, c, 0, counts[c] as int) is AllPassed {
            lemma_identify_from_ok(counts, o, c + 1, matched.push(c as usize));
        } else {
            lemma_identify_from_ok(counts, o, c + 1, matched);
        }
    }
}

proof fn lemma_identify_from_agree(counts: Seq<usize>, o1: spec_fn(int, int) -> CallOutcome, o2: spec_fn(int, int) -> CallOutcome, c: int, matched: Seq<usize>)
    requires
        0 <= c,
        forall|a: int, k: int| 0 <= a < counts.len() && 0 <= k < counts[a] ==> #[trigger] o1(a, k) == o2(a, k),
    ensures
        identify_from(counts, o1, c, matched) == identify_from(counts, o2, c, matched),
    decreases counts.len() - c,
{
    if c < counts.len() {
        assert forall|j: int| 0 <= j < counts[c] implies #[trigger] o1(c, j) == o2(c, j) by {}
        lemma_verdict_agree(o1, o2, c, 0, counts[c] as int);
        lemma_identify_from_agree(counts, o1, o2, c + 1, matched.push(c as usize));
        lemma_identify_from_agree(counts, o1, o2, c + 1, matched);
    }
}

/// Determinism: the result depends on nothing but the outcome of each
/// probe. Since every probe starts from the same restored baseline,
/// identifying the same target twice against the same candidates gives the
/// same result.
pub proof fn lemma_identify_deterministic(counts: Seq<usize>, o1: spec_fn(int, int) -> CallOutcome, o2: spec_fn(int, int) -> CallOutcome)
    requires
        forall|c: int, k: int| 0 <= c < counts.len() && 0 <= k < counts[c] ==> #[trigger] o1(c, k) == o2(c, k),
    ensures
        identify_spec(counts, o1) == identify_spec(counts, o2),
{
    lemma_identify_from_agree(counts, o1, o2, 0, Seq::empty());
}

/// A candidate one of whose instances does not pass is never reported as
/// matched, whichever instance it is.
pub proof fn lemma_all_instances_required(counts: Seq<usize>, o: spec_fn(int, int) -> CallOutcome, c: int, k: int)
    requires
        counts.len() <= usize::MAX,
        0 <= c < counts.len(),
        0 <= k < counts[c],
        o(c, k) != CallOutcome::Passed,
    ensures
        identify_spec(counts, o) matches Ok(m) ==> !m.contains(c as usize),
{
    if identify_spec(counts, o) is Ok {
        lemma_identify_from_members(counts, o, 0, Seq::empty(), c as usize);
    }
}

/// Ambiguity is surfaced: when no probe faults the engine, every candidate
/// whose instances all pass is reported, so two such candidates are both
/// reported.
pub proof fn lemma_ambiguity_surfaced(counts: Seq<usize>, o: spec_fn(int, int) -> CallOutcome, c1: int, c2: int)
    requires
        counts.len() <= usize::MAX,
        no_faults(counts, o),
        0 <= c1 < counts.len(),
        0 <= c2 < counts.len(),
        all_passed(o, c1, counts[c1] as int),
        all_passed(o, c2, counts[c2] as int),
    ensures
        identify_spec(counts, o) is Ok,
        identify_spec(counts, o)->Ok_0.contains(c1 as usize),
        identify_spec(counts, o)->Ok_0.contains(c2 as usize),
{
    lemma_identify_from_ok(counts, o, 0, Seq::empty());
    lemma_identify_from_members(counts, o, 0, Seq::empty(), c1 as usize);
    lemma_identify_from_members(counts, o, 0, Seq::empty(), c2 as usize);
}

/// The first candidate from `c` on that has rule instances, or the number
/// of candidates when there is none.
pub open spec fn next_nonempty(counts: Seq<usize>, c: int) -> int
    decreases counts.len() - c,
{
    if c >= counts.len() {
        counts.len() as int
    } else if counts[c] > 0 {
        c
    } else {
        next_nonempty(counts, c + 1)
    }
}

/// The identification loop of one target, driven by the host: it names the
/// next probe to run and takes the outcome of each probe in turn.
pub struct Identification {
    counts: Vec<usize>,
    candidate: usize,
    instance: usize,
    matched: Vec<usize>,
    fault: Option<emu::Error>,
}

impl Identification {
    /// Number of rule instances of each candidate.
    pub closed spec fn counts(self) -> Seq<usize> {
        self.counts@
    }

    /// The candidate and instance probed next.
    pub closed spec fn position(self) -> (int, int) {
        (self.candidate as int, self.instance as int)
    }

    /// Whether the identification is over: a fault occurred or every
    /// candidate has been decided.
    pub closed spec fn done(self) -> bool {
        self.fault is Some || self.candidate >= self.counts@.len()
    }

    /// The position is a valid probe unless the identification is over.
    pub closed spec fn wf(self) -> bool {
        &&& self.candidate <= self.counts@.len()
        &&& !self.done() ==> self.instance < self.counts@[self.candidate as int]
    }

    /// The result the identification reaches from here when every further
    /// probe `(c, k)` gives `o(c, k)`.
    pub closed spec fn resume(self, o: spec_fn(int, int) -> CallOutcome) -> Result<Seq<usize>, emu::Error> {
        match self.fault {
            Some(e) => Err(e),
            None => if self.candidate >= self.counts@.len() {
                Ok(self.matched@)
            } else {
                let c = self.candidate as int;
                match instances_verdict(o, c, self.instance as int, self.counts@[c] as int) {
                    Verdict::AllPassed => identify_from(self.counts@, o, c + 1, self.matched@.push(c as usize)),
                    Verdict::Mismatch => identify_from(self.counts@, o, c + 1, self.matched@),
                    Verdict::Faulted(e) => Err(e),
                }
            },
        }
    }

    /// Moves past candidates whose instances have all passed, recording
    /// them as matched.
    fn settle(&mut self)
        requires
            old(self).candidate <= old(self).counts@.len(),
            old(self).candidate < old(self).counts@.len() ==> old(self).instance <= old(self).counts@[old(self).candidate as int],
        ensures
            final(self).wf(),
            final(self).counts@ == old(self).counts@,
            final(self).fault == old(self).fault,
            forall|o: spec_fn(int, int) -> CallOutcome| #[trigger] final(self).resume(o) == old(self).resume(o),
            old(self).fault is None && old(self).candidate < old(self).counts@.len() && old(self).instance
                >= old(self).counts@[old(self).candidate as int] ==> final(self).position() == (
                next_nonempty(old(self).counts@, old(self).candidate + 1),
                0int,
            ),
            !(old(self).fault is None && old(self).candidate < old(self).counts@.len() && old(self).instance
                >= old(self).counts@[old(self).candidate as int]) ==> final(self).position() == old(self).position(),
    {
        if self.fault.is_some() {
            return;
        }
        let ghost mut moved = false;
        while self.candidate < self.counts.len() && self.instance >= self.counts[self.candidate]
            invariant
                self.fault is None,
                self.counts@ == old(self).counts@,
                self.candidate <= self.counts@.len(),
                self.candidate < self.counts@.len() ==> self.instance <= self.counts@[self.candidate as int],
                forall|o: spec_fn(int, int) -> CallOutcome| #[trigger] self.resume(o) == old(self).resume(o),
                !moved ==> self.position() == old(self).position(),
                moved ==> self.instance == 0 && old(self).candidate < old(self).counts@.len() && old(self).instance
                    >= old(self).counts@[old(self).candidate as int] && next_nonempty(
                    self.counts@,
                    old(self).candidate + 1,
                ) == next_nonempty(self.counts@, self.candidate as int),
            decreases self.counts@.len() - self.candidate,
        {
            let ghost pre = *self;
            self.matched.push(self.candidate);
            self.candidate = self.candidate + 1;
            self.instance = 0;
            proof {
                moved = true;
                assert forall|o: spec_fn(int, int) -> CallOutcome| #[trigger] self.resume(o) == pre.resume(o) by {
                    assert(self.matched@ == pre.matched@.push(pre.candidate));
                }
            }
        }
    }

    /// The identification of a target against candidates with `counts[c]`
    /// rule instances each. Driving it with probe outcomes `o` reaches
    /// `identify_spec(counts, o)`.
    pub fn new(counts: Vec<usize>) -> (r: Identification)
        ensures
            r.wf(),
            r.counts() == counts@,
            forall|o: spec_fn(int, int) -> CallOutcome| #[trigger] r.resume(o) == identify_spec(counts@, o),
            r.position() == (next_nonempty(counts@, 0), 0int),
            r.done() <==> r.position().0 >= counts@.len(),
    {
        let ghost cs = counts@;
        let mut r = Identification { counts, candidate: 0, instance: 0, matched: Vec::new(), fault: None };
        proof {
            assert forall|o: spec_fn(int, int) -> CallOutcome| #[trigger] r.resume(o) == identify_spec(cs, o) by {
                assert(r.matched@ == Seq::<usize>::empty());
            }
        }
        r.settle();
        r
    }

    /// The probe to run next, as (candidate, instance), or `None` when the
    /// identification is over.
    pub fn next_probe(&self) -> (r: Option<(usize, usize)>)
        requires
            self.wf(),
        ensures
            r is None <==> self.done(),
            r matches Some(p) ==> p.0 as int == self.position().0 && p.1 as int == self.position().1 && p.0
                < self.counts().len() && p.1 < self.counts()[p.0 as int],
    {
        if self.fault.is_some() || self.candidate >= self.counts.len() {
            None
        } else {
            Some((self.candidate, self.instance))
        }
    }

    /// Records the outcome of the probe named by `next_probe`: a pass moves
    /// to the next instance, a mismatch rules the candidate out and moves to
    /// the next candidate, a fault ends the identification.
    pub fn record(&mut self, outcome: CallOutcome)
        requires
            old(self).wf(),
            !old(self).done(),
        ensures
            final(self).wf(),
            final(self).counts() == old(self).counts(),
            forall|o: spec_fn(int, int) -> CallOutcome|
                o(old(self).position().0, old(self).position().1) == outcome ==> #[trigger] final(self).resume(o)
                    == old(self).resume(o),
            ({
                let (c, k) = old(self).position();
                let counts = old(self).counts();
                &&& outcome is Fault ==> final(self).done()
                &&& !(outcome is Fault) ==> (final(self).done() <==> final(self).position().0 >= counts.len())
                &&& outcome is Passed && k + 1 < counts[c] ==> final(self).position() == (c, k + 1)
                &&& outcome is Passed && k + 1 >= counts[c] ==> final(self).position() == (next_nonempty(counts, c + 1), 0int)
                &&& outcome is NotMatched ==> final(self).position() == (next_nonempty(counts, c + 1), 0int)
            }),
    {
        let ghost pre = *self;
        match outcome {
            CallOutcome::Passed => {
                self.instance = self.instance + 1;
                proof {
                    assert forall|o: spec_fn(int, int) -> CallOutcome|
                        o(pre.candidate as int, pre.instance as int) == outcome implies #[trigger] self.resume(o)
                            == pre.resume(o) by {
                        let c = pre.candidate as int;
                        assert(instances_verdict(o, c, pre.instance as int, pre.counts@[c] as int) == instances_verdict(
                            o,
                            c,
                            pre.instance + 1,
                            pre.counts@[c] as int,
                        ));
                    }
                }
                self.settle();
            },
            CallOutcome::NotMatched => {
                let n = self.counts.len();
                assert(self.candidate < n);
                self.candidate = self.candidate + 1;
                self.instance = 0;
                self.settle();
            },
            CallOutcome::Fault(e) => {
                self.fault = Some(e);
            },
        }
    }

    /// The result once the identification is over: the matched candidates
    /// in declared order, or the engine fault that ended it.
    pub fn result(&self) -> (r: Option<Result<Vec<usize>, emu::Error>>)
        requires
            self.wf(),
        ensures
            r is None <==> !self.done(),
            r matches Some(res) ==> forall|o: spec_fn(int, int) -> CallOutcome| #[trigger] self.resume(o) == (match res {
                Ok(m) => Ok(m@),
                Err(e) => Err::<Seq<usize>, emu::Error>(e),
            }),
    {
        match &self.fault {
            Some(e) => Some(Err(*e)),
            None => if self.candidate >= self.counts.len() {
                Some(Ok(vstd::slice::slice_to_vec(self.matched.as_slice())))
            } else {
                None
            },
        }
    }
}

/// A named hypothesis about the target, with the inputs of its rule
/// instances in declared order (their verifiers live with the host).
pub struct TargetRules {
    pub name: String,
    pub inputs: Vec<EmuArgs>,
}

/// The candidate catalog, in declared order.
pub struct RuleSet {
    pub candidates_rules: Vec<TargetRules>,
}

impl RuleSet {
    /// An empty catalog.
    pub fn new() -> (r: RuleSet)
        ensures
            r.candidates_rules@.len() == 0,
    {
        RuleSet { candidates_rules: Vec::new() }
    }

    /// Number of rule instances of each candidate, in catalog order.
    pub fn instance_counts(&self) -> (r: Vec<usize>)
        ensures
            r@.len() == self.candidates_rules@.len(),
            forall|i: int| 0 <= i < self.candidates_rules@.len() ==> #[trigger] r@[i] == self.candidates_rules@[i].inputs@.len(),
    {
        let mut r: Vec<usize> = Vec::new();
        let mut i: usize = 0;
        while i < self.candidates_rules.len()
            invariant
                i <= self.candidates_rules@.len(),
                r@.len() == i,
                forall|k: int| 0 <= k < i ==> #[trigger] r@[k] == self.candidates_rules@[k].inputs@.len(),
            decreases self.candidates_rules@.len() - i,
        {
            r.push(self.candidates_rules[i].inputs.len());
            i = i + 1;
        }
        r
    }

    /// The names of the matched candidates, in the order given.
    pub fn matched_names(&self, matched: &Vec<usize>) -> (r: Vec<FunctionInfo>)
        requires
            forall|i: int| 0 <= i < matched@.len() ==> #[trigger] matched@[i] < self.candidates_rules@.len(),
        ensures
            r@.len() == matched@.len(),
            forall|i: int| 0 <= i < matched@.len() ==> #[trigger] r@[i].name@ == self.candidates_rules@[matched@[i] as int].name@,
    {
        let mut r: Vec<FunctionInfo> = Vec::new();
        let mut i: usize = 0;
        while i < matched.len()
            invariant
                i <= matched@.len(),
                forall|k: int| 0 <= k < matched@.len() ==> #[trigger] matched@[k] < self.candidates_rules@.len(),
                r@.len() == i,
                forall|k: int| 0 <= k < i ==> #[trigger] r@[k].name@ == self.candidates_rules@[matched@[k] as int].name@,
            decreases matched@.len() - i,
        {
            r.push(FunctionInfo { name: self.candidates_rules[matched[i]].name.clone() });
            i = i + 1;
        }
        r
    }
}

/// The calling convention of the supported platform.
pub fn default_cc() -> (r: CallingConvention)
    ensures
        r == CallingConvention::SystemV,
{
    CallingConvention::SystemV
}

} // verus!

//! Link-speed discovery: a state machine that decides which speed to try
//! next. The caller performs each step on the transport and reports back
//! whether it succeeded.
use vstd::prelude::*;

verus! {

/// Number of candidate link speeds.
pub const BAUD_CANDIDATE_COUNT: usize = 10;

/// Trial reads issued at each candidate speed.
pub const PROBES_PER_RATE: u8 = 2;

/// Steps a scan takes at most before it finishes.
pub const MAX_SCAN_STEPS: usize = 30;

/// The candidate link speeds, most common first.
pub open spec fn baud_candidates() -> Seq<u32> {
    seq![9600, 19200, 38400, 57600, 115200, 2400, 4800, 230400, 460800, 921600]
}

/// The candidate link speeds, in the order they are tried.
pub fn supported_baud_rates() -> (r: Vec<u32>)
    ensures
        r@ == baud_candidates(),
{
    let r = vec![9600, 19200, 38400, 57600, 115200, 2400, 4800, 230400, 460800, 921600];
    assert(r@ =~= baud_candidates());
    r
}

/// Where a scan stands.
#[derive(PartialEq, Eq, Structural, Debug, Clone, Copy)]
pub enum ScanPhase {
    /// The current candidate speed is to be applied.
    Apply,
    /// A trial read is to be issued at the current speed.
    Probe,
    /// The current speed answered.
    Found,
    /// Every candidate failed.
    Exhausted,
}

/// What the caller is to do next.
#[derive(PartialEq, Eq, Structural, Debug, Clone, Copy)]
pub enum ScanStep {
    /// Switch the transport to this speed, then discard buffered input;
    /// report whether the switch succeeded.
    SetRate(u32),
    /// Send a trial read at this speed, wait, then feed what arrived to the
    /// reassembler; report whether a frame was decoded.
    Probe(u32),
    /// The sensor answers at this speed.
    Found(u32),
    /// No candidate speed answered.
    NotFound,
}

/// Scan position: candidate index, trial reads done at it, phase.
pub type ScanModel = (nat, nat, ScanPhase);

/// The position at the start of candidate `i`, or the end of the scan.
pub open spec fn at_candidate(i: nat) -> ScanModel {
    if i < BAUD_CANDIDATE_COUNT {
        (i, 0, ScanPhase::Apply)
    } else {
        (BAUD_CANDIDATE_COUNT as nat, 0, ScanPhase::Exhausted)
    }
}

/// Positions a scan can reach.
pub open spec fn scan_wf(m: ScanModel) -> bool {
    &&& m.1 < PROBES_PER_RATE
    &&& m.2 == ScanPhase::Exhausted ==> m.0 == BAUD_CANDIDATE_COUNT
    &&& m.2 != ScanPhase::Exhausted ==> m.0 < BAUD_CANDIDATE_COUNT
}

/// The position after the current step reported `ok`.
pub open spec fn scan_next(m: ScanModel, ok: bool) -> ScanModel {
    match m.2 {
        ScanPhase::Apply => if ok {
            (m.0, 0, ScanPhase::Probe)
        } else {
            at_candidate(m.0 + 1)
        },
        ScanPhase::Probe => if ok {
            (m.0, m.1, ScanPhase::Found)
        } else if m.1 + 1 >= PROBES_PER_RATE {
            at_candidate(m.0 + 1)
        } else {
            (m.0, m.1 + 1, ScanPhase::Probe)
        },
        _ => m,
    }
}

/// The step a position asks for.
pub open spec fn scan_step(m: ScanModel) -> ScanStep {
    match m.2 {
        ScanPhase::Apply => ScanStep::SetRate(baud_candidates()[m.0 as int]),
        ScanPhase::Probe => ScanStep::Probe(baud_candidates()[m.0 as int]),
        ScanPhase::Found => ScanStep::Found(baud_candidates()[m.0 as int]),
        ScanPhase::Exhausted => ScanStep::NotFound,
    }
}

/// Decides the steps of a link-speed scan.
pub struct BaudScanner {
    index: usize,
    probes: u8,
    phase: ScanPhase,
}

impl BaudScanner {
    /// Candidate index, trial reads done at it, phase.
    pub closed spec fn model(&self) -> ScanModel {
        (self.index as nat, self.probes as nat, self.phase)
    }

    /// A scan at the first candidate.
    pub fn new() -> (r: Self)
        ensures
            r.model() == at_candidate(0),
            scan_wf(r.model()),
    {
        BaudScanner { index: 0, probes: 0, phase: ScanPhase::Apply }
    }

    /// The step to perform now.
    pub fn step(&self) -> (r: ScanStep)
        requires
            scan_wf(self.model()),
        ensures
            r == scan_step(self.model()),
    {
        let rates = supported_baud_rates();
        match self.phase {
            ScanPhase::Apply => ScanStep::SetRate(rates[self.index]),
            ScanPhase::Probe => ScanStep::Probe(rates[self.index]),
            ScanPhase::Found => ScanStep::Found(rates[self.index]),
            ScanPhase::Exhausted => ScanStep::NotFound,
        }
    }

    fn next_candidate(&mut self)
        requires
            old(self).index < BAUD_CANDIDATE_COUNT,
        ensures
            final(self).model() == at_candidate(old(self).index as nat + 1),
    {
        self.index = self.index + 1;
        self.probes = 0;
        if self.index >= BAUD_CANDIDATE_COUNT {
            self.phase = ScanPhase::Exhausted;
        } else {
            self.phase = ScanPhase::Apply;
        }
    }

    /// Records whether the current step succeeded and moves on.
    pub fn advance(&mut self, ok: bool)
        requires
            scan_wf(old(self).model()),
        ensures
            final(self).model() == scan_next(old(self).model(), ok),
            scan_wf(final(self).model()),
    {
        match self.phase {
            ScanPhase::Apply => {
                if ok {
                    self.phase = ScanPhase::Probe;
                    self.probes = 0;
                } else {
                    self.next_candidate();
                }
            },
            ScanPhase::Probe => {
                if ok {
                    self.phase = ScanPhase::Found;
                } else if self.probes + 1 >= PROBES_PER_RATE {
                    self.next_candidate();
                } else {
                    self.probes = self.probes + 1;
                }
            },
            _ => {},
        }
    }
}

/// What a transport reports when it applies every speed and answers trial
/// reads only at speed `answer` (never, for `None`).
pub open spec fn simulated_outcome(m: ScanModel, answer: Option<u32>) -> bool {
    match m.2 {
        ScanPhase::Probe => answer == Some(baud_candidates()[m.0 as int]),
        _ => true,
    }
}

/// The position after `fuel` steps against that transport.
pub open spec fn run_scan(m: ScanModel, answer: Option<u32>, fuel: nat) -> ScanModel
    decreases fuel,
{
    if fuel == 0 {
        m
    } else {
        run_scan(scan_next(m, simulated_outcome(m, answer)), answer, (fuel - 1) as nat)
    }
}

/// The speeds applied during those steps, in order.
pub open spec fn rates_tried(m: ScanModel, answer: Option<u32>, fuel: nat) -> Seq<u32>
    decreases fuel,
{
    if fuel == 0 {
        Seq::empty()
    } else {
        let here = if m.2 == ScanPhase::Apply {
            seq![baud_candidates()[m.0 as int]]
        } else {
            Seq::empty()
        };
        here + rates_tried(scan_next(m, simulated_outcome(m, answer)), answer, (fuel - 1) as nat)
    }
}

proof fn lemma_terminal_stays(m: ScanModel, answer: Option<u32>, fuel: nat)
    requires
        m.2 == ScanPhase::Found || m.2 == ScanPhase::Exhausted,
    ensures
        run_scan(m, answer, fuel) == m,
        rates_tried(m, answer, fuel) == Seq::<u32>::empty(),
    decreases fuel,
{
    if fuel > 0 {
        lemma_terminal_stays(m, answer, (fuel - 1) as nat);
        assert(Seq::<u32>::empty() + Seq::<u32>::empty() =~= Seq::<u32>::empty());
    }
}

/// A candidate that does not answer is left after three steps, having been applied once.
proof fn lemma_skip_candidate(i: nat, answer: Option<u32>, fuel: nat)
    requires
        i < BAUD_CANDIDATE_COUNT,
        answer != Some(baud_candidates()[i as int]),
    ensures
        run_scan(at_candidate(i), answer, fuel + 3) == run_scan(at_candidate(i + 1), answer, fuel),
        rates_tried(at_candidate(i), answer, fuel + 3) == seq![baud_candidates()[i as int]]
            + rates_tried(at_candidate(i + 1), answer, fuel),
{
    let m0 = at_candidate(i);
    let m1 = scan_next(m0, simulated_outcome(m0, answer));
    let m2 = scan_next(m1, simulated_outcome(m1, answer));
    assert(m1 == (i, 0nat, ScanPhase::Probe));
    assert(m2 == (i, 1nat, ScanPhase::Probe));
    assert(scan_next(m2, simulated_outcome(m2, answer)) == at_candidate(i + 1));
    assert(run_scan(m0, answer, fuel + 3) == run_scan(m1, answer, fuel + 2));
    assert(run_scan(m1, answer, fuel + 2) == run_scan(m2, answer, fuel + 1));
    assert(rates_tried(m1, answer, fuel + 2) == Seq::<u32>::empty() + rates_tried(m2, answer, fuel + 1));
    assert(rates_tried(m2, answer, fuel + 1) == Seq::<u32>::empty() + rates_tried(at_candidate(i + 1), answer, fuel));
    assert(Seq::<u32>::empty() + rates_tried(m2, answer, fuel + 1) =~= rates_tried(m2, answer, fuel + 1));
    assert(Seq::<u32>::empty() + rates_tried(at_candidate(i + 1), answer, fuel) =~= rates_tried(at_candidate(i + 1), answer, fuel));
}

proof fn lemma_silent_from(i: nat, answer: Option<u32>)
    requires
        i <= BAUD_CANDIDATE_COUNT,
        forall|j: int| i <= j < BAUD_CANDIDATE_COUNT ==> answer != Some(#[trigger] baud_candidates()[j]),
    ensures
        run_scan(at_candidate(i), answer, (3 * (BAUD_CANDIDATE_COUNT - i)) as nat) == at_candidate(
            BAUD_CANDIDATE_COUNT as nat,
        ),
        rates_tried(at_candidate(i), answer, (3 * (BAUD_CANDIDATE_COUNT - i)) as nat)
            == baud_candidates().subrange(i as int, BAUD_CANDIDATE_COUNT as int),
    decreases BAUD_CANDIDATE_COUNT - i,
{
    if i == BAUD_CANDIDATE_COUNT {
        assert(baud_candidates().subrange(i as int, BAUD_CANDIDATE_COUNT as int) =~= Seq::<u32>::empty());
    } else {
        lemma_silent_from(i + 1, answer);
        let f = (3 * (BAUD_CANDIDATE_COUNT - i - 1)) as nat;
        lemma_skip_candidate(i, answer, f);
        assert(f + 3 == 3 * (BAUD_CANDIDATE_COUNT - i));
        assert(seq![baud_candidates()[i as int]] + baud_candidates().subrange(
            i + 1 as int,
            BAUD_CANDIDATE_COUNT as int,
        ) =~= baud_candidates().subrange(i as int, BAUD_CANDIDATE_COUNT as int));
    }
}

proof fn lemma_found_from(i: nat, rate: u32)
    requires
        i < BAUD_CANDIDATE_COUNT,
        exists|j: int| i <= j < BAUD_CANDIDATE_COUNT && #[trigger] baud_candidates()[j] == rate,
    ensures
        ({
            let m = run_scan(at_candidate(i), Some(rate), (3 * (BAUD_CANDIDATE_COUNT - i)) as nat);
            m.2 == ScanPhase::Found && m.0 < BAUD_CANDIDATE_COUNT && baud_candidates()[m.0 as int]
                == rate
        }),
    decreases BAUD_CANDIDATE_COUNT - i,
{
    let total = (3 * (BAUD_CANDIDATE_COUNT - i)) as nat;
    if baud_candidates()[i as int] == rate {
        let m0 = at_candidate(i);
        let m1 = scan_next(m0, true);
        assert(m1 == (i, 0nat, ScanPhase::Probe));
        let m2 = scan_next(m1, true);
        assert(run_scan(m0, Some(rate), 2) == run_scan(m1, Some(rate), 1));
        assert(run_scan(m1, Some(rate), 1) == run_scan(m2, Some(rate), 0));
        lemma_run_split(m0, Some(rate), 2, (total - 2) as nat);
        lemma_terminal_stays(m2, Some(rate), (total - 2) as nat);
    } else {
        let j = choose|j: int| i <= j < BAUD_CANDIDATE_COUNT && #[trigger] baud_candidates()[j] == rate;
        assert(j != i);
        lemma_found_from(i + 1, rate);
        lemma_skip_candidate(i, Some(rate), (3 * (BAUD_CANDIDATE_COUNT - i - 1)) as nat);
        assert((3 * (BAUD_CANDIDATE_COUNT - i - 1)) as nat + 3 == total);
    }
}

/// Against a transport that never answers, the scan applies every candidate
/// speed in order and then reports that no speed answered.
pub proof fn lemma_scan_silent_transport()
    ensures
        scan_step(run_scan(at_candidate(0), None, MAX_SCAN_STEPS as nat)) == ScanStep::NotFound,
        rates_tried(at_candidate(0), None, MAX_SCAN_STEPS as nat) == baud_candidates(),
{
    lemma_silent_from(0, None);
    assert(baud_candidates().subrange(0, BAUD_CANDIDATE_COUNT as int) =~= baud_candidates());
}

/// Against a transport that answers only at one candidate speed, the scan
/// finds that speed.
pub proof fn lemma_scan_finds_answering_rate(rate: u32)
    requires
        baud_candidates().contains(rate),
    ensures
        scan_step(run_scan(at_candidate(0), Some(rate), MAX_SCAN_STEPS as nat)) == ScanStep::Found(rate),
{
    let k = choose|k: int| 0 <= k < baud_candidates().len() && baud_candidates()[k] == rate;
    assert(baud_candidates()[k] == rate);
    lemma_found_from(0, rate);
}

proof fn lemma_run_split(m: ScanModel, answer: Option<u32>, a: nat, b: nat)
    ensures
        run_scan(m, answer, a + b) == run_scan(run_scan(m, answer, a), answer, b),
    decreases a,
{
    if a > 0 {
        lemma_run_split(scan_next(m, simulated_outcome(m, answer)), answer, (a - 1) as nat, b);
        assert((a + b - 1) as nat == (a - 1) as nat + b);
    }
}

} // verus!

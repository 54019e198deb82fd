use vstd::prelude::*;
use crate::address::{address_of, generate, is_address, is_valid_secret, Candidate, SECRET_KEY_BYTES};
use crate::hex::{hex_of, to_hex_string};
use crate::pattern::is_hex_digit;
use crate::pattern_vec::PatternVec;

verus! {

/// A found address and its secret key, both in lowercase hex.
pub struct SearchResult {
    pub address: String,
    pub private_key: String,
}

/// The slot that the workers of one round race to fill; filling it ends the round.
pub struct ResultRendezvous {
    slot: Option<SearchResult>,
}

impl ResultRendezvous {
    /// What the slot holds.
    pub closed spec fn view(&self) -> Option<SearchResult> {
        self.slot
    }

    /// An empty slot, for a new round.
    pub fn new() -> (r: ResultRendezvous)
        ensures
            r@ is None,
    {
        ResultRendezvous { slot: None }
    }

    /// Stores `result`, replacing whatever the slot held: any stored result
    /// satisfies the patterns, so the last writer wins.
    pub fn try_claim(&mut self, result: SearchResult)
        ensures
            final(self)@ == Some(result),
    {
        self.slot = Some(result);
    }

    /// Whether a result has been stored.
    pub fn peek(&self) -> (r: bool)
        ensures
            r == self@ is Some,
    {
        self.slot.is_some()
    }

    /// The stored result, ending the round.
    pub fn into_result(self) -> (r: Option<SearchResult>)
        ensures
            r == self@,
    {
        self.slot
    }
}

/// The number of candidates tried since the meter last read it.
pub struct AttemptCounter {
    count: u32,
}

impl AttemptCounter {
    pub closed spec fn view(&self) -> u32 {
        self.count
    }

    /// A counter at zero, for a new round.
    pub fn new() -> (r: AttemptCounter)
        ensures
            r@ == 0,
    {
        AttemptCounter { count: 0 }
    }

    /// Counts one more candidate, wrapping around at the 32-bit limit.
    pub fn increment(&mut self)
        ensures
            final(self)@ == (if old(self)@ == u32::MAX { 0 } else { (old(self)@ + 1) as u32 }),
    {
        self.count = self.count.wrapping_add(1);
    }

    /// Reads the count and sets it back to zero.
    pub fn sample_and_reset(&mut self) -> (r: u32)
        ensures
            r == old(self)@,
            final(self)@ == 0,
    {
        let r = self.count;
        self.count = 0;
        r
    }
}

/// The result reported for a candidate that satisfies the patterns.
pub open spec fn result_of(c: Candidate) -> (Seq<char>, Seq<char>) {
    (c.address@, hex_of(c.private_key@))
}

/// Tests one candidate: a result if its address satisfies the patterns, else
/// the attempt is counted.
pub fn attempt(patterns: &PatternVec, candidate: Candidate, counter: &mut AttemptCounter) -> (r: Option<SearchResult>)
    requires
        patterns.well_formed(),
    ensures
        r is Some <==> patterns.spec_contains(candidate.address@),
        r matches Some(res) ==> (res.address@, res.private_key@) == result_of(candidate),
        r is Some ==> final(counter)@ == old(counter)@,
        r is None ==> final(counter)@ == (if old(counter)@ == u32::MAX { 0 } else { (old(counter)@ + 1) as u32 }),
{
    if patterns.contains(&candidate.address) {
        let private_key = to_hex_string(candidate.private_key.as_slice(), 2 * SECRET_KEY_BYTES);
        Some(SearchResult { address: candidate.address, private_key })
    } else {
        counter.increment();
        None
    }
}

/// One iteration of a worker: a fresh candidate, tested as by `attempt`.
pub fn run_attempt(patterns: &PatternVec, counter: &mut AttemptCounter) -> (r: Option<SearchResult>)
    requires
        patterns.well_formed(),
    ensures
        r matches Some(res) ==> patterns.spec_contains(res.address@),
        r matches Some(res) ==> exists|k: Seq<u8>| is_valid_secret(k) && res.address@ == address_of(k)
            && res.private_key@ == hex_of(k),
        r is None ==> exists|a: Seq<char>| is_address(a) && !patterns.spec_contains(a),
        r is Some ==> final(counter)@ == old(counter)@,
        r is None ==> final(counter)@ == (if old(counter)@ == u32::MAX { 0 } else { (old(counter)@ + 1) as u32 }),
{
    let candidate = generate();
    attempt(patterns, candidate, counter)
}

/// What a worker does next.
pub enum WorkerStep {
    /// The round is over: stop.
    Stop,
    /// Try one more candidate.
    Attempt,
}

/// A worker stops once the rendezvous holds a result, and goes on otherwise.
pub fn worker_step(rendezvous: &ResultRendezvous) -> (r: WorkerStep)
    ensures
        r is Stop <==> rendezvous@ is Some,
{
    if rendezvous.peek() {
        WorkerStep::Stop
    } else {
        WorkerStep::Attempt
    }
}

/// Why a search cannot start.
#[derive(Debug, PartialEq, Eq)]
pub enum SearchError {
    /// No pattern survived parsing.
    EmptyPatternSet,
}

/// A search starts only with at least one pattern.
pub fn check_can_start(patterns: &PatternVec) -> (r: Result<(), SearchError>)
    ensures
        r is Err <==> (if patterns.is_regex() { patterns.regex_view().len() == 0 } else { patterns.prefix_view().len() == 0 }),
{
    if patterns.is_empty() {
        Err(SearchError::EmptyPatternSet)
    } else {
        Ok(())
    }
}

/// What the controller does once a round has ended.
pub enum AfterRound {
    /// Report the result and start a new round with fresh state.
    Restart,
    /// Report the result and stop.
    Finish,
}

/// In streaming mode rounds repeat without end; otherwise one round is all.
pub fn after_round(stream_mode: bool) -> (r: AfterRound)
    ensures
        r is Restart <==> stream_mode,
{
    if stream_mode {
        AfterRound::Restart
    } else {
        AfterRound::Finish
    }
}

/// A prefix set that holds every single hex digit accepts every address, so
/// that each attempt of each worker finds a result (see `run_attempt`): a
/// round then ends after one attempt per worker at most.
pub proof fn lemma_every_digit_matches_all(patterns: &PatternVec, address: Seq<char>)
    requires
        patterns.well_formed(),
        !patterns.is_regex(),
        forall|c: char| is_hex_digit(c) ==> patterns.prefix_view().contains(seq![c]),
        is_address(address),
    ensures
        patterns.spec_contains(address),
{
    let c = address[0];
    let k = choose|k: int| 0 <= k < patterns.prefix_view().len() && patterns.prefix_view()[k] == seq![c];
    assert(seq![c] =~= address.subrange(0, 1));
    assert(patterns.prefix_view()[k].is_prefix_of(address));
}

} // verus!

//! Windowed throughput accounting for a bounded, time-budgeted, strictly
//! sequential run of object fetches.

use crate::key::object_key;
use crate::key::object_key_spec;
use vstd::arithmetic::mul::lemma_mul_inequality;
use vstd::prelude::*;

verus! {

/// Run configuration: every knob is passed explicitly, none is global.
#[derive(Clone, Copy, PartialEq, Eq, Structural, Debug)]
pub struct RunConfig {
    /// First block number to fetch.
    pub block_offset: u64,
    /// Increment between successive block numbers.
    pub stride: u64,
    /// Maximum number of objects fetched in one run.
    pub iteration_cap: u64,
    /// Length of one throughput-sampling window, in nanoseconds.
    pub window_period_nanos: u64,
    /// Wall-clock budget for the whole run, in nanoseconds.
    pub test_duration_nanos: u64,
}

impl RunConfig {
    /// A configuration is usable when the sampling window and the budget are
    /// positive, at least one iteration is allowed, and every block number
    /// the run can compute fits in a machine word.
    pub open spec fn wf(self) -> bool {
        &&& self.window_period_nanos > 0
        &&& self.test_duration_nanos > 0
        &&& self.iteration_cap >= 1
        &&& self.block_offset + self.iteration_cap * self.stride <= u64::MAX
    }

    /// The stock configuration: stride 100, cap 1000 iterations, a five
    /// second sampling window and a two minute budget.
    pub fn standard(block_offset: u64) -> (r: RunConfig)
        requires
            block_offset <= u64::MAX - 100_000,
        ensures
            r.wf(),
            r.block_offset == block_offset,
            r.stride == 100,
            r.iteration_cap == 1000,
            r.window_period_nanos == 5_000_000_000,
            r.test_duration_nanos == 120_000_000_000,
    {
        RunConfig {
            block_offset,
            stride: 100,
            iteration_cap: 1000,
            window_period_nanos: 5_000_000_000,
            test_duration_nanos: 120_000_000_000,
        }
    }
}

/// The sequential phases of the harness state machine.
#[derive(Clone, Copy, PartialEq, Eq, Structural, Debug)]
pub enum Phase {
    Idle,
    Fetching,
    Streaming,
    Done,
}

/// One throughput sample: the bytes moved during one full window period.
#[derive(Clone, Copy, PartialEq, Eq, Structural, Debug)]
pub struct RateSample {
    pub bytes: u64,
    pub period_nanos: u64,
}

/// Final metrics of a completed run.
#[derive(Clone, Copy, PartialEq, Eq, Structural, Debug)]
pub struct FinalMetrics {
    pub total_bytes: u64,
    pub elapsed_nanos: u64,
    pub fetch_count: u64,
    pub total_fetch_nanos: u64,
}

impl FinalMetrics {
    /// Mean fetch-open latency over the run.
    pub fn average_fetch_nanos(&self) -> (r: u64)
        requires
            self.fetch_count > 0,
        ensures
            r == self.total_fetch_nanos / self.fetch_count,
    {
        self.total_fetch_nanos / self.fetch_count
    }
}

/// The sum of a sequence of chunk lengths.
pub open spec fn sum_chunks(s: Seq<nat>) -> nat
    decreases s.len(),
{
    if s.len() == 0 {
        0
    } else {
        sum_chunks(s.drop_last()) + s.last()
    }
}

/// The harness accumulators. `chunks` records the length of every chunk
/// ever received in the run; `flushed_bytes` records how many of the total
/// bytes have already left the window through a flush.
pub struct Harness {
    pub config: RunConfig,
    pub phase: Phase,
    pub iteration_index: u64,
    pub total_bytes: u64,
    pub window_bytes: u64,
    pub window_start_nanos: u64,
    pub run_start_nanos: u64,
    pub total_fetch_nanos: u64,
    pub fetch_count: u64,
    pub chunks: Ghost<Seq<nat>>,
    pub flushed_bytes: Ghost<nat>,
}

impl Harness {
    /// Accounting invariant: the total byte count is the sum of every chunk
    /// length ever received, the window holds exactly the bytes received
    /// since the last flush, and the window never starts before the run.
    pub open spec fn wf(self) -> bool {
        &&& self.config.wf()
        &&& self.total_bytes as nat == sum_chunks(self.chunks@)
        &&& self.flushed_bytes@ + self.window_bytes == self.total_bytes
        &&& self.window_start_nanos >= self.run_start_nanos
        &&& self.iteration_index <= self.config.iteration_cap
    }

    /// The block number of the iteration about to start.
    pub open spec fn next_block_spec(self) -> int {
        self.config.block_offset + self.iteration_index * self.config.stride
    }

    /// A fresh harness: all counters zero, both clocks anchored at `now`.
    pub fn new(config: RunConfig, now_nanos: u64) -> (h: Harness)
        requires
            config.wf(),
        ensures
            h.wf(),
            h.config == config,
            h.phase is Idle,
            h.iteration_index == 0,
            h.total_bytes == 0,
            h.window_bytes == 0,
            h.window_start_nanos == now_nanos,
            h.run_start_nanos == now_nanos,
            h.total_fetch_nanos == 0,
            h.fetch_count == 0,
            h.chunks@ == Seq::<nat>::empty(),
    {
        Harness {
            config,
            phase: Phase::Idle,
            iteration_index: 0,
            total_bytes: 0,
            window_bytes: 0,
            window_start_nanos: now_nanos,
            run_start_nanos: now_nanos,
            total_fetch_nanos: 0,
            fetch_count: 0,
            chunks: Ghost(Seq::empty()),
            flushed_bytes: Ghost(0),
        }
    }

    /// Starts the next iteration: computes the key of the block
    /// `block_offset + iteration_index * stride` and moves to the fetching
    /// phase. Nothing else changes.
    pub fn begin_fetch(&mut self) -> (key: String)
        requires
            old(self).wf(),
            old(self).phase is Idle,
            old(self).iteration_index < old(self).config.iteration_cap,
        ensures
            final(self).wf(),
            key@ == object_key_spec(old(self).next_block_spec() as nat),
            *final(self) == (Harness { phase: Phase::Fetching, ..*old(self) }),
    {
        proof {
            lemma_mul_inequality(
                self.iteration_index as int,
                self.config.iteration_cap as int,
                self.config.stride as int,
            );
        }
        let block: u64 = self.config.block_offset + self.iteration_index * self.config.stride;
        let key = object_key(block);
        self.phase = Phase::Fetching;
        key
    }

    /// Records the wall-clock latency of one completed open call and moves
    /// to the streaming phase.
    pub fn record_fetch(&mut self, latency_nanos: u64)
        requires
            old(self).wf(),
            old(self).phase is Fetching,
            old(self).total_fetch_nanos + latency_nanos <= u64::MAX,
            old(self).fetch_count < u64::MAX,
        ensures
            final(self).wf(),
            *final(self) == (Harness {
                phase: Phase::Streaming,
                total_fetch_nanos: (old(self).total_fetch_nanos + latency_nanos) as u64,
                fetch_count: (old(self).fetch_count + 1) as u64,
                ..*old(self)
            }),
    {
        self.total_fetch_nanos = self.total_fetch_nanos + latency_nanos;
        self.fetch_count = self.fetch_count + 1;
        self.phase = Phase::Streaming;
    }

    /// Counts one received chunk of `len` bytes at time `now_nanos`. When a
    /// full window period has elapsed, the window is flushed first: one
    /// sample over the fixed positive window period is emitted — never a
    /// zero-duration denominator — and the window start strictly advances to
    /// `now_nanos`. The chunk itself is then counted into both the total and
    /// the (possibly fresh) window.
    pub fn on_chunk(&mut self, len: u64, now_nanos: u64) -> (sample: Option<RateSample>)
        requires
            old(self).wf(),
            old(self).phase is Streaming,
            now_nanos >= old(self).window_start_nanos,
            old(self).total_bytes + len <= u64::MAX,
        ensures
            final(self).wf(),
            final(self).chunks@ == old(self).chunks@.push(len as nat),
            final(self).total_bytes == old(self).total_bytes + len,
            final(self).phase == old(self).phase,
            final(self).iteration_index == old(self).iteration_index,
            final(self).run_start_nanos == old(self).run_start_nanos,
            final(self).fetch_count == old(self).fetch_count,
            final(self).total_fetch_nanos == old(self).total_fetch_nanos,
            final(self).config == old(self).config,
            if now_nanos - old(self).window_start_nanos > old(self).config.window_period_nanos {
                &&& sample matches Some(s)
                &&& s.bytes == old(self).window_bytes
                &&& s.period_nanos == old(self).config.window_period_nanos
                &&& s.period_nanos > 0
                &&& final(self).window_bytes == len
                &&& final(self).window_start_nanos == now_nanos
                &&& final(self).window_start_nanos > old(self).window_start_nanos
            } else {
                &&& sample is None
                &&& final(self).window_bytes == old(self).window_bytes + len
                &&& final(self).window_start_nanos == old(self).window_start_nanos
            },
    {
        let mut sample: Option<RateSample> = None;
        if now_nanos - self.window_start_nanos > self.config.window_period_nanos {
            sample = Some(
                RateSample {
                    bytes: self.window_bytes,
                    period_nanos: self.config.window_period_nanos,
                },
            );
            self.flushed_bytes = Ghost(self.flushed_bytes@ + self.window_bytes as nat);
            self.window_bytes = 0;
            self.window_start_nanos = now_nanos;
        }
        self.total_bytes = self.total_bytes + len;
        self.window_bytes = self.window_bytes + len;
        proof {
            assert(self.chunks@.push(len as nat).drop_last() =~= self.chunks@);
        }
        self.chunks = Ghost(self.chunks@.push(len as nat));
        sample
    }

    /// Finishes the current object: the iteration index advances, and the
    /// run goes on exactly when the wall-clock budget is not yet exceeded
    /// and the iteration cap is not yet reached. The budget is checked only
    /// here, between completed objects, never mid-stream.
    pub fn object_done(&mut self, now_nanos: u64) -> (go_on: bool)
        requires
            old(self).wf(),
            old(self).phase is Streaming,
            old(self).iteration_index < old(self).config.iteration_cap,
            now_nanos >= old(self).run_start_nanos,
        ensures
            final(self).wf(),
            go_on == (now_nanos - old(self).run_start_nanos <= old(
                self,
            ).config.test_duration_nanos && old(self).iteration_index + 1 < old(
                self,
            ).config.iteration_cap),
            go_on ==> *final(self) == (Harness {
                phase: Phase::Idle,
                iteration_index: (old(self).iteration_index + 1) as u64,
                ..*old(self)
            }),
            !go_on ==> *final(self) == (Harness {
                phase: Phase::Done,
                iteration_index: (old(self).iteration_index + 1) as u64,
                ..*old(self)
            }),
    {
        self.iteration_index = self.iteration_index + 1;
        let within_budget = now_nanos - self.run_start_nanos <= self.config.test_duration_nanos;
        let go_on = within_budget && self.iteration_index < self.config.iteration_cap;
        if go_on {
            self.phase = Phase::Idle;
        } else {
            self.phase = Phase::Done;
        }
        go_on
    }

    /// The final report of a completed run.
    pub fn finalize(&self, now_nanos: u64) -> (m: FinalMetrics)
        requires
            self.wf(),
            self.phase is Done,
            now_nanos >= self.run_start_nanos,
        ensures
            m.total_bytes == self.total_bytes,
            m.elapsed_nanos == now_nanos - self.run_start_nanos,
            m.fetch_count == self.fetch_count,
            m.total_fetch_nanos == self.total_fetch_nanos,
    {
        FinalMetrics {
            total_bytes: self.total_bytes,
            elapsed_nanos: now_nanos - self.run_start_nanos,
            fetch_count: self.fetch_count,
            total_fetch_nanos: self.total_fetch_nanos,
        }
    }
}

/// Total-bytes law: in every reachable harness state, the total byte count
/// equals the sum of the lengths of all chunks ever received in the run.
pub proof fn lemma_total_is_chunk_sum(h: Harness)
    requires
        h.wf(),
    ensures
        h.total_bytes as nat == sum_chunks(h.chunks@),
{
}

} // verus!

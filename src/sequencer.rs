//! The sequencer: one aggregation window per block, closed by a timeout.
//!
//! The sequencer decides; its driver does the outside work. On a timeout it
//! hands back the winning commitments, which the driver submits for
//! settlement.

use vstd::prelude::*;

use crate::agro::{AggregatedCommitments, Aggregator, CodeHashCommitment, MultisignedCommitments};
use crate::primitives::{Address, Signature, H256};

verus! {

/// What the event feed reports.
#[derive(Clone, Copy, Debug)]
pub enum Event {
    /// A new chain head: the current aggregation window ends.
    NewHead { hash: H256 },
    /// A new code was observed; informational only.
    NewCode { hash: H256 },
}

/// Drives one code-commitment aggregator per block window.
pub struct Sequencer {
    threshold: usize,
    codes_aggregation: Aggregator<CodeHashCommitment>,
}

impl Sequencer {
    /// The distinct-origin threshold that every window is opened with.
    pub closed spec fn threshold(&self) -> nat {
        self.threshold as nat
    }

    /// The aggregator of the current window.
    pub closed spec fn window(&self) -> Aggregator<CodeHashCommitment> {
        self.codes_aggregation
    }

    /// The current window is well formed and uses the sequencer's threshold.
    pub closed spec fn wf(&self) -> bool {
        &&& self.codes_aggregation.wf()
        &&& self.codes_aggregation.threshold() == self.threshold
    }

    /// A sequencer whose windows ask for `threshold` distinct origins.
    pub fn new(threshold: usize) -> (r: Self)
        ensures
            r.wf(),
            r.threshold() == threshold,
            r.window().is_fresh(threshold as nat),
    {
        Sequencer { threshold, codes_aggregation: Aggregator::new(threshold) }
    }

    /// Handles an event of the feed. A new chain head replaces the window
    /// with a fresh one and returns how many origins had pushed into the
    /// discarded window; a new code changes nothing and returns zero.
    pub fn process_observer_event(&mut self, event: &Event) -> (r: usize)
        requires
            old(self).wf(),
        ensures
            final(self).wf(),
            final(self).threshold() == old(self).threshold(),
            match *event {
                Event::NewHead { .. } => {
                    &&& final(self).window().is_fresh(old(self).threshold())
                    &&& r == old(self).window().origins().len()
                },
                Event::NewCode { .. } => {
                    &&& final(self).window() == old(self).window()
                    &&& r == 0
                },
            },
    {
        match event {
            Event::NewHead { .. } => {
                let mut previous = Aggregator::new(self.threshold);
                core::mem::swap(&mut self.codes_aggregation, &mut previous);
                previous.len()
            },
            Event::NewCode { .. } => 0,
        }
    }

    /// Closes the current window on a timeout. A window with at least one
    /// push is searched for agreement; either way a fresh window replaces
    /// it. Returns the commitments to submit for settlement, if the search
    /// found agreement.
    pub fn process_block_timeout(&mut self) -> (r: Option<
        MultisignedCommitments<CodeHashCommitment>,
    >)
        requires
            old(self).wf(),
        ensures
            final(self).wf(),
            final(self).threshold() == old(self).threshold(),
            old(self).window().origins().len() > 0 ==> final(self).window().is_fresh(
                old(self).threshold(),
            ),
            old(self).window().origins().len() == 0 ==> final(self).window() == old(self).window(),
            match (old(self).window().quorum_hash(), r) {
                (None, None) => true,
                (Some(h), Some(m)) => {
                    let w = old(self).window();
                    &&& m.commitments@ == w.plain()[h]
                    &&& m.sources@ == w.attesters(h, w.origins().len())
                    &&& m.signatures@ == w.attest_signatures(h, w.origins().len())
                },
                _ => false,
            },
    {
        if self.codes_aggregation.len() > 0 {
            let mut active = Aggregator::new(self.threshold);
            core::mem::swap(&mut self.codes_aggregation, &mut active);
            active.find_root()
        } else {
            proof {
                self.codes_aggregation.lemma_empty_has_no_quorum();
            }
            None
        }
    }

    /// Pushes a batch received from `origin` into the current window.
    pub fn receive_codes_commitment(
        &mut self,
        origin: Address,
        commitments: AggregatedCommitments<CodeHashCommitment>,
    )
        requires
            old(self).wf(),
        ensures
            final(self).wf(),
            final(self).threshold() == old(self).threshold(),
            final(self).window().pushed_from(old(self).window(), origin, commitments),
    {
        self.codes_aggregation.push(origin, commitments);
    }

    /// What a settlement of `commitments` submits: the code hashes, in
    /// order, and the signatures.
    pub fn settlement_request(commitments: MultisignedCommitments<CodeHashCommitment>) -> (r: (
        Vec<H256>,
        Vec<Signature>,
    ))
        ensures
            r.0@ == commitments.commitments@.map_values(|c: CodeHashCommitment| c.0),
            r.1@ == commitments.signatures@,
    {
        let mut codes: Vec<H256> = Vec::new();
        let mut i: usize = 0;
        while i < commitments.commitments.len()
            invariant
                i <= commitments.commitments@.len(),
                codes@ == commitments.commitments@.subrange(0, i as int).map_values(
                    |c: CodeHashCommitment| c.0,
                ),
            decreases commitments.commitments@.len() - i,
        {
            codes.push(commitments.commitments[i].0);
            proof {
                assert(commitments.commitments@.subrange(0, i + 1).map_values(
                    |c: CodeHashCommitment| c.0,
                ) =~= commitments.commitments@.subrange(0, i as int).map_values(
                    |c: CodeHashCommitment| c.0,
                ).push(commitments.commitments@[i as int].0));
            }
            i = i + 1;
        }
        proof {
            assert(commitments.commitments@.subrange(0, i as int) =~= commitments.commitments@);
        }
        (codes, commitments.signatures)
    }
}

/// After a block boundary the window is fresh, so a timeout that follows
/// finds no agreement: pushes of the previous window are gone.
pub proof fn lemma_boundary_discards_window(s: &Sequencer)
    requires
        s.wf(),
        s.window().is_fresh(s.threshold()),
    ensures
        s.window().quorum_hash() == None::<H256>,
{
    s.window().lemma_empty_has_no_quorum();
}

} // verus!

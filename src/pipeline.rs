//! Operations of the asynchronous copy pipeline and a checker of the order in
//! which a kernel issues them.
//!
//! A pipeline has a fixed number of stage buffers. The producer role takes a
//! buffer (`ProducerAcquire`), issues copies into it (`MemCopyAsync`) and
//! commits them (`ProducerCommit`); the consumer role waits for the oldest
//! committed stage (`ConsumerWait`) and gives its buffer back
//! (`ConsumerRelease`). The hardware does not check this order; the checker
//! here does.
use vstd::prelude::*;

use crate::ir::Variable;

verus! {

/// One pipeline operation, as handed to the code emitter.
#[derive(Clone, Copy, Debug, PartialEq, Eq, Structural)]
pub enum PipelineOps {
    Init { pipeline: Variable, num_stages: u8 },
    MemCopyAsync { pipeline: Variable, source: Variable, destination: Variable },
    ProducerAcquire { pipeline: Variable },
    ProducerCommit { pipeline: Variable },
    ConsumerWait { pipeline: Variable },
    ConsumerRelease { pipeline: Variable },
}

impl PipelineOps {
    pub open spec fn spec_pipeline(&self) -> Variable {
        match *self {
            PipelineOps::Init { pipeline, .. } => pipeline,
            PipelineOps::MemCopyAsync { pipeline, .. } => pipeline,
            PipelineOps::ProducerAcquire { pipeline } => pipeline,
            PipelineOps::ProducerCommit { pipeline } => pipeline,
            PipelineOps::ConsumerWait { pipeline } => pipeline,
            PipelineOps::ConsumerRelease { pipeline } => pipeline,
        }
    }

    /// The pipeline variable the operation acts on.
    #[verifier::when_used_as_spec(spec_pipeline)]
    pub fn pipeline_var(&self) -> (r: Variable)
        ensures
            r == self.spec_pipeline(),
    {
        match *self {
            PipelineOps::Init { pipeline, .. } => pipeline,
            PipelineOps::MemCopyAsync { pipeline, .. } => pipeline,
            PipelineOps::ProducerAcquire { pipeline } => pipeline,
            PipelineOps::ProducerCommit { pipeline } => pipeline,
            PipelineOps::ConsumerWait { pipeline } => pipeline,
            PipelineOps::ConsumerRelease { pipeline } => pipeline,
        }
    }

    pub open spec fn spec_pipeline_id(&self) -> u32 {
        self.spec_pipeline().spec_id()
    }

    /// Id of the pipeline the operation acts on.
    #[verifier::when_used_as_spec(spec_pipeline_id)]
    pub fn pipeline_id(&self) -> (r: u32)
        ensures
            r == self.spec_pipeline_id(),
    {
        match self {
            PipelineOps::MemCopyAsync { pipeline, .. } => pipeline.id(),
            PipelineOps::Init { pipeline, .. } => pipeline.id(),
            PipelineOps::ProducerAcquire { pipeline } => pipeline.id(),
            PipelineOps::ProducerCommit { pipeline } => pipeline.id(),
            PipelineOps::ConsumerWait { pipeline } => pipeline.id(),
            PipelineOps::ConsumerRelease { pipeline } => pipeline.id(),
        }
    }

    /// For an asynchronous copy, the number of bytes moved per element of the
    /// source: the scalar size times the vectorization width.
    pub fn copy_element_bytes(&self) -> (r: Option<usize>)
        ensures
            match *self {
                PipelineOps::MemCopyAsync { source, .. } => r == Some(
                    (source.item.elem.spec_size() * source.item.vectorization) as usize,
                ),
                _ => r is None,
            },
    {
        match self {
            PipelineOps::MemCopyAsync { source, .. } => {
                let size = source.item.elem.size();
                Some(size * source.item.vectorization as usize)
            },
            _ => None,
        }
    }
}

/// Protocol state of one pipeline.
#[derive(Clone, Copy, Debug, PartialEq, Eq, Structural)]
pub struct PipelineChecker {
    /// `Init` has been seen.
    pub initialized: bool,
    /// Number of stage buffers.
    pub stages: u8,
    /// Buffers acquired by the producer and not yet released by the consumer.
    pub in_use: u8,
    /// Committed stages the consumer has not waited for yet.
    pub committed: u8,
    /// The producer holds a buffer it has not committed.
    pub acquired: bool,
    /// The consumer waited for a stage it has not released.
    pub waiting: bool,
}

/// State before any operation.
pub open spec fn initial_state() -> PipelineChecker {
    PipelineChecker {
        initialized: false,
        stages: 0,
        in_use: 0,
        committed: 0,
        acquired: false,
        waiting: false,
    }
}

/// The state after `op`, or `None` when `op` breaks the protocol.
pub open spec fn protocol_step(st: PipelineChecker, op: PipelineOps) -> Option<PipelineChecker> {
    match op {
        PipelineOps::Init { num_stages, .. } => {
            if !st.initialized && num_stages > 0 {
                Some(PipelineChecker { initialized: true, stages: num_stages, ..initial_state() })
            } else {
                None
            }
        },
        PipelineOps::ProducerAcquire { .. } => {
            if st.initialized && !st.acquired && st.in_use < st.stages {
                Some(PipelineChecker { acquired: true, in_use: (st.in_use + 1) as u8, ..st })
            } else {
                None
            }
        },
        PipelineOps::MemCopyAsync { .. } => {
            if st.initialized && st.acquired {
                Some(st)
            } else {
                None
            }
        },
        PipelineOps::ProducerCommit { .. } => {
            if st.initialized && st.acquired {
                Some(PipelineChecker { acquired: false, committed: (st.committed + 1) as u8, ..st })
            } else {
                None
            }
        },
        PipelineOps::ConsumerWait { .. } => {
            if st.initialized && !st.waiting && st.committed > 0 {
                Some(PipelineChecker { waiting: true, committed: (st.committed - 1) as u8, ..st })
            } else {
                None
            }
        },
        PipelineOps::ConsumerRelease { .. } => {
            if st.initialized && st.waiting {
                Some(PipelineChecker { waiting: false, in_use: (st.in_use - 1) as u8, ..st })
            } else {
                None
            }
        },
    }
}

/// The protocol state of pipeline `id` after `ops`; operations on other
/// pipelines are skipped.
pub open spec fn protocol_run(ops: Seq<PipelineOps>, id: u32) -> Option<PipelineChecker>
    decreases ops.len(),
{
    if ops.len() == 0 {
        Some(initial_state())
    } else {
        match protocol_run(ops.drop_last(), id) {
            None => None,
            Some(st) => if ops.last().spec_pipeline_id() == id {
                protocol_step(st, ops.last())
            } else {
                Some(st)
            },
        }
    }
}

/// Whether `ops` uses pipeline `id` as the protocol demands: initialized
/// once, then acquire, copies and commit on the producer side and wait then
/// release on the consumer side, with no more buffers taken than it has
/// stages, no wait without a committed stage, and both roles idle at the end.
pub open spec fn follows_protocol(ops: Seq<PipelineOps>, id: u32) -> bool {
    match protocol_run(ops, id) {
        None => false,
        Some(st) => st.initialized && !st.acquired && !st.waiting,
    }
}

impl PipelineChecker {
    /// Counters stay within the number of stages.
    pub open spec fn wf(&self) -> bool {
        &&& self.committed <= self.in_use <= self.stages
        &&& self.acquired ==> self.committed < self.in_use
        &&& self.waiting ==> self.committed < self.in_use
        &&& self.acquired && self.waiting ==> self.committed + 1 < self.in_use
        &&& !self.initialized ==> self.in_use == 0
    }

    /// The state before any operation.
    pub fn new() -> (r: PipelineChecker)
        ensures
            r == initial_state(),
    {
        PipelineChecker {
            initialized: false,
            stages: 0,
            in_use: 0,
            committed: 0,
            acquired: false,
            waiting: false,
        }
    }

    /// The state after `op`, or `None` when `op` breaks the protocol.
    pub fn apply(&self, op: &PipelineOps) -> (r: Option<PipelineChecker>)
        requires
            self.wf(),
        ensures
            r == protocol_step(*self, *op),
            r matches Some(st) ==> st.wf(),
    {
        let st = *self;
        match op {
            PipelineOps::Init { num_stages, .. } => {
                if !st.initialized && *num_stages > 0 {
                    Some(PipelineChecker { initialized: true, stages: *num_stages, ..PipelineChecker::new() })
                } else {
                    None
                }
            },
            PipelineOps::ProducerAcquire { .. } => {
                if st.initialized && !st.acquired && st.in_use < st.stages {
                    Some(PipelineChecker { acquired: true, in_use: st.in_use + 1, ..st })
                } else {
                    None
                }
            },
            PipelineOps::MemCopyAsync { .. } => {
                if st.initialized && st.acquired {
                    Some(st)
                } else {
                    None
                }
            },
            PipelineOps::ProducerCommit { .. } => {
                if st.initialized && st.acquired {
                    Some(PipelineChecker { acquired: false, committed: st.committed + 1, ..st })
                } else {
                    None
                }
            },
            PipelineOps::ConsumerWait { .. } => {
                if st.initialized && !st.waiting && st.committed > 0 {
                    Some(PipelineChecker { waiting: true, committed: st.committed - 1, ..st })
                } else {
                    None
                }
            },
            PipelineOps::ConsumerRelease { .. } => {
                if st.initialized && st.waiting {
                    Some(PipelineChecker { waiting: false, in_use: st.in_use - 1, ..st })
                } else {
                    None
                }
            },
        }
    }
}

/// Whether the sequence `ops` uses pipeline `pipeline` as the protocol demands.
pub fn check_protocol(ops: &Vec<PipelineOps>, pipeline: u32) -> (r: bool)
    ensures
        r == follows_protocol(ops@, pipeline),
{
    let mut st = PipelineChecker::new();
    let mut i: usize = 0;
    while i < ops.len()
        invariant
            i <= ops.len(),
            st.wf(),
            protocol_run(ops@.subrange(0, i as int), pipeline) == Some(st),
        decreases ops.len() - i,
    {
        let op = &ops[i];
        proof {
            assert(ops@.subrange(0, i + 1).drop_last() =~= ops@.subrange(0, i as int));
        }
        if op.pipeline_id() == pipeline {
            match st.apply(op) {
                Some(next) => st = next,
                None => {
                    proof {
                        lemma_none_stays_none(ops@, pipeline, (i + 1) as nat);
                    }
                    return false;
                },
            }
        }
        i = i + 1;
    }
    proof {
        assert(ops@.subrange(0, i as int) =~= ops@);
    }
    st.initialized && !st.acquired && !st.waiting
}

proof fn lemma_none_stays_none(ops: Seq<PipelineOps>, id: u32, n: nat)
    requires
        n <= ops.len(),
        protocol_run(ops.subrange(0, n as int), id) is None,
    ensures
        protocol_run(ops, id) is None,
    decreases ops.len() - n,
{
    if n < ops.len() {
        assert(ops.subrange(0, n + 1 as int).drop_last() =~= ops.subrange(0, n as int));
        lemma_none_stays_none(ops, id, n + 1);
    } else {
        assert(ops.subrange(0, n as int) =~= ops);
    }
}

spec fn init_first(ops: Seq<PipelineOps>, id: u32) -> bool {
    exists|i: int|
        0 <= i < ops.len() && #[trigger] ops[i] is Init && ops[i].spec_pipeline_id() == id && forall|
            j: int,
        |
            0 <= j < i ==> ops[j].spec_pipeline_id() != id
}

proof fn lemma_init_first(ops: Seq<PipelineOps>, id: u32)
    ensures
        protocol_run(ops, id) matches Some(st) ==> {
            &&& !st.initialized ==> forall|j: int|
                0 <= j < ops.len() ==> ops[j].spec_pipeline_id() != id
            &&& st.initialized ==> init_first(ops, id)
        },
    decreases ops.len(),
{
    if ops.len() > 0 {
        let d = ops.drop_last();
        let last = ops.len() - 1;
        lemma_init_first(d, id);
        assert forall|j: int| 0 <= j < d.len() implies d[j] == ops[j] by {}
        if let Some(prev) = protocol_run(d, id) {
            if prev.initialized {
                let i = choose|i: int|
                    0 <= i < d.len() && #[trigger] d[i] is Init && d[i].spec_pipeline_id() == id
                        && forall|j: int| 0 <= j < i ==> d[j].spec_pipeline_id() != id;
                assert(ops[i] is Init && ops[i].spec_pipeline_id() == id);
                assert(forall|j: int| 0 <= j < i ==> ops[j].spec_pipeline_id() != id);
                assert(init_first(ops, id));
            } else if ops[last].spec_pipeline_id() == id {
                if protocol_run(ops, id) is Some {
                    assert(ops[last] is Init);
                    assert(forall|j: int| 0 <= j < last ==> ops[j].spec_pipeline_id() != id);
                    assert(init_first(ops, id));
                }
            }
        }
    }
}

/// Every sequence that follows the protocol for pipeline `id` starts, among
/// its operations on `id`, with an `Init` of `id`.
pub proof fn lemma_protocol_starts_with_init(ops: Seq<PipelineOps>, id: u32)
    requires
        follows_protocol(ops, id),
    ensures
        exists|i: int|
            0 <= i < ops.len() && #[trigger] ops[i] is Init && ops[i].spec_pipeline_id() == id
                && forall|j: int| 0 <= j < i ==> ops[j].spec_pipeline_id() != id,
{
    lemma_init_first(ops, id);
}

/// Which operation `op` is: 0 `Init`, 1 `MemCopyAsync`, 2
/// `ProducerAcquire`, 3 `ProducerCommit`, 4 `ConsumerWait`, 5
/// `ConsumerRelease`.
pub open spec fn op_kind(op: PipelineOps) -> int {
    match op {
        PipelineOps::Init { .. } => 0,
        PipelineOps::MemCopyAsync { .. } => 1,
        PipelineOps::ProducerAcquire { .. } => 2,
        PipelineOps::ProducerCommit { .. } => 3,
        PipelineOps::ConsumerWait { .. } => 4,
        PipelineOps::ConsumerRelease { .. } => 5,
    }
}

/// Number of operations of kind `kind` on pipeline `id` in `ops`.
pub open spec fn count_kind(ops: Seq<PipelineOps>, id: u32, kind: int) -> int
    decreases ops.len(),
{
    if ops.len() == 0 {
        0
    } else {
        count_kind(ops.drop_last(), id, kind) + if ops.last().spec_pipeline_id() == id && op_kind(
            ops.last(),
        ) == kind {
            1int
        } else {
            0int
        }
    }
}

proof fn lemma_run_wf(ops: Seq<PipelineOps>, id: u32)
    ensures
        protocol_run(ops, id) matches Some(st) ==> st.wf(),
    decreases ops.len(),
{
    if ops.len() > 0 {
        lemma_run_wf(ops.drop_last(), id);
    }
}

proof fn lemma_counts(ops: Seq<PipelineOps>, id: u32)
    ensures
        protocol_run(ops, id) matches Some(st) ==> {
            &&& count_kind(ops, id, 2) == count_kind(ops, id, 3) + if st.acquired {
                1int
            } else {
                0int
            }
            &&& count_kind(ops, id, 3) == count_kind(ops, id, 4) + st.committed
            &&& count_kind(ops, id, 4) == count_kind(ops, id, 5) + if st.waiting {
                1int
            } else {
                0int
            }
        },
    decreases ops.len(),
{
    if ops.len() > 0 {
        let d = ops.drop_last();
        lemma_counts(d, id);
        lemma_init_first(d, id);
        lemma_run_wf(d, id);
        if let Some(prev) = protocol_run(d, id) {
            if !prev.initialized {
                lemma_no_ops_no_counts(d, id);
            }
        }
    }
}

proof fn lemma_no_ops_no_counts(ops: Seq<PipelineOps>, id: u32)
    requires
        forall|j: int| 0 <= j < ops.len() ==> ops[j].spec_pipeline_id() != id,
    ensures
        forall|k: int| #[trigger] count_kind(ops, id, k) == 0,
    decreases ops.len(),
{
    if ops.len() > 0 {
        let d = ops.drop_last();
        assert forall|j: int| 0 <= j < d.len() implies d[j].spec_pipeline_id() != id by {
            assert(d[j] == ops[j]);
        }
        lemma_no_ops_no_counts(d, id);
        assert forall|k: int| #[trigger] count_kind(ops, id, k) == 0 by {
            assert(count_kind(d, id, k) == 0);
        }
    }
}

/// In a sequence that follows the protocol for pipeline `id`, every prefix
/// holds no more releases than waits, no more waits than commits and no
/// more commits than acquires on `id`: a commit always has an acquire
/// before it, a wait a commit, a release a wait.
pub proof fn lemma_protocol_order(ops: Seq<PipelineOps>, id: u32, k: int)
    requires
        follows_protocol(ops, id),
        0 <= k <= ops.len(),
    ensures
        ({
            let pre = ops.subrange(0, k);
            count_kind(pre, id, 5) <= count_kind(pre, id, 4) <= count_kind(pre, id, 3)
                <= count_kind(pre, id, 2)
        }),
{
    let pre = ops.subrange(0, k);
    if protocol_run(pre, id) is None {
        lemma_none_stays_none(ops, id, k as nat);
    }
    lemma_counts(pre, id);
}

} // verus!

use cubecl::ir::{Elem, FloatKind, Item, Variable, VariableKind};
use cubecl::pipeline::{check_protocol, PipelineOps};

fn var(id: u32) -> Variable {
    Variable::new(VariableKind::LocalConst { id }, Item::new(Elem::Float(FloatKind::F32)))
}

fn init(p: u32, stages: u8) -> PipelineOps {
    PipelineOps::Init { pipeline: var(p), num_stages: stages }
}
fn acquire(p: u32) -> PipelineOps {
    PipelineOps::ProducerAcquire { pipeline: var(p) }
}
fn copy(p: u32) -> PipelineOps {
    PipelineOps::MemCopyAsync { pipeline: var(p), source: var(100), destination: var(101) }
}
fn commit(p: u32) -> PipelineOps {
    PipelineOps::ProducerCommit { pipeline: var(p) }
}
fn wait(p: u32) -> PipelineOps {
    PipelineOps::ConsumerWait { pipeline: var(p) }
}
fn release(p: u32) -> PipelineOps {
    PipelineOps::ConsumerRelease { pipeline: var(p) }
}

#[test]
fn pipeline_id_of_every_operation() {
    for op in [init(7, 2), acquire(7), copy(7), commit(7), wait(7), release(7)] {
        assert_eq!(op.pipeline_id(), 7);
    }
}

#[test]
fn copy_size_is_element_size_times_width() {
    let src = Variable::new(
        VariableKind::Slice { id: 3 },
        Item::vectorized(Elem::Float(FloatKind::F16), 4),
    );
    let op = PipelineOps::MemCopyAsync { pipeline: var(1), source: src, destination: var(4) };
    assert_eq!(op.copy_element_bytes(), Some(8));
    assert_eq!(init(1, 2).copy_element_bytes(), None);
}

#[test]
fn double_buffered_sequence_is_accepted() {
    let ops = vec![
        init(1, 2),
        acquire(1),
        copy(1),
        copy(1),
        commit(1),
        acquire(1),
        copy(1),
        commit(1),
        wait(1),
        release(1),
        wait(1),
        release(1),
    ];
    assert!(check_protocol(&ops, 1));
}

#[test]
fn operations_on_other_pipelines_are_ignored() {
    let ops = vec![init(1, 1), acquire(2), acquire(1), copy(1), commit(1), wait(1), release(1)];
    assert!(check_protocol(&ops, 1));
}

#[test]
fn missing_init_is_rejected() {
    assert!(!check_protocol(&vec![acquire(1), commit(1)], 1));
    assert!(!check_protocol(&vec![], 1));
}

#[test]
fn commit_without_acquire_is_rejected() {
    assert!(!check_protocol(&vec![init(1, 2), commit(1)], 1));
}

#[test]
fn copy_outside_acquire_is_rejected() {
    assert!(!check_protocol(&vec![init(1, 2), copy(1)], 1));
}

#[test]
fn release_without_wait_is_rejected() {
    assert!(!check_protocol(&vec![init(1, 2), acquire(1), commit(1), release(1)], 1));
}

#[test]
fn wait_without_commit_is_rejected() {
    assert!(!check_protocol(&vec![init(1, 2), wait(1)], 1));
}

#[test]
fn more_acquires_than_stages_are_rejected() {
    let ops = vec![init(1, 1), acquire(1), commit(1), acquire(1), commit(1)];
    assert!(!check_protocol(&ops, 1));
}

#[test]
fn unfinished_roles_are_rejected() {
    assert!(!check_protocol(&vec![init(1, 2), acquire(1)], 1));
    assert!(!check_protocol(&vec![init(1, 2), acquire(1), commit(1), wait(1)], 1));
}

#[test]
fn double_init_is_rejected() {
    assert!(!check_protocol(&vec![init(1, 2), init(1, 2)], 1));
    assert!(!check_protocol(&vec![init(1, 0)], 1));
}

use moss::mossc::bytecode::{Guard, OpCode};
use moss::mossc::jit::{Jit, Visit, HOT_LOOP};

const LOOP: Visit = Visit { key: 40, func: 2, pc: 11, frame_size: 3 };

fn hot() -> Jit {
    let mut jit = Jit::new(true);
    for _ in 0..HOT_LOOP {
        assert!(!jit.met_merge_point(LOOP, 1));
        assert!(!jit.is_tracing());
    }
    assert!(!jit.met_merge_point(LOOP, 1));
    assert!(jit.is_tracing());
    jit
}

fn compiled() -> Jit {
    let mut jit = hot();
    jit.observe(1, 2, 12, OpCode::StoreLocal(2), false);
    jit.observe(1, 2, 13, OpCode::JUMP_REL(-9), false);
    jit.observe(1, 2, 4, OpCode::JUMP_REL_IF(2), true);
    jit.observe(1, 2, 6, OpCode::JUMP_IF(8), false);
    jit.observe(1, 2, 8, OpCode::JUMP(11), false);
    jit.observe(1, 2, 11, OpCode::Call, false);
    assert!(!jit.met_merge_point(LOOP, 1));
    assert!(!jit.is_tracing());
    jit
}

#[test]
fn a_loop_gets_hot_after_the_threshold() {
    let jit = hot();
    assert_eq!(jit.traces_len(), 0);
    assert!(jit.records_at(1));
    assert!(!jit.records_at(0));
    assert!(!jit.records_at(2));
}

#[test]
fn a_recording_becomes_a_trace() {
    let jit = compiled();
    assert_eq!(jit.traces_len(), 1);
    assert_eq!(
        jit.trace(40),
        Some(vec![
            OpCode::StoreLocal(2),
            OpCode::Guard(Guard { expected: true, recovery: 2, pc: 4 }),
            OpCode::Guard(Guard { expected: false, recovery: 2, pc: 6 }),
            OpCode::Call,
        ])
    );
    assert_eq!(jit.trace_op(40, 0), Some((OpCode::StoreLocal(2), 0, 3)));
    assert_eq!(jit.trace_op(40, 3), Some((OpCode::Call, 3, 3)));
    // past the end, replay starts over
    assert_eq!(jit.trace_op(40, 4), Some((OpCode::StoreLocal(2), 0, 3)));
    assert_eq!(jit.trace_op(40, usize::MAX), Some((OpCode::StoreLocal(2), 0, 3)));
    assert_eq!(jit.trace_op(41, 0), None);
}

#[test]
fn a_trace_is_replayed_where_it_was_recorded() {
    let mut jit = compiled();
    assert!(jit.met_merge_point(LOOP, 1));
    // in any call of the function
    assert!(jit.met_merge_point(LOOP, 7));
    assert!(!jit.met_merge_point(Visit { pc: 12, ..LOOP }, 1));
    assert!(!jit.met_merge_point(Visit { func: 3, ..LOOP }, 1));
    assert!(!jit.met_merge_point(Visit { frame_size: 4, ..LOOP }, 1));
    // and is neither counted nor recorded again, wherever the key is met
    for _ in 0..2 * HOT_LOOP {
        assert!(!jit.met_merge_point(Visit { pc: 12, ..LOOP }, 1));
        assert!(!jit.is_tracing());
    }
    assert_eq!(jit.traces_len(), 1);
    assert_eq!(jit.trace(40).map(|ops| ops.len()), Some(4));
}

#[test]
fn only_the_recorded_function_is_recorded() {
    let mut jit = hot();
    jit.observe(2, 9, 0, OpCode::Usize(1), false);
    jit.observe(0, 1, 3, OpCode::Usize(2), false);
    jit.observe(1, 2, 11, OpCode::Call, false);
    assert!(!jit.met_merge_point(LOOP, 1));
    assert_eq!(jit.trace(40), Some(vec![OpCode::Call]));
}

#[test]
fn a_recording_is_dropped() {
    // by a return
    let mut jit = hot();
    jit.observe(1, 2, 12, OpCode::RETURN, false);
    assert!(!jit.is_tracing());
    // by a return of another call not
    let mut jit = hot();
    jit.observe(2, 5, 12, OpCode::RETURN, false);
    assert!(jit.is_tracing());
    // by a prologue
    jit.observe(1, 2, 0, OpCode::StackFrame(3), false);
    assert!(!jit.is_tracing());
    // by another merge point
    let mut jit = hot();
    assert!(!jit.met_merge_point(Visit { key: 41, ..LOOP }, 1));
    assert!(!jit.is_tracing());
    // by its own merge point in another call
    let mut jit = hot();
    assert!(!jit.met_merge_point(LOOP, 2));
    assert!(!jit.is_tracing());
    // by its own key at another place
    let mut jit = hot();
    assert!(!jit.met_merge_point(Visit { pc: 30, ..LOOP }, 1));
    assert!(!jit.is_tracing());
    assert_eq!(jit.traces_len(), 0);
}

#[test]
fn counts_start_over_when_a_recording_starts() {
    let mut jit = Jit::new(true);
    let other = Visit { key: 41, func: 2, pc: 20, frame_size: 3 };
    for _ in 0..HOT_LOOP {
        assert!(!jit.met_merge_point(other, 1));
    }
    for _ in 0..HOT_LOOP {
        assert!(!jit.met_merge_point(LOOP, 1));
    }
    assert!(!jit.met_merge_point(LOOP, 1));
    assert!(jit.is_tracing());
    // the other loop was one visit from hot; now it is counted anew
    assert!(!jit.met_merge_point(other, 1));
    assert!(!jit.is_tracing());
    for _ in 1..HOT_LOOP {
        assert!(!jit.met_merge_point(other, 1));
        assert!(!jit.is_tracing());
    }
    assert!(!jit.met_merge_point(other, 1));
    assert!(jit.is_tracing());
}

#[test]
fn an_engine_that_is_off_does_nothing() {
    let mut jit = Jit::new(false);
    for _ in 0..3 * HOT_LOOP {
        assert!(!jit.met_merge_point(LOOP, 1));
        jit.observe(1, 2, 12, OpCode::StoreLocal(2), false);
    }
    assert!(!jit.is_tracing());
    assert_eq!(jit.traces_len(), 0);
}

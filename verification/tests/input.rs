use kercat::input::{input_step, run_input_reads, InputStep};
use kercat::session::SessionEvent;

#[test]
fn eof_ignored_keeps_task_running() {
    assert_eq!(input_step(Vec::new(), true), InputStep::Skip);
}

#[test]
fn eof_closes_without_ignore() {
    assert_eq!(input_step(Vec::new(), false), InputStep::CloseAndStop);
}

#[test]
fn nonempty_read_emitted_exactly() {
    assert_eq!(input_step(b"hi there".to_vec(), false), InputStep::Emit(b"hi there".to_vec()));
    assert_eq!(input_step(b"x".to_vec(), true), InputStep::Emit(b"x".to_vec()));
}

#[test]
fn reads_with_ignored_eof_emit_all_data() {
    let reads = vec![b"a".to_vec(), Vec::new(), b"b".to_vec()];
    let events = run_input_reads(reads, true);
    assert_eq!(
        events,
        vec![SessionEvent::Input(b"a".to_vec()), SessionEvent::Input(b"b".to_vec())]
    );
}

#[test]
fn first_eof_emits_one_close_and_stops() {
    let reads = vec![b"a".to_vec(), Vec::new(), b"b".to_vec(), Vec::new()];
    let events = run_input_reads(reads, false);
    assert_eq!(
        events,
        vec![SessionEvent::Input(b"a".to_vec()), SessionEvent::ConnectionClose]
    );
}

#[test]
fn no_eof_emits_only_data() {
    let reads = vec![b"a".to_vec(), b"b".to_vec()];
    let events = run_input_reads(reads, false);
    assert_eq!(
        events,
        vec![SessionEvent::Input(b"a".to_vec()), SessionEvent::Input(b"b".to_vec())]
    );
}

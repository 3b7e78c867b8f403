use tt_server::h3_stream_write_policy::{
    classify_body_write_error, gate_body_write, gate_write_fin, refuse_closed_is_hard_error,
    BodyWriteErrorAction, BodyWriteGate, WriteFinGate,
};

#[test]
fn body_refused_after_fin_pending_or_done_or_peer_stop() {
    assert_eq!(gate_body_write(false, false, false), BodyWriteGate::Allow);
    assert_eq!(
        gate_body_write(true, false, false),
        BodyWriteGate::RefuseClosed
    );
    assert_eq!(
        gate_body_write(false, true, false),
        BodyWriteGate::RefuseClosed
    );
    assert_eq!(
        gate_body_write(false, false, true),
        BodyWriteGate::RefuseClosed
    );
}

#[test]
fn write_fin_skipped_after_done_or_peer_stop() {
    assert_eq!(gate_write_fin(false, false), WriteFinGate::Attempt);
    assert_eq!(gate_write_fin(true, false), WriteFinGate::Skip);
    assert_eq!(gate_write_fin(false, true), WriteFinGate::Skip);
    assert_eq!(gate_write_fin(true, true), WriteFinGate::Skip);
}

#[test]
fn body_errors_retire_without_further_fin() {
    assert_eq!(
        classify_body_write_error(true, false, false, false, false),
        BodyWriteErrorAction::RetryLater
    );
    assert_eq!(
        classify_body_write_error(false, true, false, false, false),
        BodyWriteErrorAction::RetireNoFurtherFin
    );
    assert_eq!(
        classify_body_write_error(false, false, true, false, false),
        BodyWriteErrorAction::RetireNoFurtherFin
    );
    assert_eq!(
        classify_body_write_error(false, false, false, true, false),
        BodyWriteErrorAction::RetireNoFurtherFin
    );
    assert_eq!(
        classify_body_write_error(false, false, false, false, true),
        BodyWriteErrorAction::RetireNoFurtherFin
    );
    assert_eq!(
        classify_body_write_error(false, false, false, false, false),
        BodyWriteErrorAction::Fatal
    );
}

/// Regression: post-STOP must never allow body then FIN (the FINAL_SIZE poison order).
#[test]
fn peer_stop_blocks_body_and_fin() {
    let g = gate_body_write(false, false, true);
    assert_eq!(g, BodyWriteGate::RefuseClosed);
    assert_eq!(gate_write_fin(false, true), WriteFinGate::Skip);
}

#[test]
fn refused_body_is_a_hard_error() {
    assert!(!refuse_closed_is_hard_error(false, false, false));
    assert!(refuse_closed_is_hard_error(true, false, false));
    assert!(refuse_closed_is_hard_error(false, true, false));
    assert!(refuse_closed_is_hard_error(false, false, true));
}

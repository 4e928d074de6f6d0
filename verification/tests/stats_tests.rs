use twicbook_builder::filter::RejectReason;
use twicbook_builder::stats::{progress_due, Stats};

#[test]
fn records_count_once() {
    let mut s = Stats::default();
    s.record_reject(RejectReason::MissingElo);
    s.record_reject(RejectReason::LowElo);
    s.record_reject(RejectReason::LowElo);
    s.record_reject(RejectReason::Duplicate);
    s.record_written();
    assert_eq!(s.seen, 5);
    assert_eq!(s.missing_elo, 1);
    assert_eq!(s.low_elo, 2);
    assert_eq!(s.duplicate, 1);
    assert_eq!(s.written, 1);
    assert_eq!(s.illegal_move, 0);
    let total = s.written
        + s.missing_elo
        + s.low_elo
        + s.non_standard_variant
        + s.non_standard_start
        + s.illegal_move
        + s.ply_count_mismatch
        + s.too_short
        + s.duplicate;
    assert_eq!(total, s.seen);
}

#[test]
fn every_reason_has_its_counter() {
    let reasons = [
        RejectReason::MissingElo,
        RejectReason::LowElo,
        RejectReason::NonStandardVariant,
        RejectReason::NonStandardStart,
        RejectReason::IllegalMove,
        RejectReason::PlyCountMismatch,
        RejectReason::TooShort,
        RejectReason::Duplicate,
    ];
    let mut s = Stats::new();
    for r in reasons {
        s.record_reject(r);
    }
    assert_eq!(s.seen, 8);
    for c in [
        s.missing_elo,
        s.low_elo,
        s.non_standard_variant,
        s.non_standard_start,
        s.illegal_move,
        s.ply_count_mismatch,
        s.too_short,
        s.duplicate,
    ] {
        assert_eq!(c, 1);
    }
}

#[test]
fn counters_wrap() {
    let mut s = Stats::new();
    s.seen = u64::MAX;
    s.written = u64::MAX;
    s.record_written();
    assert_eq!(s.seen, 0);
    assert_eq!(s.written, 0);
}

#[test]
fn progress_due_every_interval() {
    assert!(progress_due(10, 5));
    assert!(!progress_due(10, 3));
    assert!(!progress_due(10, 0));
}

#[test]
fn report_text_layout() {
    let mut s = Stats::new();
    s.seen = 12;
    s.written = 3;
    s.missing_elo = 4;
    s.low_elo = 1;
    s.duplicate = 2;
    s.too_short = 1;
    s.illegal_move = 1;
    let expected = format!(
        "--- {} games seen ---\n\
         written             : {}\n\
         missing Elo         : {}\n\
         below Elo floor     : {}\n\
         non-standard variant: {}\n\
         non-standard start  : {}\n\
         illegal / corrupt   : {}\n\
         ply-count mismatch  : {}\n\
         too short           : {}\n\
         duplicate           : {}",
        12, 3, 4, 1, 0, 0, 1, 0, 1, 2
    );
    assert_eq!(String::from_utf8(s.report_text()).unwrap(), expected);
}

#[test]
fn counts_add_up_from_zero() {
    let mut s = Stats::default();
    let reasons = [RejectReason::TooShort, RejectReason::IllegalMove, RejectReason::TooShort];
    for (i, r) in reasons.iter().cycle().take(30).enumerate() {
        if i % 4 == 0 {
            s.record_written();
        } else {
            s.record_reject(*r);
        }
    }
    let total = s.written
        + s.missing_elo
        + s.low_elo
        + s.non_standard_variant
        + s.non_standard_start
        + s.illegal_move
        + s.ply_count_mismatch
        + s.too_short
        + s.duplicate;
    assert_eq!(s.seen, 30);
    assert_eq!(total, 30);
}

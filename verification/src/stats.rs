//! Per-run counters of kept and rejected games, and their report.
use vstd::prelude::*;

use crate::filter::RejectReason;
use crate::text::{append_bytes, decimal, push_decimal};

verus! {

/// The opening of the report: "--- ".
pub open spec fn report_head() -> Seq<u8> {
    seq![0x2Du8, 0x2D, 0x2D, 0x20]
}

fn report_head_bytes() -> (r: Vec<u8>)
    ensures
        r@ == report_head(),
{
    let r: Vec<u8> = vec![0x2Du8, 0x2D, 0x2D, 0x20];
    assert(r@ =~= report_head());
    r
}

/// After the games seen: " games seen ---".
pub open spec fn report_seen_tail() -> Seq<u8> {
    seq![0x20u8, 0x67, 0x61, 0x6D, 0x65, 0x73, 0x20, 0x73, 0x65, 0x65, 0x6E, 0x20, 0x2D, 0x2D, 0x2D]
}

fn report_seen_tail_bytes() -> (r: Vec<u8>)
    ensures
        r@ == report_seen_tail(),
{
    let r: Vec<u8> = vec![0x20u8, 0x67, 0x61, 0x6D, 0x65, 0x73, 0x20, 0x73, 0x65, 0x65, 0x6E, 0x20, 0x2D, 0x2D, 0x2D];
    assert(r@ =~= report_seen_tail());
    r
}

/// A line break, the label of the written counter, ": ".
pub open spec fn report_label_written() -> Seq<u8> {
    seq![0x0Au8, 0x77, 0x72, 0x69, 0x74, 0x74, 0x65, 0x6E, 0x20, 0x20, 0x20, 0x20, 0x20, 0x20, 0x20, 0x20, 0x20, 0x20, 0x20, 0x20, 0x20, 0x3A, 0x20]
}

fn report_label_written_bytes() -> (r: Vec<u8>)
    ensures
        r@ == report_label_written(),
{
    let r: Vec<u8> = vec![0x0Au8, 0x77, 0x72, 0x69, 0x74, 0x74, 0x65, 0x6E, 0x20, 0x20, 0x20, 0x20, 0x20, 0x20, 0x20, 0x20, 0x20, 0x20, 0x20, 0x20, 0x20, 0x3A, 0x20];
    assert(r@ =~= report_label_written());
    r
}

/// A line break, the label of the missing elo counter, ": ".
pub open spec fn report_label_missing_elo() -> Seq<u8> {
    seq![0x0Au8, 0x6D, 0x69, 0x73, 0x73, 0x69, 0x6E, 0x67, 0x20, 0x45, 0x6C, 0x6F, 0x20, 0x20, 0x20, 0x20, 0x20, 0x20, 0x20, 0x20, 0x20, 0x3A, 0x20]
}

fn report_label_missing_elo_bytes() -> (r: Vec<u8>)
    ensures
        r@ == report_label_missing_elo(),
{
    let r: Vec<u8> = vec![0x0Au8, 0x6D, 0x69, 0x73, 0x73, 0x69, 0x6E, 0x67, 0x20, 0x45, 0x6C, 0x6F, 0x20, 0x20, 0x20, 0x20, 0x20, 0x20, 0x20, 0x20, 0x20, 0x3A, 0x20];
    assert(r@ =~= report_label_missing_elo());
    r
}

/// A line break, the label of the low elo counter, ": ".
pub open spec fn report_label_low_elo() -> Seq<u8> {
    seq![0x0Au8, 0x62, 0x65, 0x6C, 0x6F, 0x77, 0x20, 0x45, 0x6C, 0x6F, 0x20, 0x66, 0x6C, 0x6F, 0x6F, 0x72, 0x20, 0x20, 0x20, 0x20, 0x20, 0x3A, 0x20]
}

fn report_label_low_elo_bytes() -> (r: Vec<u8>)
    ensures
        r@ == report_label_low_elo(),
{
    let r: Vec<u8> = vec![0x0Au8, 0x62, 0x65, 0x6C, 0x6F, 0x77, 0x20, 0x45, 0x6C, 0x6F, 0x20, 0x66, 0x6C, 0x6F, 0x6F, 0x72, 0x20, 0x20, 0x20, 0x20, 0x20, 0x3A, 0x20];
    assert(r@ =~= report_label_low_elo());
    r
}

/// A line break, the label of the non standard variant counter, ": ".
pub open spec fn report_label_non_standard_variant() -> Seq<u8> {
    seq![0x0Au8, 0x6E, 0x6F, 0x6E, 0x2D, 0x73, 0x74, 0x61, 0x6E, 0x64, 0x61, 0x72, 0x64, 0x20, 0x76, 0x61, 0x72, 0x69, 0x61, 0x6E, 0x74, 0x3A, 0x20]
}

fn report_label_non_standard_variant_bytes() -> (r: Vec<u8>)
    ensures
        r@ == report_label_non_standard_variant(),
{
    let r: Vec<u8> = vec![0x0Au8, 0x6E, 0x6F, 0x6E, 0x2D, 0x73, 0x74, 0x61, 0x6E, 0x64, 0x61, 0x72, 0x64, 0x20, 0x76, 0x61, 0x72, 0x69, 0x61, 0x6E, 0x74, 0x3A, 0x20];
    assert(r@ =~= report_label_non_standard_variant());
    r
}

/// A line break, the label of the non standard start counter, ": ".
pub open spec fn report_label_non_standard_start() -> Seq<u8> {
    seq![0x0Au8, 0x6E, 0x6F, 0x6E, 0x2D, 0x73, 0x74, 0x61, 0x6E, 0x64, 0x61, 0x72, 0x64, 0x20, 0x73, 0x74, 0x61, 0x72, 0x74, 0x20, 0x20, 0x3A, 0x20]
}

fn report_label_non_standard_start_bytes() -> (r: Vec<u8>)
    ensures
        r@ == report_label_non_standard_start(),
{
    let r: Vec<u8> = vec![0x0Au8, 0x6E, 0x6F, 0x6E, 0x2D, 0x73, 0x74, 0x61, 0x6E, 0x64, 0x61, 0x72, 0x64, 0x20, 0x73, 0x74, 0x61, 0x72, 0x74, 0x20, 0x20, 0x3A, 0x20];
    assert(r@ =~= report_label_non_standard_start());
    r
}

/// A line break, the label of the illegal move counter, ": ".
pub open spec fn report_label_illegal_move() -> Seq<u8> {
    seq![0x0Au8, 0x69, 0x6C, 0x6C, 0x65, 0x67, 0x61, 0x6C, 0x20, 0x2F, 0x20, 0x63, 0x6F, 0x72, 0x72, 0x75, 0x70, 0x74, 0x20, 0x20, 0x20, 0x3A, 0x20]
}

fn report_label_illegal_move_bytes() -> (r: Vec<u8>)
    ensures
        r@ == report_label_illegal_move(),
{
    let r: Vec<u8> = vec![0x0Au8, 0x69, 0x6C, 0x6C, 0x65, 0x67, 0x61, 0x6C, 0x20, 0x2F, 0x20, 0x63, 0x6F, 0x72, 0x72, 0x75, 0x70, 0x74, 0x20, 0x20, 0x20, 0x3A, 0x20];
    assert(r@ =~= report_label_illegal_move());
    r
}

/// A line break, the label of the ply count mismatch counter, ": ".
pub open spec fn report_label_ply_count_mismatch() -> Seq<u8> {
    seq![0x0Au8, 0x70, 0x6C, 0x79, 0x2D, 0x63, 0x6F, 0x75, 0x6E, 0x74, 0x20, 0x6D, 0x69, 0x73, 0x6D, 0x61, 0x74, 0x63, 0x68, 0x20, 0x20, 0x3A, 0x20]
}

fn report_label_ply_count_mismatch_bytes() -> (r: Vec<u8>)
    ensures
        r@ == report_label_ply_count_mismatch(),
{
    let r: Vec<u8> = vec![0x0Au8, 0x70, 0x6C, 0x79, 0x2D, 0x63, 0x6F, 0x75, 0x6E, 0x74, 0x20, 0x6D, 0x69, 0x73, 0x6D, 0x61, 0x74, 0x63, 0x68, 0x20, 0x20, 0x3A, 0x20];
    assert(r@ =~= report_label_ply_count_mismatch());
    r
}

/// A line break, the label of the too short counter, ": ".
pub open spec fn report_label_too_short() -> Seq<u8> {
    seq![0x0Au8, 0x74, 0x6F, 0x6F, 0x20, 0x73, 0x68, 0x6F, 0x72, 0x74, 0x20, 0x20, 0x20, 0x20, 0x20, 0x20, 0x20, 0x20, 0x20, 0x20, 0x20, 0x3A, 0x20]
}

fn report_label_too_short_bytes() -> (r: Vec<u8>)
    ensures
        r@ == report_label_too_short(),
{
    let r: Vec<u8> = vec![0x0Au8, 0x74, 0x6F, 0x6F, 0x20, 0x73, 0x68, 0x6F, 0x72, 0x74, 0x20, 0x20, 0x20, 0x20, 0x20, 0x20, 0x20, 0x20, 0x20, 0x20, 0x20, 0x3A, 0x20];
    assert(r@ =~= report_label_too_short());
    r
}

/// A line break, the label of the duplicate counter, ": ".
pub open spec fn report_label_duplicate() -> Seq<u8> {
    seq![0x0Au8, 0x64, 0x75, 0x70, 0x6C, 0x69, 0x63, 0x61, 0x74, 0x65, 0x20, 0x20, 0x20, 0x20, 0x20, 0x20, 0x20, 0x20, 0x20, 0x20, 0x20, 0x3A, 0x20]
}

fn report_label_duplicate_bytes() -> (r: Vec<u8>)
    ensures
        r@ == report_label_duplicate(),
{
    let r: Vec<u8> = vec![0x0Au8, 0x64, 0x75, 0x70, 0x6C, 0x69, 0x63, 0x61, 0x74, 0x65, 0x20, 0x20, 0x20, 0x20, 0x20, 0x20, 0x20, 0x20, 0x20, 0x20, 0x20, 0x3A, 0x20];
    assert(r@ =~= report_label_duplicate());
    r
}

/// 2^64: counters wrap around at this modulus, as `AtomicU64::fetch_add` does.
pub open spec fn counter_modulus() -> int {
    0x1_0000_0000_0000_0000
}

/// `n + 1`, wrapping at 2^64.
pub open spec fn bumped(n: u64) -> u64 {
    ((n as int + 1) % counter_modulus()) as u64
}

/// The progress report: the games seen, then one line per counter.
pub open spec fn report_text(s: Stats) -> Seq<u8> {
    report_head() + decimal(s.seen as nat) + report_seen_tail()
        + report_label_written() + decimal(s.written as nat)
        + report_label_missing_elo() + decimal(s.missing_elo as nat)
        + report_label_low_elo() + decimal(s.low_elo as nat)
        + report_label_non_standard_variant() + decimal(s.non_standard_variant as nat)
        + report_label_non_standard_start() + decimal(s.non_standard_start as nat)
        + report_label_illegal_move() + decimal(s.illegal_move as nat)
        + report_label_ply_count_mismatch() + decimal(s.ply_count_mismatch as nat)
        + report_label_too_short() + decimal(s.too_short as nat)
        + report_label_duplicate() + decimal(s.duplicate as nat)
}

/// `n + 1`, wrapping at 2^64.
fn bump(n: u64) -> (r: u64)
    ensures
        r == bumped(n),
{
    n.wrapping_add(1)
}

pub struct Stats {
    pub seen: u64,
    pub missing_elo: u64,
    pub low_elo: u64,
    pub non_standard_variant: u64,
    pub non_standard_start: u64,
    pub illegal_move: u64,
    pub ply_count_mismatch: u64,
    pub too_short: u64,
    pub duplicate: u64,
    pub written: u64,
}

impl Default for Stats {
    fn default() -> (r: Stats)
        ensures
            r.all_zero(),
    {
        Stats::new()
    }
}

impl Stats {
    /// Every counter at zero.
    pub open spec fn all_zero(self) -> bool {
        &&& self.seen == 0
        &&& self.missing_elo == 0
        &&& self.low_elo == 0
        &&& self.non_standard_variant == 0
        &&& self.non_standard_start == 0
        &&& self.illegal_move == 0
        &&& self.ply_count_mismatch == 0
        &&& self.too_short == 0
        &&& self.duplicate == 0
        &&& self.written == 0
    }

    pub fn new() -> (r: Stats)
        ensures
            r.all_zero(),
    {
        Stats {
            seen: 0,
            missing_elo: 0,
            low_elo: 0,
            non_standard_variant: 0,
            non_standard_start: 0,
            illegal_move: 0,
            ply_count_mismatch: 0,
            too_short: 0,
            duplicate: 0,
            written: 0,
        }
    }

    /// The counter of a rejection reason.
    pub open spec fn count_of(self, reason: RejectReason) -> u64 {
        match reason {
            RejectReason::MissingElo => self.missing_elo,
            RejectReason::LowElo => self.low_elo,
            RejectReason::NonStandardVariant => self.non_standard_variant,
            RejectReason::NonStandardStart => self.non_standard_start,
            RejectReason::IllegalMove => self.illegal_move,
            RejectReason::PlyCountMismatch => self.ply_count_mismatch,
            RejectReason::TooShort => self.too_short,
            RejectReason::Duplicate => self.duplicate,
        }
    }

    /// The counters after one more game rejected for `reason`.
    pub open spec fn after_reject(self, reason: RejectReason) -> Stats {
        let seen = bumped(self.seen);
        match reason {
            RejectReason::MissingElo => Stats { seen, missing_elo: bumped(self.missing_elo), ..self },
            RejectReason::LowElo => Stats { seen, low_elo: bumped(self.low_elo), ..self },
            RejectReason::NonStandardVariant => Stats {
                seen,
                non_standard_variant: bumped(self.non_standard_variant),
                ..self
            },
            RejectReason::NonStandardStart => Stats {
                seen,
                non_standard_start: bumped(self.non_standard_start),
                ..self
            },
            RejectReason::IllegalMove => Stats { seen, illegal_move: bumped(self.illegal_move), ..self },
            RejectReason::PlyCountMismatch => Stats {
                seen,
                ply_count_mismatch: bumped(self.ply_count_mismatch),
                ..self
            },
            RejectReason::TooShort => Stats { seen, too_short: bumped(self.too_short), ..self },
            RejectReason::Duplicate => Stats { seen, duplicate: bumped(self.duplicate), ..self },
        }
    }

    /// The counters after one more game written.
    pub open spec fn after_written(self) -> Stats {
        Stats { seen: bumped(self.seen), written: bumped(self.written), ..self }
    }

    /// The games written plus the games rejected for any reason.
    pub open spec fn outcomes(self) -> int {
        self.written as int + self.missing_elo as int + self.low_elo as int
            + self.non_standard_variant as int + self.non_standard_start as int
            + self.illegal_move as int + self.ply_count_mismatch as int + self.too_short as int
            + self.duplicate as int
    }

    /// Every game seen was counted once, as written or under one rejection
    /// reason (modulo 2^64, where the counters wrap).
    pub open spec fn consistent(self) -> bool {
        self.seen as int == self.outcomes() % counter_modulus()
    }

    /// Counts a rejected game: once in `seen`, once under its reason.
    pub fn record_reject(&mut self, reason: RejectReason)
        ensures
            *final(self) == old(self).after_reject(reason),
            old(self).consistent() ==> final(self).consistent(),
    {
        self.seen = bump(self.seen);
        match reason {
            RejectReason::MissingElo => {
                self.missing_elo = bump(self.missing_elo);
            },
            RejectReason::LowElo => {
                self.low_elo = bump(self.low_elo);
            },
            RejectReason::NonStandardVariant => {
                self.non_standard_variant = bump(self.non_standard_variant);
            },
            RejectReason::NonStandardStart => {
                self.non_standard_start = bump(self.non_standard_start);
            },
            RejectReason::IllegalMove => {
                self.illegal_move = bump(self.illegal_move);
            },
            RejectReason::PlyCountMismatch => {
                self.ply_count_mismatch = bump(self.ply_count_mismatch);
            },
            RejectReason::TooShort => {
                self.too_short = bump(self.too_short);
            },
            RejectReason::Duplicate => {
                self.duplicate = bump(self.duplicate);
            },
        }
        proof {
            if old(self).consistent() {
                lemma_counts_stay_consistent(*old(self), reason);
            }
        }
    }

    /// Counts a written game: once in `seen`, once in `written`.
    pub fn record_written(&mut self)
        ensures
            *final(self) == old(self).after_written(),
            old(self).consistent() ==> final(self).consistent(),
    {
        self.seen = bump(self.seen);
        self.written = bump(self.written);
        proof {
            if old(self).consistent() {
                lemma_counts_stay_consistent(*old(self), RejectReason::Duplicate);
            }
        }
    }

    /// The progress report: the games seen, then the written count and
    /// each rejection count on lines of their own.
    pub fn report_text(&self) -> (r: Vec<u8>)
        ensures
            r@ == report_text(*self),
    {
        let mut out: Vec<u8> = Vec::new();
        append_bytes(&mut out, report_head_bytes().as_slice());
        push_decimal(&mut out, self.seen);
        append_bytes(&mut out, report_seen_tail_bytes().as_slice());
        append_bytes(&mut out, report_label_written_bytes().as_slice());
        push_decimal(&mut out, self.written);
        append_bytes(&mut out, report_label_missing_elo_bytes().as_slice());
        push_decimal(&mut out, self.missing_elo);
        append_bytes(&mut out, report_label_low_elo_bytes().as_slice());
        push_decimal(&mut out, self.low_elo);
        append_bytes(&mut out, report_label_non_standard_variant_bytes().as_slice());
        push_decimal(&mut out, self.non_standard_variant);
        append_bytes(&mut out, report_label_non_standard_start_bytes().as_slice());
        push_decimal(&mut out, self.non_standard_start);
        append_bytes(&mut out, report_label_illegal_move_bytes().as_slice());
        push_decimal(&mut out, self.illegal_move);
        append_bytes(&mut out, report_label_ply_count_mismatch_bytes().as_slice());
        push_decimal(&mut out, self.ply_count_mismatch);
        append_bytes(&mut out, report_label_too_short_bytes().as_slice());
        push_decimal(&mut out, self.too_short);
        append_bytes(&mut out, report_label_duplicate_bytes().as_slice());
        push_decimal(&mut out, self.duplicate);
        assert(out@ =~= report_text(*self));
        out
    }
}

/// Counting one more game, as written or under a rejection reason, keeps
/// every game seen counted exactly once (modulo 2^64).
pub proof fn lemma_counts_stay_consistent(s: Stats, reason: RejectReason)
    requires
        s.consistent(),
    ensures
        s.after_reject(reason).consistent(),
        s.after_written().consistent(),
{
    assert(s.after_reject(reason).outcomes() == s.outcomes() - s.count_of(reason) + bumped(
        s.count_of(reason),
    ));
    lemma_bump_keeps_consistent(
        s.seen,
        s.outcomes(),
        s.count_of(reason),
        s.after_reject(reason).outcomes(),
    );
    lemma_bump_keeps_consistent(s.seen, s.outcomes(), s.written, s.after_written().outcomes());
}

/// Whether a worker reports progress after its `processed`-th game: every
/// `interval` games it processed (never when `interval` is 0).
pub fn progress_due(processed: u64, interval: u64) -> (r: bool)
    ensures
        r == (interval != 0 && processed % interval == 0),
{
    interval != 0 && processed % interval == 0
}

/// A recorded outcome: `Some(reason)` for a rejected game, `None` for a
/// written one.
pub open spec fn after_event(s: Stats, event: Option<RejectReason>) -> Stats {
    match event {
        Some(reason) => s.after_reject(reason),
        None => s.after_written(),
    }
}

/// The counters after recording `events` in order.
pub open spec fn after_events(s: Stats, events: Seq<Option<RejectReason>>) -> Stats
    decreases events.len(),
{
    if events.len() == 0 {
        s
    } else {
        after_event(after_events(s, events.drop_last()), events.last())
    }
}

/// From zeroed counters, after fewer than 2^64 recorded outcomes, `seen` is
/// exactly the number of outcomes recorded, and equals the written count
/// plus every rejection count: no counter has wrapped.
pub proof fn lemma_counts_add_up(s: Stats, events: Seq<Option<RejectReason>>)
    requires
        s.all_zero(),
        events.len() < counter_modulus(),
    ensures
        after_events(s, events).seen == events.len(),
        after_events(s, events).outcomes() == events.len(),
        after_events(s, events).seen as int == after_events(s, events).outcomes(),
    decreases events.len(),
{
    if events.len() > 0 {
        let prefix = events.drop_last();
        lemma_counts_add_up(s, prefix);
        let t = after_events(s, prefix);
        let k = prefix.len();
        assert(k + 1 < counter_modulus());
        assert(bumped(t.seen) == t.seen + 1) by {
            vstd::arithmetic::div_mod::lemma_small_mod((t.seen + 1) as nat, counter_modulus() as nat);
        }
        match events.last() {
            Some(reason) => {
                let c = t.count_of(reason);
                assert(c <= k);
                assert(bumped(c) == c + 1) by {
                    vstd::arithmetic::div_mod::lemma_small_mod((c + 1) as nat, counter_modulus() as nat);
                }
            },
            None => {
                assert(t.written <= k);
                assert(bumped(t.written) == t.written + 1) by {
                    vstd::arithmetic::div_mod::lemma_small_mod((t.written + 1) as nat, counter_modulus() as nat);
                }
            },
        }
    }
}

/// Bumping one counter and `seen`, both wrapping, keeps `seen` equal to
/// the total of the counters modulo 2^64.
proof fn lemma_bump_keeps_consistent(seen: u64, total: int, counter: u64, new_total: int)
    requires
        0 <= counter <= total,
        new_total == total - counter + bumped(counter),
    ensures
        seen as int == total % counter_modulus() ==> bumped(seen) as int == new_total
            % counter_modulus(),
{
    let m = counter_modulus();
    if seen as int == total % m {
        vstd::arithmetic::div_mod::lemma_add_mod_noop(total, 1, m);
        assert((1int) % m == 1);
        if counter as int + 1 == m {
            assert(new_total == total + 1 - m);
            vstd::arithmetic::div_mod::lemma_mod_sub_multiples_vanish(total + 1, m);
        }
    }
}

} // verus!

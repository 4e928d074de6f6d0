//! The output roster: which tags are written, in which order, and which
//! header tags are worth capturing while scanning a game's headers.
use vstd::prelude::*;
use vstd::slice::slice_subrange;

use crate::cli::{default_roster, spec_default_roster};
use crate::tags::{
    tag_black_elo, tag_black_elo_bytes, tag_fen, tag_fen_bytes, tag_ply_count,
    tag_ply_count_bytes, tag_setup, tag_setup_bytes, tag_variant, tag_variant_bytes, tag_white_elo,
    tag_white_elo_bytes,
};
use crate::text::{bytes_eq, to_bytes, trim, trim_ws, views};

verus! {

/// Header tags that must be captured for filtering even when they are not
/// written out: Variant, SetUp, FEN, WhiteElo, BlackElo, PlyCount.
pub open spec fn filter_only_tags() -> Seq<Seq<u8>> {
    seq![tag_variant(), tag_setup(), tag_fen(), tag_white_elo(), tag_black_elo(), tag_ply_count()]
}

fn filter_only_tag_bytes() -> (r: Vec<Vec<u8>>)
    ensures
        views(r@) == filter_only_tags(),
{
    let mut r: Vec<Vec<u8>> = Vec::new();
    r.push(tag_variant_bytes());
    r.push(tag_setup_bytes());
    r.push(tag_fen_bytes());
    r.push(tag_white_elo_bytes());
    r.push(tag_black_elo_bytes());
    r.push(tag_ply_count_bytes());
    assert(views(r@) =~= filter_only_tags());
    r
}

/// Splitting text at `\n`: the lines completed so far, and the line under way.
pub open spec fn split_state(t: Seq<u8>) -> (Seq<Seq<u8>>, Seq<u8>)
    decreases t.len(),
{
    if t.len() == 0 {
        (seq![], seq![])
    } else {
        let (done, cur) = split_state(t.drop_last());
        if t.last() == 0x0A {
            (done.push(cur), seq![])
        } else {
            (done, cur.push(t.last()))
        }
    }
}

/// The pieces of `t` between `\n` bytes.
pub open spec fn lines(t: Seq<u8>) -> Seq<Seq<u8>> {
    split_state(t).0.push(split_state(t).1)
}

/// A roster line names a tag when, trimmed, it is not empty and is not a
/// `#` comment.
pub open spec fn is_entry(line: Seq<u8>) -> bool {
    trim(line).len() > 0 && trim(line)[0] != 0x23
}

/// The trimmed tag names that the lines hold, in order.
pub open spec fn entries(ls: Seq<Seq<u8>>) -> Seq<Seq<u8>>
    decreases ls.len(),
{
    if ls.len() == 0 {
        seq![]
    } else if is_entry(ls.last()) {
        entries(ls.drop_last()).push(trim(ls.last()))
    } else {
        entries(ls.drop_last())
    }
}

/// The output order that a roster file's text gives, or the built-in
/// roster when there is no file.
pub open spec fn roster_order(text: Option<Seq<u8>>) -> Seq<Seq<u8>> {
    match text {
        Some(t) => entries(lines(t)),
        None => spec_default_roster(),
    }
}

/// The built-in roster is never empty, so loading without a roster file
/// always succeeds.
pub proof fn lemma_builtin_roster_nonempty()
    ensures
        roster_order(None).len() == 10,
{
}

pub open spec fn opt_bytes(o: Option<&[u8]>) -> Option<Seq<u8>> {
    match o {
        Some(s) => Some(s@),
        None => None,
    }
}

/// Why a roster could not be built.
#[derive(Debug, Clone, Copy, PartialEq, Eq, Structural)]
pub enum RosterError {
    /// The roster names no tag; at least one output tag is needed.
    Empty,
}

#[derive(Debug, Clone)]
pub struct Roster {
    /// Output tag order, exactly as it should appear in the written PGN.
    pub order: Vec<Vec<u8>>,
    /// Every header key worth capturing: the output tags and the
    /// filter-only tags, each once.
    pub needed: Vec<Vec<u8>>,
}

/// Whether `v` holds the byte string `x`.
pub fn contains_bytes(v: &Vec<Vec<u8>>, x: &[u8]) -> (r: bool)
    ensures
        r == views(v@).contains(x@),
{
    let mut i: usize = 0;
    while i < v.len()
        invariant
            0 <= i <= v@.len(),
            forall|k: int| 0 <= k < i ==> views(v@)[k] != x@,
        decreases v@.len() - i,
    {
        if bytes_eq(v[i].as_slice(), x) {
            assert(views(v@)[i as int] == x@);
            return true;
        }
        i += 1;
    }
    false
}

/// Adds `x` to `set` unless it is there already.
fn insert_unique(set: &mut Vec<Vec<u8>>, x: &[u8])
    requires
        views(old(set)@).no_duplicates(),
    ensures
        views(final(set)@).no_duplicates(),
        forall|k: Seq<u8>|
            views(final(set)@).contains(k) <==> (views(old(set)@).contains(k) || k == x@),
{
    if !contains_bytes(set, x) {
        let ghost before = views(set@);
        set.push(to_bytes(x));
        assert(views(set@) =~= before.push(x@));
        assert forall|k: Seq<u8>| views(set@).contains(k) <==> (before.contains(k) || k == x@) by {
            if views(set@).contains(k) {
                let j = choose|j: int| 0 <= j < views(set@).len() && views(set@)[j] == k;
                if j < before.len() {
                    assert(before[j] == k);
                }
            }
            if before.contains(k) {
                let j = choose|j: int| 0 <= j < before.len() && before[j] == k;
                assert(views(set@)[j] == k);
            }
            if k == x@ {
                assert(views(set@)[before.len() as int] == k);
            }
        }
    }
}

/// Appends the roster entry that `line` holds, if it holds one.
fn push_entry(order: &mut Vec<Vec<u8>>, line: &[u8])
    ensures
        views(final(order)@) == if is_entry(line@) {
            views(old(order)@).push(trim(line@))
        } else {
            views(old(order)@)
        },
{
    let t = trim_ws(line);
    if t.len() > 0 && t[0] != 0x23 {
        order.push(to_bytes(t));
        assert(views(order@) =~= views(old(order)@).push(trim(line@)));
    }
}

/// The tag names that a roster file's text lists, one per line, trimmed,
/// skipping blank lines and `#` comments.
pub fn parse_roster_text(text: &[u8]) -> (r: Vec<Vec<u8>>)
    ensures
        views(r@) == entries(lines(text@)),
{
    let n = text.len();
    let mut order: Vec<Vec<u8>> = Vec::new();
    let mut start: usize = 0;
    let mut i: usize = 0;
    assert(text@.take(0) =~= Seq::<u8>::empty());
    assert(text@.subrange(0, 0) =~= Seq::<u8>::empty());
    while i < n
        invariant
            n == text@.len(),
            0 <= start <= i <= n,
            split_state(text@.take(i as int)).1 == text@.subrange(start as int, i as int),
            views(order@) == entries(split_state(text@.take(i as int)).0),
        decreases n - i,
    {
        let ghost pre = text@.take(i as int);
        assert(text@.take(i + 1).drop_last() =~= pre);
        if text[i] == 0x0A {
            let line = slice_subrange(text, start, i);
            push_entry(&mut order, line);
            start = i + 1;
            assert(split_state(pre).0.push(split_state(pre).1).drop_last() =~= split_state(pre).0);
            assert(text@.subrange(start as int, i + 1) =~= Seq::<u8>::empty());
        } else {
            assert(text@.subrange(start as int, i + 1) =~= text@.subrange(start as int, i as int).push(
                text@[i as int],
            ));
        }
        i += 1;
    }
    assert(text@.take(n as int) =~= text@);
    let last = slice_subrange(text, start, n);
    push_entry(&mut order, last);
    let ghost d = split_state(text@).0;
    let ghost c = split_state(text@).1;
    assert(d.push(c).drop_last() =~= d);
    order
}

impl Roster {
    /// The output tags, in order.
    pub open spec fn order_view(&self) -> Seq<Seq<u8>> {
        views(self.order@)
    }

    /// The header keys worth capturing.
    pub open spec fn needed_view(&self) -> Seq<Seq<u8>> {
        views(self.needed@)
    }

    /// Whether headers named `key` are captured.
    pub open spec fn wanted(&self, key: Seq<u8>) -> bool {
        self.needed_view().contains(key)
    }

    /// A roster that `load` can give back for `order`: `order` not empty,
    /// and `needed` holding each output tag and each filter-only tag once.
    pub open spec fn well_formed_for(&self, order: Seq<Seq<u8>>) -> bool {
        &&& self.order_view() == order
        &&& order.len() > 0
        &&& self.needed_view().no_duplicates()
        &&& forall|k: Seq<u8>|
            self.wanted(k) <==> (order.contains(k) || filter_only_tags().contains(k))
    }

    /// Builds the roster for an output order.
    pub fn from_order(order: Vec<Vec<u8>>) -> (r: Result<Roster, RosterError>)
        ensures
            match r {
                Ok(ro) => ro.well_formed_for(views(order@)),
                Err(e) => views(order@).len() == 0,
            },
    {
        if order.len() == 0 {
            return Err(RosterError::Empty);
        }
        let mut needed: Vec<Vec<u8>> = Vec::new();
        let mut i: usize = 0;
        assert(views(needed@) =~= Seq::<Seq<u8>>::empty());
        while i < order.len()
            invariant
                0 <= i <= order@.len(),
                views(needed@).no_duplicates(),
                forall|k: Seq<u8>|
                    views(needed@).contains(k) <==> views(order@).take(i as int).contains(k),
            decreases order@.len() - i,
        {
            insert_unique(&mut needed, order[i].as_slice());
            let ghost prefix = views(order@).take(i as int);
            assert(views(order@).take(i + 1) =~= prefix.push(views(order@)[i as int]));
            assert forall|k: Seq<u8>|
                views(order@).take(i + 1).contains(k) <==> (prefix.contains(k) || k == views(
                    order@,
                )[i as int]) by {
                let whole = views(order@).take(i + 1);
                if whole.contains(k) {
                    let j = choose|j: int| 0 <= j < whole.len() && whole[j] == k;
                    if j < prefix.len() {
                        assert(prefix[j] == k);
                    }
                }
                if prefix.contains(k) {
                    let j = choose|j: int| 0 <= j < prefix.len() && prefix[j] == k;
                    assert(whole[j] == k);
                }
                if k == views(order@)[i as int] {
                    assert(whole[i as int] == k);
                }
            }
            i += 1;
        }
        assert(views(order@).take(order@.len() as int) =~= views(order@));
        let extra = filter_only_tag_bytes();
        let mut j: usize = 0;
        while j < extra.len()
            invariant
                0 <= j <= extra@.len(),
                views(extra@) == filter_only_tags(),
                views(needed@).no_duplicates(),
                forall|k: Seq<u8>|
                    views(needed@).contains(k) <==> (views(order@).contains(k) || views(
                        extra@,
                    ).take(j as int).contains(k)),
            decreases extra@.len() - j,
        {
            insert_unique(&mut needed, extra[j].as_slice());
            let ghost prefix = views(extra@).take(j as int);
            assert(views(extra@).take(j + 1) =~= prefix.push(views(extra@)[j as int]));
            assert forall|k: Seq<u8>|
                views(extra@).take(j + 1).contains(k) <==> (prefix.contains(k) || k == views(
                    extra@,
                )[j as int]) by {
                let whole = views(extra@).take(j + 1);
                if whole.contains(k) {
                    let m = choose|m: int| 0 <= m < whole.len() && whole[m] == k;
                    if m < prefix.len() {
                        assert(prefix[m] == k);
                    }
                }
                if prefix.contains(k) {
                    let m = choose|m: int| 0 <= m < prefix.len() && prefix[m] == k;
                    assert(whole[m] == k);
                }
                if k == views(extra@)[j as int] {
                    assert(whole[j as int] == k);
                }
            }
            j += 1;
        }
        assert(views(extra@).take(extra@.len() as int) =~= filter_only_tags());
        let r = Roster { order, needed };
        Ok(r)
    }

    /// Builds the roster from a roster file's text (one tag per line, in
    /// output order; blank lines and `#` comments skipped), or the built-in
    /// roster when there is no file. An empty roster is refused.
    pub fn load(text: Option<&[u8]>) -> (r: Result<Roster, RosterError>)
        ensures
            match r {
                Ok(ro) => ro.well_formed_for(roster_order(opt_bytes(text))),
                Err(e) => roster_order(opt_bytes(text)).len() == 0,
            },
    {
        let order = match text {
            Some(t) => parse_roster_text(t),
            None => default_roster(),
        };
        Roster::from_order(order)
    }

    /// Whether headers named `key` are captured.
    pub fn wants(&self, key: &[u8]) -> (r: bool)
        ensures
            r == self.wanted(key@),
    {
        contains_bytes(&self.needed, key)
    }
}

} // verus!

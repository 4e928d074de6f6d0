//! The per-game decisions: which headers to keep, whether the headers
//! already reject the game, how each mainline move is validated and
//! truncated, and what becomes of the game at its end.
use vstd::prelude::*;

use std::sync::Arc;

use shakmaty::Chess;

use crate::chess::{clone_position, parse_san, play_move, san_played, san_to_move, start_position};
use crate::cli::Args;
use crate::filter::{
    is_custom_start, is_standard_variant, parse_elo, spec_is_custom_start, spec_is_standard_variant,
    spec_parse_elo, RejectReason,
};
use crate::pgn::{decode_header, decode_tag_value, lossy_utf8, utf8_lossy};
use crate::roster::Roster;
use crate::tags::{
    tag_black_elo, tag_black_elo_bytes, tag_ply_count, tag_ply_count_bytes, tag_setup,
    tag_setup_bytes, tag_variant, tag_variant_bytes, tag_white_elo, tag_white_elo_bytes,
};
use crate::text::{bytes_eq, parse_usize, parse_usize_bytes, to_bytes, trim, trim_ws, views};

verus! {

/// Settings shared by every game of a run.
pub struct Config {
    pub roster: Arc<Roster>,
    pub min_elo: i32,
    pub max_ply: usize,
    pub min_ply: usize,
    pub validate_full_game: bool,
}

impl Config {
    /// The per-game settings of a run: its roster and the Elo, ply and
    /// validation settings of its arguments.
    pub fn from_args(args: &Args, roster: Roster) -> (r: Config)
        ensures
            *r.roster == roster,
            r.min_elo == args.min_elo,
            r.max_ply == args.max_ply,
            r.min_ply == args.min_ply,
            r.validate_full_game == args.validate_full_game,
    {
        Config {
            roster: Arc::new(roster),
            min_elo: args.min_elo,
            max_ply: args.max_ply,
            min_ply: args.min_ply,
            validate_full_game: args.validate_full_game,
        }
    }
}

/// A game that passed every filter, truncated to its first `max_ply` moves.
pub struct AcceptedGame {
    /// Tags present in the output, already in roster order.
    pub tags: Vec<(Vec<u8>, Vec<u8>)>,
    /// The kept moves, in SAN.
    pub sans: Vec<Vec<u8>>,
    /// The position after the last kept move: the truncation point.
    pub final_pos: Chess,
}

pub enum GameOutcome {
    Accepted(AcceptedGame),
    Rejected(RejectReason),
}

/// Tag/value pairs as byte strings.
pub open spec fn pair_views(v: Seq<(Vec<u8>, Vec<u8>)>) -> Seq<(Seq<u8>, Seq<u8>)> {
    v.map_values(|p: (Vec<u8>, Vec<u8>)| (p.0@, p.1@))
}

/// The value stored last under `k`: later headers replace earlier ones.
pub open spec fn lookup(h: Seq<(Seq<u8>, Seq<u8>)>, k: Seq<u8>) -> Option<Seq<u8>>
    decreases h.len(),
{
    if h.len() == 0 {
        None
    } else if h.last().0 == k {
        Some(h.last().1)
    } else {
        lookup(h.drop_last(), k)
    }
}

/// The Elo that an optional tag value gives.
pub open spec fn elo_of(value: Option<Seq<u8>>) -> Option<i32> {
    match value {
        Some(v) => spec_parse_elo(v),
        None => None,
    }
}

/// The verdict on a game's headers: a non-standard variant, then a custom
/// start position, then missing or low Elo; `None` when the headers pass.
/// Both players need a parseable Elo of at least `min_elo`.
pub open spec fn header_rejection(
    variant: Option<Seq<u8>>,
    setup: Option<Seq<u8>>,
    white_elo: Option<Seq<u8>>,
    black_elo: Option<Seq<u8>>,
    min_elo: i32,
) -> Option<RejectReason> {
    if variant matches Some(v) && !spec_is_standard_variant(v) {
        Some(RejectReason::NonStandardVariant)
    } else if spec_is_custom_start(setup) {
        Some(RejectReason::NonStandardStart)
    } else {
        match (elo_of(white_elo), elo_of(black_elo)) {
            (Some(w), Some(b)) => if w < min_elo || b < min_elo {
                Some(RejectReason::LowElo)
            } else {
                None
            },
            _ => Some(RejectReason::MissingElo),
        }
    }
}

/// How many moves are kept after `ply` plies: the first `max_ply` of them.
pub open spec fn kept_count(ply: usize, max_ply: usize) -> int {
    if ply < max_ply {
        ply as int
    } else {
        max_ply as int
    }
}

/// A game whose headers lack a usable Elo for either player is always
/// rejected, whatever the Elo floor.
pub proof fn lemma_missing_elo_rejected(
    variant: Option<Seq<u8>>,
    setup: Option<Seq<u8>>,
    white_elo: Option<Seq<u8>>,
    black_elo: Option<Seq<u8>>,
    min_elo: i32,
)
    requires
        elo_of(white_elo) is None || elo_of(black_elo) is None,
    ensures
        header_rejection(variant, setup, white_elo, black_elo, min_elo) is Some,
{
}

/// A standard Variant tag counts as no Variant tag: it never changes the
/// header verdict. Only a non-standard Variant rejects as such, and it
/// always does.
pub proof fn lemma_standard_variant_is_harmless(
    variant: Seq<u8>,
    setup: Option<Seq<u8>>,
    white_elo: Option<Seq<u8>>,
    black_elo: Option<Seq<u8>>,
    min_elo: i32,
)
    ensures
        spec_is_standard_variant(variant) ==> header_rejection(
            Some(variant),
            setup,
            white_elo,
            black_elo,
            min_elo,
        ) == header_rejection(None, setup, white_elo, black_elo, min_elo),
        !spec_is_standard_variant(variant) ==> header_rejection(
            Some(variant),
            setup,
            white_elo,
            black_elo,
            min_elo,
        ) == Some(RejectReason::NonStandardVariant),
        header_rejection(None, setup, white_elo, black_elo, min_elo) != Some(
            RejectReason::NonStandardVariant,
        ),
{
}

/// Headers pass only when the variant is standard, the game starts from
/// the initial position, and both players have an Elo of at least the floor.
pub proof fn lemma_passing_headers(
    variant: Option<Seq<u8>>,
    setup: Option<Seq<u8>>,
    white_elo: Option<Seq<u8>>,
    black_elo: Option<Seq<u8>>,
    min_elo: i32,
)
    requires
        header_rejection(variant, setup, white_elo, black_elo, min_elo) is None,
    ensures
        variant matches Some(v) ==> spec_is_standard_variant(v),
        !spec_is_custom_start(setup),
        elo_of(white_elo) matches Some(w) && w >= min_elo && w > 0,
        elo_of(black_elo) matches Some(b) && b >= min_elo && b > 0,
{
}

/// Whether a declared `[PlyCount "N"]` disagrees with the plies parsed.
/// A value that does not read as a count declares nothing.
pub open spec fn ply_count_mismatch(declared: Option<Seq<u8>>, ply: usize) -> bool {
    match declared {
        Some(v) => match parse_usize(trim(v)) {
            Some(d) => d != ply,
            None => false,
        },
        None => false,
    }
}

/// The output tags: each roster tag that the game has, in roster order,
/// with its value as UTF-8 text.
pub open spec fn output_tags(
    order: Seq<Seq<u8>>,
    headers: Seq<(Seq<u8>, Seq<u8>)>,
) -> Seq<(Seq<u8>, Seq<u8>)>
    decreases order.len(),
{
    if order.len() == 0 {
        seq![]
    } else {
        let rest = output_tags(order.drop_last(), headers);
        match lookup(headers, order.last()) {
            Some(v) => rest.push((order.last(), utf8_lossy(v))),
            None => rest,
        }
    }
}

/// What recording the move `san` does to a game state, given the position
/// that playing it gave (`None`: no legal move matched).
pub open spec fn move_recorded(
    old: GameVisitor,
    new: GameVisitor,
    san: Seq<u8>,
    played: Option<Chess>,
) -> bool {
    &&& new.config() == old.config()
    &&& new.start() == old.start()
    &&& new.headers() == old.headers()
    &&& new.rejection() == old.rejection()
    &&& (old.moves().len() == kept_count(old.ply_count(), old.config().max_ply) ==> new.moves().len()
        == kept_count(new.ply_count(), new.config().max_ply))
    &&& (old.rejection() is Some || old.is_illegal() ==> new == old)
    &&& (old.rejection() is None && !old.is_illegal() ==> {
        if old.ply_count() < old.config().max_ply || old.config().validate_full_game {
            match played {
                None => {
                    &&& new.is_illegal()
                    &&& new.position() == old.position()
                    &&& new.kept_position() == old.kept_position()
                    &&& new.moves() == old.moves()
                    &&& new.ply_count() == old.ply_count()
                },
                Some(p) => {
                    &&& !new.is_illegal()
                    &&& new.position() == p
                    &&& new.ply_count() == old.ply_count() + 1
                    &&& if old.ply_count() < old.config().max_ply {
                        &&& new.moves() == old.moves().push(san)
                        &&& new.kept_position() == p
                    } else {
                        &&& new.moves() == old.moves()
                        &&& new.kept_position() == old.kept_position()
                    }
                },
            }
        } else {
            &&& !new.is_illegal()
            &&& new.position() == old.position()
            &&& new.kept_position() == old.kept_position()
            &&& new.moves() == old.moves()
            &&& new.ply_count() == old.ply_count() + 1
        }
    })
}

/// Once the headers rejected a game or a move was illegal, further moves
/// change nothing: the state, and so the verdict, stay as they were.
pub proof fn lemma_dead_game_ignores_moves(
    old: GameVisitor,
    new: GameVisitor,
    san: Seq<u8>,
    played: Option<Chess>,
)
    requires
        old.rejection() is Some || old.is_illegal(),
        move_recorded(old, new, san, played),
    ensures
        new == old,
        new.verdict() == old.verdict(),
        new.verdict() is Some,
{
}

/// A reusable per-worker game state: `begin_game` resets it, so the same
/// allocations serve every game of a file.
pub struct GameVisitor {
    cfg: Arc<Config>,
    headers: Vec<(Vec<u8>, Vec<u8>)>,
    start: Chess,
    pos: Chess,
    kept_pos: Chess,
    sans: Vec<Vec<u8>>,
    ply: usize,
    reject: Option<RejectReason>,
    illegal: bool,
}

impl GameVisitor {
    /// Moves are kept only while fewer than `max_ply` plies were seen.
    #[verifier::type_invariant]
    spec fn moves_within_plies(self) -> bool {
        &&& self.sans@.len() <= self.ply
        &&& self.sans@.len() <= self.cfg.max_ply
    }

    pub closed spec fn config(self) -> Config {
        *self.cfg
    }

    /// The captured headers, in the order they came.
    pub closed spec fn headers(self) -> Seq<(Seq<u8>, Seq<u8>)> {
        pair_views(self.headers@)
    }

    /// The captured value of the header `k`, if any.
    pub open spec fn tag_value(self, k: Seq<u8>) -> Option<Seq<u8>> {
        lookup(self.headers(), k)
    }

    /// The position every game starts from.
    pub closed spec fn start(self) -> Chess {
        self.start
    }

    /// The position after the moves played so far, against which the next
    /// move is checked.
    pub closed spec fn position(self) -> Chess {
        self.pos
    }

    /// The position after the moves kept so far: the truncation point once
    /// `max_ply` plies were seen.
    pub closed spec fn kept_position(self) -> Chess {
        self.kept_pos
    }

    /// The moves kept so far, in SAN.
    pub closed spec fn moves(self) -> Seq<Seq<u8>> {
        views(self.sans@)
    }

    /// The number of mainline plies seen so far.
    pub closed spec fn ply_count(self) -> usize {
        self.ply
    }

    /// The reason the headers rejected the game, if they did.
    pub closed spec fn rejection(self) -> Option<RejectReason> {
        self.reject
    }

    /// Whether a move was found illegal.
    pub closed spec fn is_illegal(self) -> bool {
        self.illegal
    }

    /// The state of a game that has not started: nothing captured, no move,
    /// both positions at the start.
    pub open spec fn is_fresh(self) -> bool {
        &&& self.position() == self.start()
        &&& self.kept_position() == self.start()
        &&& self.headers().len() == 0
        &&& self.moves().len() == 0
        &&& self.ply_count() == 0
        &&& self.rejection() is None
        &&& !self.is_illegal()
    }

    /// The verdict at the end of a game; `None` when it is kept.
    pub open spec fn verdict(self) -> Option<RejectReason> {
        if self.rejection() is Some {
            self.rejection()
        } else if self.is_illegal() {
            Some(RejectReason::IllegalMove)
        } else if self.moves().len() < self.config().min_ply || self.moves().len() == 0 {
            Some(RejectReason::TooShort)
        } else if (self.ply_count() < self.config().max_ply || self.config().validate_full_game)
            && ply_count_mismatch(
            self.tag_value(tag_ply_count()),
            self.ply_count(),
        ) {
            Some(RejectReason::PlyCountMismatch)
        } else {
            None
        }
    }

    pub fn new(cfg: Arc<Config>) -> (r: GameVisitor)
        ensures
            r.config() == *cfg,
            r.is_fresh(),
    {
        let start = start_position();
        let pos = clone_position(&start);
        let kept_pos = clone_position(&start);
        GameVisitor {
            cfg,
            headers: Vec::new(),
            start,
            pos,
            kept_pos,
            sans: Vec::new(),
            ply: 0,
            reject: None,
            illegal: false,
        }
    }

    /// The number of mainline plies seen so far.
    pub fn ply(&self) -> (r: usize)
        ensures
            r == self.ply_count(),
    {
        self.ply
    }

    /// Resets all per-game state; the position goes back to the start.
    pub fn begin_game(&mut self)
        ensures
            final(self).config() == old(self).config(),
            final(self).start() == old(self).start(),
            final(self).is_fresh(),
    {
        proof {
            use_type_invariant(&*self);
        }
        self.headers = Vec::new();
        self.pos = clone_position(&self.start);
        self.kept_pos = clone_position(&self.start);
        self.sans = Vec::new();
        self.ply = 0;
        self.reject = None;
        self.illegal = false;
    }

    /// Captures a header (its raw value, escapes undone) when the roster
    /// wants it; a later header of the same name replaces an earlier one.
    pub fn header(&mut self, key: &[u8], value: &[u8])
        ensures
            final(self).config() == old(self).config(),
            final(self).start() == old(self).start(),
            final(self).position() == old(self).position(),
            final(self).kept_position() == old(self).kept_position(),
            final(self).moves() == old(self).moves(),
            final(self).ply_count() == old(self).ply_count(),
            final(self).rejection() == old(self).rejection(),
            final(self).is_illegal() == old(self).is_illegal(),
            forall|k: Seq<u8>|
                #![trigger final(self).tag_value(k)]
                final(self).tag_value(k) == if old(self).config().roster.wanted(key@) && k == key@ {
                    Some(decode_header(value@))
                } else {
                    old(self).tag_value(k)
                },
    {
        proof {
            use_type_invariant(&*self);
        }
        if self.cfg.roster.wants(key) {
            let v = decode_tag_value(value);
            let ghost before = pair_views(self.headers@);
            let mut headers: Vec<(Vec<u8>, Vec<u8>)> = Vec::new();
            std::mem::swap(&mut headers, &mut self.headers);
            headers.push((to_bytes(key), v));
            self.headers = headers;
            assert(pair_views(self.headers@).drop_last() =~= before);
        }
    }

    /// The captured value of the header `key`.
    fn get_header(&self, key: &[u8]) -> (r: Option<&[u8]>)
        ensures
            match r {
                Some(v) => self.tag_value(key@) == Some(v@),
                None => self.tag_value(key@) is None,
            },
    {
        let mut j: usize = self.headers.len();
        assert(pair_views(self.headers@).take(j as int) =~= pair_views(self.headers@));
        while j > 0
            invariant
                j <= self.headers@.len(),
                lookup(pair_views(self.headers@).take(j as int), key@) == self.tag_value(key@),
            decreases j,
        {
            let ghost prefix = pair_views(self.headers@).take(j as int);
            assert(prefix.drop_last() =~= pair_views(self.headers@).take(j - 1));
            if bytes_eq(self.headers[j - 1].0.as_slice(), key) {
                return Some(self.headers[j - 1].1.as_slice());
            }
            j -= 1;
        }
        None
    }

    /// Decides on the headers before any move is read. Returns whether the
    /// movetext can be skipped, which is whenever the game is rejected.
    pub fn end_headers(&mut self) -> (skip: bool)
        ensures
            final(self).config() == old(self).config(),
            final(self).headers() == old(self).headers(),
            final(self).start() == old(self).start(),
            final(self).position() == old(self).position(),
            final(self).kept_position() == old(self).kept_position(),
            final(self).moves() == old(self).moves(),
            final(self).ply_count() == old(self).ply_count(),
            final(self).is_illegal() == old(self).is_illegal(),
            final(self).rejection() == match header_rejection(
                old(self).tag_value(tag_variant()),
                old(self).tag_value(tag_setup()),
                old(self).tag_value(tag_white_elo()),
                old(self).tag_value(tag_black_elo()),
                old(self).config().min_elo,
            ) {
                Some(reason) => Some(reason),
                None => old(self).rejection(),
            },
            skip == final(self).rejection() is Some,
    {
        proof {
            use_type_invariant(&*self);
        }
        let variant_key = tag_variant_bytes();
        if let Some(variant) = self.get_header(variant_key.as_slice()) {
            if !is_standard_variant(variant) {
                self.reject = Some(RejectReason::NonStandardVariant);
                return true;
            }
        }
        let setup_key = tag_setup_bytes();
        let setup = self.get_header(setup_key.as_slice());
        assert(match setup {
            Some(v) => Some(v@),
            None => None::<Seq<u8>>,
        } == self.tag_value(tag_setup()));
        if is_custom_start(setup) {
            self.reject = Some(RejectReason::NonStandardStart);
            return true;
        }
        let white_key = tag_white_elo_bytes();
        let black_key = tag_black_elo_bytes();
        let white_elo = match self.get_header(white_key.as_slice()) {
            Some(v) => parse_elo(v),
            None => None,
        };
        let black_elo = match self.get_header(black_key.as_slice()) {
            Some(v) => parse_elo(v),
            None => None,
        };
        match (white_elo, black_elo) {
            (Some(w), Some(b)) => {
                if w < self.cfg.min_elo || b < self.cfg.min_elo {
                    self.reject = Some(RejectReason::LowElo);
                }
            },
            _ => {
                self.reject = Some(RejectReason::MissingElo);
            },
        }
        self.reject.is_some()
    }

    /// Records the next mainline move, in SAN, given what playing it gave:
    /// `Some(p)` is the position after it, `None` means it matched no legal
    /// move. Nothing happens once the game is rejected or a move was
    /// illegal. Below `max_ply` (or always, with `validate_full_game`) the
    /// outcome is taken: `None` marks the game illegal, `Some(p)` becomes
    /// the position. Moves below `max_ply` are kept, and so is the position
    /// after them; past `max_ply` the kept position stays at the truncation
    /// point. Every move that is not illegal counts one ply.
    pub fn record_move(&mut self, san: &[u8], played: Option<Chess>)
        requires
            old(self).ply_count() < usize::MAX,
        ensures
            move_recorded(*old(self), *final(self), san@, played),
    {
        proof {
            use_type_invariant(&*self);
        }
        if self.reject.is_some() || self.illegal {
            return ;
        }
        let keep = self.ply < self.cfg.max_ply;
        if keep || self.cfg.validate_full_game {
            match played {
                Some(new_pos) => {
                    if keep {
                        self.kept_pos = clone_position(&new_pos);
                    }
                    self.pos = new_pos;
                },
                None => {
                    self.illegal = true;
                    return ;
                },
            }
            self.ply = self.ply + 1;
            if keep {
                let ghost before = views(self.sans@);
                let mut sans: Vec<Vec<u8>> = Vec::new();
                std::mem::swap(&mut sans, &mut self.sans);
                sans.push(to_bytes(san));
                self.sans = sans;
                assert(views(self.sans@) =~= before.push(san@));
            }
        } else {
            self.ply = self.ply + 1;
        }
    }

    /// Whether the next move is to be matched and played: the game is
    /// still live and the move is below `max_ply` or every move is validated.
    fn plays_next(&self) -> (r: bool)
        ensures
            r == (self.rejection() is None && !self.is_illegal() && (self.ply_count()
                < self.config().max_ply || self.config().validate_full_game)),
    {
        self.reject.is_none() && !self.illegal && (self.ply < self.cfg.max_ply
            || self.cfg.validate_full_game)
    }

    /// Takes the next mainline move, in SAN: when it is to be played, it is
    /// read (`San::from_ascii`), matched to the legal move of the current
    /// position that it denotes (`San::to_move`) and played
    /// (`Position::play`); the outcome is recorded as `record_move` says.
    pub fn san(&mut self, san: &[u8])
        requires
            old(self).ply_count() < usize::MAX,
        ensures
            move_recorded(*old(self), *final(self), san@, san_played(old(self).position(), san@)),
    {
        let plays = self.plays_next();
        let played = if plays {
            match parse_san(san) {
                Some(parsed) => match san_to_move(&parsed, &self.pos) {
                    Some(mv) => play_move(&self.pos, &mv),
                    None => None,
                },
                None => None,
            }
        } else {
            None
        };
        let ghost old_self = *self;
        self.record_move(san, played);
        assert(move_recorded(old_self, *self, san@, san_played(old_self.position(), san@)));
    }

    /// Side lines are never followed: only the mainline matters.
    pub fn begin_variation(&self) -> (skip: bool)
        ensures
            skip,
    {
        true
    }

    /// The output tags of the game, in roster order.
    fn collect_tags(&self) -> (r: Vec<(Vec<u8>, Vec<u8>)>)
        ensures
            pair_views(r@) == output_tags(self.config().roster.order_view(), self.headers()),
    {
        let order = &self.cfg.roster.order;
        let mut tags: Vec<(Vec<u8>, Vec<u8>)> = Vec::new();
        let mut i: usize = 0;
        assert(views(order@).take(0) =~= Seq::<Seq<u8>>::empty());
        while i < order.len()
            invariant
                order == &self.cfg.roster.order,
                0 <= i <= order@.len(),
                pair_views(tags@) == output_tags(views(order@).take(i as int), self.headers()),
            decreases order@.len() - i,
        {
            let ghost prefix = views(order@).take(i + 1);
            assert(prefix.drop_last() =~= views(order@).take(i as int));
            assert(prefix.last() == order@[i as int]@);
            let tag = order[i].as_slice();
            match self.get_header(tag) {
                Some(v) => {
                    let ghost before = pair_views(tags@);
                    tags.push((to_bytes(tag), lossy_utf8(v)));
                    assert(pair_views(tags@) =~= before.push((tag@, utf8_lossy(v@))));
                },
                None => {},
            }
            i += 1;
        }
        assert(views(order@).take(order@.len() as int) =~= views(order@));
        tags
    }

    /// Ends the game: the rejection from the headers, else an illegal move,
    /// else fewer kept moves than `min_ply` (or none), else a declared
    /// PlyCount that disagrees with the plies seen, checked when the whole
    /// mainline was played (the game ended below `max_ply`, or every move
    /// was validated); otherwise the game is accepted with its roster tags,
    /// its kept moves and its final position.
    pub fn end_game(&mut self) -> (r: GameOutcome)
        ensures
            final(self).config() == old(self).config(),
            match old(self).verdict() {
                Some(reason) => {
                    &&& r == GameOutcome::Rejected(reason)
                    &&& *final(self) == *old(self)
                },
                None => {
                    &&& r matches GameOutcome::Accepted(g)
                    &&& pair_views(g.tags@) == output_tags(
                        old(self).config().roster.order_view(),
                        old(self).headers(),
                    )
                    &&& views(g.sans@) == old(self).moves()
                    &&& g.final_pos == old(self).kept_position()
                    &&& 1 <= g.sans@.len() <= old(self).config().max_ply
                    &&& old(self).config().min_ply <= g.sans@.len()
                    &&& final(self).headers() == old(self).headers()
                    &&& final(self).start() == old(self).start()
                    &&& final(self).position() == old(self).position()
                    &&& final(self).kept_position() == old(self).kept_position()
                    &&& final(self).moves().len() == 0
                    &&& final(self).ply_count() == old(self).ply_count()
                    &&& final(self).rejection() == old(self).rejection()
                    &&& final(self).is_illegal() == old(self).is_illegal()
                },
            },
    {
        proof {
            use_type_invariant(&*self);
        }
        if let Some(reason) = self.reject {
            return GameOutcome::Rejected(reason);
        }
        if self.illegal {
            return GameOutcome::Rejected(RejectReason::IllegalMove);
        }
        if self.sans.len() < self.cfg.min_ply || self.sans.len() == 0 {
            return GameOutcome::Rejected(RejectReason::TooShort);
        }
        if self.ply < self.cfg.max_ply || self.cfg.validate_full_game {
            let key = tag_ply_count_bytes();
            let declared = match self.get_header(key.as_slice()) {
                Some(v) => parse_usize_bytes(trim_ws(v)),
                None => None,
            };
            if let Some(d) = declared {
                if d != self.ply {
                    return GameOutcome::Rejected(RejectReason::PlyCountMismatch);
                }
            }
        }
        let tags = self.collect_tags();
        let mut sans: Vec<Vec<u8>> = Vec::new();
        std::mem::swap(&mut sans, &mut self.sans);
        let final_pos = clone_position(&self.kept_pos);
        GameOutcome::Accepted(AcceptedGame { tags, sans, final_pos })
    }
}

} // verus!

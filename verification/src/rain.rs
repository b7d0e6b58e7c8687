//! The particle simulation: a pool of falling glyph chains ("streaks"),
//! spawned once per column, advanced every frame, and recycled in place
//! once their tail has fallen well below the visible area.
//!
//! Vertical positions and speeds are fixed-point: thousandths of a pixel.
//! Every random draw goes through the trusted wrappers in
//! [`crate::randomness`]; the ghost draw records below capture the drawn
//! values, so that each mutating step has an exact functional description
//! and reproducibility from a fixed random source is a theorem.

use vstd::arithmetic::div_mod::{lemma_div_is_ordered, lemma_fundamental_div_mod_converse};
use vstd::prelude::*;

use crate::glyph::GlyphAtlas;
use crate::randomness::{draw_below, rng_from_entropy, rng_from_seed};
use crate::vertexgen::{
    all_vertices, drop_geometry_ok, generate_quads, quad_indices_ok, total_quads, vertex_views,
    Vertex,
};

verus! {

/// Fixed capacity of a streak's character chain.
pub const CHAIN_CAPACITY: usize = 80;

/// Horizontal distance between two spawned columns, in pixels.
pub const COLUMN_SPACING: usize = 40;

/// Padding around the visible vertical range, in thousandths of a pixel:
/// rows within it still count as on screen.
pub const CULL_PAD_MILLI: i64 = 50_000;

/// Smallest chain length a draw can produce.
pub const LENGTH_MIN: usize = 42;

/// Exclusive upper bound on drawn chain lengths.
pub const LENGTH_MAX: usize = 70;

/// Base of the speed distribution, in thousandths of a pixel per frame.
pub const SPEED_BASE_MILLI: u32 = 2000;

/// Width of the uniform base range of the speed distribution.
pub const SPEED_BASE_SPAN: usize = 2000;

/// Width of the smaller uniform boost added on top of the base; the sum
/// biases the distribution toward higher speeds.
pub const SPEED_BOOST_SPAN: usize = 1000;

/// Exclusive upper bound on every speed the distribution can produce.
pub const SPEED_LIMIT: u32 = 5000;

/// The head glyph refreshes every this many frames.
pub const HEAD_REFRESH_FRAMES: u32 = 8;

/// One visible mid-chain glyph mutates every this many frames.
pub const MID_REFRESH_FRAMES: u32 = 6;

/// Upper bound on the window dimensions the simulation accepts, in pixels;
/// keeps all fixed-point arithmetic far from overflow.
pub const DIM_MAX: usize = 1_000_000;

/// First code point of the half-width katakana charset.
pub const FIRST_GLYPH: u32 = 0xFF66;

/// Last code point of the charset.
pub const LAST_GLYPH: u32 = 0xFF9D;

/// Number of characters in the charset.
pub const GLYPH_COUNT: usize = 56;

/// A pixel count in fixed-point position units (thousandths of a pixel).
pub open spec fn in_milli(pixels: int) -> int {
    1000 * pixels
}

/// Vertical span of the given number of chain rows, in thousandths of a
/// pixel. The row spacing is 32 pixels; it is a tunable constant of the
/// effect, not a contract.
pub open spec fn row_span(rows: int) -> int {
    32_000 * rows
}

/// One falling glyph chain. `y` is the head's vertical position in
/// thousandths of a pixel, signed: the head may stand above or below the
/// visible area. `chars` runs from the head (index 0) toward the tail.
#[derive(Clone, Debug)]
pub struct Raindrop {
    pub x: usize,
    pub y: i64,
    pub length: usize,
    pub speed: u32,
    pub chars: Vec<char>,
}

/// Mathematical image of one streak.
#[verifier::ext_equal]
pub ghost struct DropView {
    pub x: int,
    pub y: int,
    pub length: int,
    pub speed: int,
    pub chars: Seq<char>,
}

impl View for Raindrop {
    type V = DropView;

    open spec fn view(&self) -> DropView {
        DropView {
            x: self.x as int,
            y: self.y as int,
            length: self.length as int,
            speed: self.speed as int,
            chars: self.chars@,
        }
    }
}

/// Mathematical image of the whole simulation. The random generator is not
/// part of it: the view is exactly the state that the draws determine.
#[verifier::ext_equal]
pub ghost struct SimView {
    pub drops: Seq<DropView>,
    pub width: int,
    pub height: int,
    pub virtual_height: int,
    pub head_timer: int,
    pub mid_timer: int,
    pub charset: Seq<char>,
}

/// The views of a sequence of streaks.
pub open spec fn views_of(s: Seq<Raindrop>) -> Seq<DropView> {
    Seq::new(s.len(), |i: int| s[i]@)
}

/// The charset is the half-width katakana block, in code point order.
pub open spec fn charset_ok(s: Seq<char>) -> bool {
    &&& s.len() == GLYPH_COUNT
    &&& forall|i: int| 0 <= i < s.len() ==> (#[trigger] s[i]) as u32 == FIRST_GLYPH + i
}

/// How many of a chain's characters are actually kept: the drawn length,
/// clamped to the chain capacity.
pub open spec fn active_count(length: int) -> int {
    if length < CHAIN_CAPACITY {
        length
    } else {
        CHAIN_CAPACITY as int
    }
}

/// How many streaks a window of the given width holds: one per column of
/// 40 pixels, so the count is the width divided by 40, rounded up.
pub open spec fn column_count(width: int) -> int {
    (width + 39) / 40
}

/// Well-formedness of one streak within a window. The bound on `y` holds
/// because a streak is recycled as soon as its tail, at most 80 rows
/// behind the head, passes twice the visible height.
pub open spec fn drop_wf(d: DropView, width: int, height: int) -> bool {
    &&& 0 < d.speed < SPEED_LIMIT
    &&& 0 <= d.x < width
    &&& LENGTH_MIN <= d.length < LENGTH_MAX
    &&& d.chars.len() == active_count(d.length)
    &&& -in_milli(height) <= d.y <= 2 * in_milli(height) + row_span(80)
}

/// Well-formedness of the whole simulation state.
pub open spec fn sim_wf(s: SimView) -> bool {
    &&& 0 <= s.width <= DIM_MAX
    &&& 0 <= s.height <= DIM_MAX
    &&& s.virtual_height == 3 * s.height
    &&& 0 <= s.head_timer < HEAD_REFRESH_FRAMES
    &&& 0 <= s.mid_timer < MID_REFRESH_FRAMES
    &&& charset_ok(s.charset)
    &&& s.drops.len() == column_count(s.width)
    &&& forall|i: int| 0 <= i < s.drops.len() ==> drop_wf(#[trigger] s.drops[i], s.width, s.height)
}

/// Relies on `char::from_u32`, whose documentation promises: every value
/// except the surrogate range 0xD800..=0xDFFF and values above 0x10FFFF
/// converts, and the conversion preserves the numeric value.
#[verifier::external_body]
fn char_from_u32(code: u32) -> (r: Option<char>)
    ensures
        (code < 0xD800 || (0xE000 <= code && code <= 0x10FFFF)) <==> r is Some,
        r matches Some(c) ==> c as u32 == code,
{
    char::from_u32(code)
}

/// The half-width katakana characters the streaks draw from.
pub fn get_charset() -> (cs: Vec<char>)
    ensures
        charset_ok(cs@),
{
    let mut cs: Vec<char> = Vec::new();
    let mut code: u32 = FIRST_GLYPH;
    while code <= LAST_GLYPH
        invariant
            FIRST_GLYPH <= code <= LAST_GLYPH + 1,
            cs@.len() == code - FIRST_GLYPH,
            forall|i: int| 0 <= i < cs@.len() ==> (#[trigger] cs@[i]) as u32 == FIRST_GLYPH + i,
        decreases LAST_GLYPH + 1 - code,
    {
        match char_from_u32(code) {
            Option::Some(c) => {
                cs.push(c);
            },
            Option::None => {
                // Unreachable: the whole katakana block converts.
                proof {
                    assert(false);
                }
            },
        }
        code = code + 1;
    }
    cs
}

/// The values drawn while spawning one streak, in draw order.
pub ghost struct SpawnDraws {
    pub length: int,
    pub base: int,
    pub boost: int,
    pub glyphs: Seq<int>,
    pub offset: int,
}

/// Ranges of the spawn draws: length from its configured range, the two
/// speed terms from their uniform ranges, one charset index per kept
/// character, and a head position anywhere across three screen heights.
pub open spec fn spawn_draws_wf(d: SpawnDraws, height: int) -> bool {
    &&& LENGTH_MIN <= d.length < LENGTH_MAX
    &&& 0 <= d.base < SPEED_BASE_SPAN
    &&& 0 <= d.boost < SPEED_BOOST_SPAN
    &&& d.glyphs.len() == active_count(d.length)
    &&& forall|i: int| 0 <= i < d.glyphs.len() ==> 0 <= #[trigger] d.glyphs[i] < GLYPH_COUNT
    &&& 0 <= d.offset <= 3 * height
}

/// The streak that a spawn at column `x` with draws `d` produces: head
/// placed `offset` pixels below the top of the virtual area (one screen
/// height above the visible top), speed the sum of the two drawn terms.
pub open spec fn spawned_drop(x: int, height: int, charset: Seq<char>, d: SpawnDraws) -> DropView {
    DropView {
        x: x,
        y: in_milli(d.offset) - in_milli(height),
        length: d.length,
        speed: SPEED_BASE_MILLI + d.base + d.boost,
        chars: Seq::new(d.glyphs.len(), |i: int| charset[d.glyphs[i]]),
    }
}

/// Draws for a whole spawn pass: one record per column.
pub open spec fn spawn_seq_wf(ds: Seq<SpawnDraws>, width: int, height: int) -> bool {
    &&& ds.len() == column_count(width)
    &&& forall|i: int| 0 <= i < ds.len() ==> spawn_draws_wf(#[trigger] ds[i], height)
}

/// The streak population that a spawn pass with draws `ds` produces: the
/// streak of record `i` stands in the column at `40 * i` pixels.
pub open spec fn spawn_result(height: int, charset: Seq<char>, ds: Seq<SpawnDraws>) -> Seq<
    DropView,
> {
    Seq::new(ds.len(), |i: int| spawned_drop(40 * i, height, charset, ds[i]))
}

/// Spawn one streak at column `x`: draw a length, the two speed terms, the
/// chain content, and a head position spread across the virtual area.
fn create_raindrop(
    rng: &mut rand::rngs::StdRng,
    charset: &Vec<char>,
    height: usize,
    x: usize,
) -> (d: Raindrop)
    requires
        charset@.len() == GLYPH_COUNT,
        height <= DIM_MAX,
    ensures
        d@.x == x as int,
        0 < d@.speed < SPEED_LIMIT,
        LENGTH_MIN <= d@.length < LENGTH_MAX,
        d@.chars.len() == active_count(d@.length),
        -in_milli(height as int) <= d@.y <= 2 * in_milli(height as int),
        exists|dr: SpawnDraws|
            spawn_draws_wf(dr, height as int) && d@ == spawned_drop(
                x as int,
                height as int,
                charset@,
                dr,
            ),
{
    let length = LENGTH_MIN + draw_below(rng, LENGTH_MAX - LENGTH_MIN);
    let base = draw_below(rng, SPEED_BASE_SPAN);
    let boost = draw_below(rng, SPEED_BOOST_SPAN);
    let speed: u32 = SPEED_BASE_MILLI + (base as u32) + (boost as u32);

    let count = if length < CHAIN_CAPACITY {
        length
    } else {
        CHAIN_CAPACITY
    };
    let mut chars: Vec<char> = Vec::new();
    let ghost mut glyphs: Seq<int> = Seq::empty();
    let mut i: usize = 0;
    while i < count
        invariant
            i <= count,
            charset@.len() == GLYPH_COUNT,
            glyphs.len() == i,
            chars@.len() == i,
            forall|j: int| 0 <= j < i ==> 0 <= #[trigger] glyphs[j] < GLYPH_COUNT,
            forall|j: int| 0 <= j < i ==> #[trigger] chars@[j] == charset@[glyphs[j]],
        decreases count - i,
    {
        let g = draw_below(rng, charset.len());
        chars.push(charset[g]);
        proof {
            glyphs = glyphs.push(g as int);
        }
        i = i + 1;
    }

    let offset = draw_below(rng, 3 * height + 1);
    let y: i64 = (offset as i64) * 1000 - (height as i64) * 1000;

    let d = Raindrop { x, y, length, speed, chars };
    proof {
        let dr = SpawnDraws {
            length: length as int,
            base: base as int,
            boost: boost as int,
            glyphs: glyphs,
            offset: offset as int,
        };
        assert(spawn_draws_wf(dr, height as int));
        assert(d@.chars =~= spawned_drop(x as int, height as int, charset@, dr).chars);
        assert(d@ == spawned_drop(x as int, height as int, charset@, dr));
    }
    d
}

/// Spawn one streak per column across the width.
fn spawn_raindrops(
    rng: &mut rand::rngs::StdRng,
    charset: &Vec<char>,
    width: usize,
    height: usize,
) -> (v: Vec<Raindrop>)
    requires
        charset@.len() == GLYPH_COUNT,
        width <= DIM_MAX,
        height <= DIM_MAX,
    ensures
        v@.len() == column_count(width as int),
        forall|i: int|
            0 <= i < v@.len() ==> drop_wf(#[trigger] v@[i]@, width as int, height as int),
        exists|ds: Seq<SpawnDraws>|
            spawn_seq_wf(ds, width as int, height as int) && views_of(v@) == spawn_result(
                height as int,
                charset@,
                ds,
            ),
{
    let mut v: Vec<Raindrop> = Vec::new();
    let ghost mut ds: Seq<SpawnDraws> = Seq::empty();
    let mut col: usize = 0;
    while col < width
        invariant
            charset@.len() == GLYPH_COUNT,
            width <= DIM_MAX,
            height <= DIM_MAX,
            col == 40 * v@.len(),
            col <= width + COLUMN_SPACING,
            ds.len() == v@.len(),
            v@.len() > 0 ==> 40 * (v@.len() - 1) < width,
            forall|i: int| 0 <= i < ds.len() ==> spawn_draws_wf(#[trigger] ds[i], height as int),
            forall|i: int|
                0 <= i < v@.len() ==> #[trigger] v@[i]@ == spawned_drop(
                    40 * i,
                    height as int,
                    charset@,
                    ds[i],
                ),
            forall|i: int|
                0 <= i < v@.len() ==> drop_wf(#[trigger] v@[i]@, width as int, height as int),
        decreases width + COLUMN_SPACING - col,
    {
        let d = create_raindrop(rng, charset, height, col);
        proof {
            let dr = choose|dr: SpawnDraws|
                spawn_draws_wf(dr, height as int) && d@ == spawned_drop(
                    col as int,
                    height as int,
                    charset@,
                    dr,
                );
            ds = ds.push(dr);
        }
        v.push(d);
        col = col + COLUMN_SPACING;
    }
    proof {
        let n = v@.len() as int;
        if n == 0 {
            assert(width == 0);
        } else {
            lemma_fundamental_div_mod_converse(
                width + 39,
                40,
                n,
                width + 39 - 40 * n,
            );
        }
        assert(spawn_seq_wf(ds, width as int, height as int));
        assert(views_of(v@) =~= spawn_result(height as int, charset@, ds));
    }
    v
}

/// The values drawn while recycling one streak: a new column, a new
/// length, and the fresh chain content.
pub ghost struct RecycleDraws {
    pub x: int,
    pub length: int,
    pub glyphs: Seq<int>,
}

/// The values drawn while mutating one visible mid-chain glyph: which
/// streak, which of its visible slots, and the replacement character.
pub ghost struct MidDraws {
    pub target: int,
    pub slot: int,
    pub glyph: int,
}

/// Everything one update step draws, in draw order.
pub ghost struct UpdateDraws {
    pub head: Seq<int>,
    pub mid: MidDraws,
    pub recycle: Seq<RecycleDraws>,
}

/// One streak after falling for one frame.
pub open spec fn advance_drop(d: DropView) -> DropView {
    DropView { y: d.y + d.speed, ..d }
}

/// The whole population after falling for one frame.
pub open spec fn advanced(s: SimView) -> SimView {
    SimView { drops: Seq::new(s.drops.len(), |i: int| advance_drop(s.drops[i])), ..s }
}

/// One streak with its head character replaced, if it has one.
pub open spec fn head_refreshed(d: DropView, charset: Seq<char>, g: int) -> DropView {
    if d.chars.len() > 0 {
        DropView { chars: d.chars.update(0, charset[g]), ..d }
    } else {
        d
    }
}

/// One draw per streak, each a charset index.
pub open spec fn head_draws_wf(hd: Seq<int>, s: SimView) -> bool {
    &&& hd.len() == s.drops.len()
    &&& forall|i: int| 0 <= i < hd.len() ==> 0 <= #[trigger] hd[i] < GLYPH_COUNT
}

/// The head-refresh phase: on its cadence, every streak's head character
/// is redrawn; otherwise only the timer advances.
pub open spec fn head_phase(s: SimView, hd: Seq<int>) -> SimView {
    if s.head_timer + 1 >= HEAD_REFRESH_FRAMES {
        SimView {
            head_timer: 0,
            drops: Seq::new(s.drops.len(), |i: int| head_refreshed(s.drops[i], s.charset, hd[i])),
            ..s
        }
    } else {
        SimView { head_timer: s.head_timer + 1, ..s }
    }
}

/// Whether the row `k` rows behind a head at `y` lies within the visible
/// vertical range extended by the culling padding.
pub open spec fn row_visible(y: int, k: int, height: int) -> bool {
    &&& -CULL_PAD_MILLI <= y - row_span(k)
    &&& y - row_span(k) <= in_milli(height) + CULL_PAD_MILLI
}

/// The mid-chain slots (index 1 and beyond, below `upto`) of a streak that
/// currently lie in the visible range, in increasing order.
pub open spec fn visible_mids(d: DropView, height: int, upto: int) -> Seq<int>
    decreases upto,
{
    if upto <= 1 {
        Seq::empty()
    } else {
        let pre = visible_mids(d, height, upto - 1);
        if row_visible(d.y, upto - 1, height) {
            pre.push(upto - 1)
        } else {
            pre
        }
    }
}

/// Ranges of the mid-chain draws, against the state the phase receives:
/// a streak index when there are streaks, a slot index when the chosen
/// streak has visible mid-chain glyphs, and a charset index.
pub open spec fn mid_draws_wf(s: SimView, m: MidDraws) -> bool {
    &&& 0 <= m.glyph < GLYPH_COUNT
    &&& if s.drops.len() > 0 {
        0 <= m.target < s.drops.len()
    } else {
        m.target == 0
    }
    &&& {
        let fired = s.mid_timer + 1 >= MID_REFRESH_FRAMES;
        if fired && 0 <= m.target < s.drops.len() {
            let d = s.drops[m.target];
            let vis = visible_mids(d, s.height, d.chars.len() as int);
            if d.chars.len() > 1 && vis.len() > 0 {
                0 <= m.slot < vis.len()
            } else {
                m.slot == 0
            }
        } else {
            m.slot == 0
        }
    }
}

/// The mid-chain phase: on its cadence, one random streak has one of its
/// currently visible mid-chain glyphs replaced, so the mutation is
/// perceptible; otherwise only the timer advances.
pub open spec fn mid_phase(s: SimView, m: MidDraws) -> SimView {
    if s.mid_timer + 1 >= MID_REFRESH_FRAMES {
        let rested = SimView { mid_timer: 0, ..s };
        if s.drops.len() == 0 {
            rested
        } else {
            let d = s.drops[m.target];
            if d.chars.len() <= 1 {
                rested
            } else {
                let vis = visible_mids(d, s.height, d.chars.len() as int);
                if vis.len() == 0 {
                    rested
                } else {
                    let k = vis[m.slot];
                    SimView {
                        mid_timer: 0,
                        drops: s.drops.update(
                            m.target,
                            DropView { chars: d.chars.update(k, s.charset[m.glyph]), ..d },
                        ),
                        ..s
                    }
                }
            }
        }
    } else {
        SimView { mid_timer: s.mid_timer + 1, ..s }
    }
}

/// A streak is recycled once its tail has fully passed twice the visible
/// height.
pub open spec fn needs_recycle(d: DropView, height: int) -> bool {
    d.y - row_span(d.chars.len() as int) > 2 * in_milli(height)
}

/// Ranges of the recycle draws: a column inside the window and a fresh
/// chain like a spawn's.
pub open spec fn recycle_draws_wf(r: RecycleDraws, width: int) -> bool {
    &&& 0 <= r.x < width
    &&& LENGTH_MIN <= r.length < LENGTH_MAX
    &&& r.glyphs.len() == active_count(r.length)
    &&& forall|i: int| 0 <= i < r.glyphs.len() ==> 0 <= #[trigger] r.glyphs[i] < GLYPH_COUNT
}

/// One draw record per streak.
pub open spec fn recycle_seq_wf(rc: Seq<RecycleDraws>, s: SimView) -> bool {
    &&& rc.len() == s.drops.len()
    &&& forall|i: int| 0 <= i < rc.len() ==> recycle_draws_wf(#[trigger] rc[i], s.width)
}

/// One streak after the recycle check: reset atomically to a fresh spawn
/// state above the visible area if its tail has left, untouched otherwise.
/// The fall speed is kept.
pub open spec fn recycled_drop(d: DropView, height: int, charset: Seq<char>, r: RecycleDraws) -> DropView {
    if needs_recycle(d, height) {
        DropView {
            x: r.x,
            y: -in_milli(height),
            length: r.length,
            speed: d.speed,
            chars: Seq::new(active_count(r.length) as nat, |i: int| charset[r.glyphs[i]]),
        }
    } else {
        d
    }
}

/// The recycle phase, applied to every streak.
pub open spec fn recycle_phase(s: SimView, rc: Seq<RecycleDraws>) -> SimView {
    SimView {
        drops: Seq::new(
            s.drops.len(),
            |i: int| recycled_drop(s.drops[i], s.height, s.charset, rc[i]),
        ),
        ..s
    }
}

/// Ranges of everything one update step draws.
pub open spec fn update_draws_wf(s: SimView, u: UpdateDraws) -> bool {
    &&& head_draws_wf(u.head, s)
    &&& mid_draws_wf(head_phase(advanced(s), u.head), u.mid)
    &&& recycle_seq_wf(u.recycle, s)
}

/// One update step as a function of the state and the drawn values alone:
/// fall, refresh heads on their cadence, mutate one visible mid-chain
/// glyph on its cadence, then recycle every streak whose tail has left.
pub open spec fn spec_update(s: SimView, u: UpdateDraws) -> SimView {
    recycle_phase(mid_phase(head_phase(advanced(s), u.head), u.mid), u.recycle)
}

/// N update steps as a function of the state and the drawn values.
pub open spec fn run_updates(s: SimView, us: Seq<UpdateDraws>) -> SimView
    decreases us.len(),
{
    if us.len() == 0 {
        s
    } else {
        run_updates(spec_update(s, us[0]), us.drop_first())
    }
}

/// How one update step leaves each streak: either it fell by exactly its
/// speed with its column, length, speed and chain size unchanged, or it
/// was recycled to one screen height above the visible area.
pub open spec fn advanced_or_recycled(pre: SimView, post: SimView, i: int) -> bool {
    let a = pre.drops[i];
    let b = post.drops[i];
    ||| {
        &&& b.y == a.y + a.speed
        &&& b.x == a.x
        &&& b.length == a.length
        &&& b.speed == a.speed
        &&& b.chars.len() == a.chars.len()
    }
    ||| {
        &&& b.y == -in_milli(pre.height)
        &&& b.y <= 0
        &&& b.speed == a.speed
    }
}

/// Streak well-formedness with the one-frame slack an update step adds
/// before the recycle pass has run.
pub open spec fn drop_wf_loose(d: DropView, width: int, height: int) -> bool {
    &&& 0 < d.speed < SPEED_LIMIT
    &&& 0 <= d.x < width
    &&& LENGTH_MIN <= d.length < LENGTH_MAX
    &&& d.chars.len() == active_count(d.length)
    &&& -in_milli(height) <= d.y <= 2 * in_milli(height) + row_span(80) + SPEED_LIMIT
}

/// What holds of the state between the phases of one update step.
pub open spec fn mid_state_wf(s: SimView) -> bool {
    &&& 0 <= s.width <= DIM_MAX
    &&& 0 <= s.height <= DIM_MAX
    &&& s.virtual_height == 3 * s.height
    &&& charset_ok(s.charset)
    &&& s.drops.len() == column_count(s.width)
    &&& forall|i: int|
        0 <= i < s.drops.len() ==> drop_wf_loose(#[trigger] s.drops[i], s.width, s.height)
}

/// Draw a fresh chain for a recycled streak: a new length from the spawn
/// range and that many characters.
fn regenerate_chars(rng: &mut rand::rngs::StdRng, charset: &Vec<char>) -> (r: (usize, Vec<char>))
    requires
        charset@.len() == GLYPH_COUNT,
    ensures
        LENGTH_MIN <= r.0 < LENGTH_MAX,
        r.1@.len() == active_count(r.0 as int),
        exists|gs: Seq<int>|
            {
                &&& gs.len() == active_count(r.0 as int)
                &&& (forall|i: int| 0 <= i < gs.len() ==> 0 <= #[trigger] gs[i] < GLYPH_COUNT)
                &&& r.1@ == Seq::new(gs.len(), |i: int| charset@[gs[i]])
            },
{
    let new_length = LENGTH_MIN + draw_below(rng, LENGTH_MAX - LENGTH_MIN);
    let count = if new_length < CHAIN_CAPACITY {
        new_length
    } else {
        CHAIN_CAPACITY
    };
    let mut chars: Vec<char> = Vec::new();
    let ghost mut glyphs: Seq<int> = Seq::empty();
    let mut i: usize = 0;
    while i < count
        invariant
            i <= count,
            charset@.len() == GLYPH_COUNT,
            glyphs.len() == i,
            chars@.len() == i,
            forall|j: int| 0 <= j < i ==> 0 <= #[trigger] glyphs[j] < GLYPH_COUNT,
            forall|j: int| 0 <= j < i ==> #[trigger] chars@[j] == charset@[glyphs[j]],
        decreases count - i,
    {
        let g = draw_below(rng, charset.len());
        chars.push(charset[g]);
        proof {
            glyphs = glyphs.push(g as int);
        }
        i = i + 1;
    }
    proof {
        assert(chars@ =~= Seq::new(glyphs.len(), |i: int| charset@[glyphs[i]]));
    }
    (new_length, chars)
}

/// The particle simulation: one streak per column, recycled in place.
pub struct RainSimulation {
    raindrops: Vec<Raindrop>,
    width: usize,
    height: usize,
    virtual_height: usize,
    head_timer: u32,
    mid_timer: u32,
    rng: rand::rngs::StdRng,
    charset: Vec<char>,
}

impl View for RainSimulation {
    type V = SimView;

    closed spec fn view(&self) -> SimView {
        SimView {
            drops: views_of(self.raindrops@),
            width: self.width as int,
            height: self.height as int,
            virtual_height: self.virtual_height as int,
            head_timer: self.head_timer as int,
            mid_timer: self.mid_timer as int,
            charset: self.charset@,
        }
    }
}

impl RainSimulation {
    /// Well-formedness, as callers see it through the view.
    pub open spec fn wf(&self) -> bool {
        sim_wf(self@)
    }

    /// Build a simulation around an already-seeded generator.
    fn assemble(rng: rand::rngs::StdRng, width: usize, height: usize) -> (sim: Self)
        requires
            width <= DIM_MAX,
            height <= DIM_MAX,
        ensures
            sim.wf(),
            sim@.width == width as int,
            sim@.height == height as int,
            sim@.head_timer == 0,
            sim@.mid_timer == 0,
            sim@.drops.len() == column_count(width as int),
            exists|ds: Seq<SpawnDraws>|
                spawn_seq_wf(ds, width as int, height as int) && sim@.drops == spawn_result(
                    height as int,
                    sim@.charset,
                    ds,
                ),
    {
        let charset = get_charset();
        let mut rng = rng;
        let raindrops = spawn_raindrops(&mut rng, &charset, width, height);
        let virtual_height = 3 * height;
        let sim = RainSimulation {
            raindrops,
            width,
            height,
            virtual_height,
            head_timer: 0,
            mid_timer: 0,
            rng,
            charset,
        };
        sim
    }

    /// A fresh simulation for a window of the given pixel size, populated
    /// with one streak per column, each already mid-fall at a random depth
    /// of the virtual area. The generator is seeded from the system's
    /// entropy.
    pub fn new(width: usize, height: usize) -> (sim: Self)
        requires
            width <= DIM_MAX,
            height <= DIM_MAX,
        ensures
            sim.wf(),
            sim@.width == width as int,
            sim@.height == height as int,
            sim@.head_timer == 0,
            sim@.mid_timer == 0,
            sim@.drops.len() == column_count(width as int),
            exists|ds: Seq<SpawnDraws>|
                spawn_seq_wf(ds, width as int, height as int) && sim@.drops == spawn_result(
                    height as int,
                    sim@.charset,
                    ds,
                ),
    {
        Self::assemble(rng_from_entropy(), width, height)
    }

    /// Like [`RainSimulation::new`], but with a fixed random source: two
    /// simulations built from the same seed draw the same values and so
    /// evolve identically.
    pub fn new_seeded(width: usize, height: usize, seed: u64) -> (sim: Self)
        requires
            width <= DIM_MAX,
            height <= DIM_MAX,
        ensures
            sim.wf(),
            sim@.width == width as int,
            sim@.height == height as int,
            sim@.head_timer == 0,
            sim@.mid_timer == 0,
            sim@.drops.len() == column_count(width as int),
            exists|ds: Seq<SpawnDraws>|
                spawn_seq_wf(ds, width as int, height as int) && sim@.drops == spawn_result(
                    height as int,
                    sim@.charset,
                    ds,
                ),
    {
        Self::assemble(rng_from_seed(seed), width, height)
    }

    /// Read access to the streak pool.
    pub fn streaks(&self) -> (r: &Vec<Raindrop>)
        ensures
            views_of(r@) == self@.drops,
    {
        &self.raindrops
    }

    /// Discard all streaks and re-run the initial spawn for the new
    /// dimensions.
    pub fn resize(&mut self, width: usize, height: usize)
        requires
            old(self).wf(),
            width <= DIM_MAX,
            height <= DIM_MAX,
        ensures
            final(self).wf(),
            final(self)@.width == width as int,
            final(self)@.height == height as int,
            final(self)@.drops.len() == column_count(width as int),
            forall|i: int|
                0 <= i < final(self)@.drops.len() ==> 0 <= (#[trigger] final(self)@.drops[i]).x
                    < width,
            exists|ds: Seq<SpawnDraws>|
                spawn_seq_wf(ds, width as int, height as int) && final(self)@.drops
                    == spawn_result(height as int, final(self)@.charset, ds),
    {
        self.width = width;
        self.height = height;
        self.virtual_height = 3 * height;
        self.raindrops.clear();
        self.charset = get_charset();
        let raindrops = spawn_raindrops(&mut self.rng, &self.charset, width, height);
        self.raindrops = raindrops;
    }

    /// Advance every streak by its speed.
    fn advance_all(&mut self)
        requires
            sim_wf(old(self)@),
        ensures
            final(self)@ == advanced(old(self)@),
            mid_state_wf(final(self)@),
    {
        let n = self.raindrops.len();
        let mut i: usize = 0;
        while i < n
            invariant
                n == old(self).raindrops@.len(),
                self.raindrops@.len() == n,
                i <= n,
                self.width == old(self).width,
                self.height == old(self).height,
                self.virtual_height == old(self).virtual_height,
                self.head_timer == old(self).head_timer,
                self.mid_timer == old(self).mid_timer,
                self.charset@ == old(self).charset@,
                sim_wf(old(self)@),
                forall|j: int|
                    0 <= j < i ==> #[trigger] self.raindrops@[j]@ == advance_drop(
                        old(self).raindrops@[j]@,
                    ),
                forall|j: int| i <= j < n ==> self.raindrops@[j] == old(self).raindrops@[j],
            decreases n - i,
        {
            proof {
                assert(drop_wf(old(self)@.drops[i as int], old(self)@.width, old(self)@.height));
            }
            let sp = self.raindrops[i].speed;
            let yv = self.raindrops[i].y;
            self.raindrops[i].y = yv + sp as i64;
            i = i + 1;
        }
        proof {
            assert(self@ =~= advanced(old(self)@));
            assert forall|i: int| 0 <= i < self@.drops.len() implies drop_wf_loose(
                #[trigger] self@.drops[i],
                self@.width,
                self@.height,
            ) by {
                assert(self@.drops[i] == advance_drop(old(self)@.drops[i]));
                assert(drop_wf(old(self)@.drops[i], old(self)@.width, old(self)@.height));
            }
        }
    }

    /// On its cadence, redraw the head character of every streak.
    fn refresh_heads(&mut self)
        requires
            mid_state_wf(old(self)@),
            0 <= old(self)@.head_timer < HEAD_REFRESH_FRAMES,
        ensures
            mid_state_wf(final(self)@),
            exists|hd: Seq<int>|
                head_draws_wf(hd, old(self)@) && final(self)@ == head_phase(old(self)@, hd),
    {
        self.head_timer = self.head_timer + 1;
        let ghost mut hd: Seq<int> = Seq::empty();
        if self.head_timer >= HEAD_REFRESH_FRAMES {
            self.head_timer = 0;
            let n = self.raindrops.len();
            let mut i: usize = 0;
            while i < n
                invariant
                    n == old(self).raindrops@.len(),
                    self.raindrops@.len() == n,
                    i <= n,
                    self.width == old(self).width,
                    self.height == old(self).height,
                    self.virtual_height == old(self).virtual_height,
                    self.head_timer == 0,
                    self.mid_timer == old(self).mid_timer,
                    self.charset@ == old(self).charset@,
                    mid_state_wf(old(self)@),
                    hd.len() == i,
                    forall|j: int| 0 <= j < i ==> 0 <= #[trigger] hd[j] < GLYPH_COUNT,
                    forall|j: int|
                        0 <= j < i ==> #[trigger] self.raindrops@[j]@ == head_refreshed(
                            old(self).raindrops@[j]@,
                            old(self).charset@,
                            hd[j],
                        ),
                    forall|j: int| i <= j < n ==> self.raindrops@[j] == old(self).raindrops@[j],
                decreases n - i,
            {
                if self.raindrops[i].chars.len() > 0 {
                    let g = draw_below(&mut self.rng, self.charset.len());
                    let c = self.charset[g];
                    self.raindrops[i].chars[0] = c;
                    proof {
                        hd = hd.push(g as int);
                    }
                } else {
                    proof {
                        hd = hd.push(0);
                    }
                }
                i = i + 1;
            }
            proof {
                assert(self@.drops =~= head_phase(old(self)@, hd).drops);
                assert(self@ =~= head_phase(old(self)@, hd));
            }
        } else {
            proof {
                hd = Seq::new(old(self)@.drops.len(), |i: int| 0int);
                assert(self@ =~= head_phase(old(self)@, hd));
            }
        }
        proof {
            assert forall|i: int| 0 <= i < self@.drops.len() implies drop_wf_loose(
                #[trigger] self@.drops[i],
                self@.width,
                self@.height,
            ) by {
                assert(drop_wf_loose(old(self)@.drops[i], old(self)@.width, old(self)@.height));
            }
        }
    }

    /// On its cadence, pick one streak and replace one of its visible
    /// mid-chain glyphs, if it has any.
    fn refresh_midchain(&mut self)
        requires
            mid_state_wf(old(self)@),
            0 <= old(self)@.mid_timer < MID_REFRESH_FRAMES,
        ensures
            mid_state_wf(final(self)@),
            exists|m: MidDraws|
                mid_draws_wf(old(self)@, m) && final(self)@ == mid_phase(old(self)@, m),
    {
        self.mid_timer = self.mid_timer + 1;
        if self.mid_timer < MID_REFRESH_FRAMES {
            proof {
                let m = MidDraws { target: 0, slot: 0, glyph: 0 };
                assert(mid_draws_wf(old(self)@, m));
                assert(self@ =~= mid_phase(old(self)@, m));
            }
            return ;
        }
        self.mid_timer = 0;
        if self.raindrops.len() == 0 {
            proof {
                let m = MidDraws { target: 0, slot: 0, glyph: 0 };
                assert(mid_draws_wf(old(self)@, m));
                assert(self@ =~= mid_phase(old(self)@, m));
            }
            return ;
        }
        let t = draw_below(&mut self.rng, self.raindrops.len());
        let chain_len = self.raindrops[t].chars.len();
        if chain_len <= 1 {
            proof {
                let m = MidDraws { target: t as int, slot: 0, glyph: 0 };
                assert(mid_draws_wf(old(self)@, m));
                assert(self@ =~= mid_phase(old(self)@, m));
            }
            return ;
        }
        let ghost dv = old(self)@.drops[t as int];
        let y = self.raindrops[t].y;
        let mut vis: Vec<usize> = Vec::new();
        let mut k: usize = 1;
        proof {
            assert(drop_wf_loose(dv, old(self)@.width, old(self)@.height));
        }
        while k < chain_len
            invariant
                1 <= k <= chain_len,
                t < old(self).raindrops@.len(),
                self.raindrops@ == old(self).raindrops@,
                self.width == old(self).width,
                self.height == old(self).height,
                self.virtual_height == old(self).virtual_height,
                self.head_timer == old(self).head_timer,
                self.mid_timer == 0,
                self.charset@ == old(self).charset@,
                dv == old(self)@.drops[t as int],
                chain_len == dv.chars.len(),
                chain_len <= CHAIN_CAPACITY,
                y == dv.y,
                -in_milli(old(self)@.height) <= y <= 2 * in_milli(old(self)@.height) + row_span(80)
                    + SPEED_LIMIT,
                0 <= old(self)@.height <= DIM_MAX,
                Seq::new(vis@.len(), |j: int| vis@[j] as int) == visible_mids(
                    dv,
                    old(self)@.height,
                    k as int,
                ),
                forall|j: int| 0 <= j < vis@.len() ==> 1 <= #[trigger] vis@[j] < chain_len,
            decreases chain_len - k,
        {
            let char_y = y - (k as i64) * 32_000;
            if char_y >= -CULL_PAD_MILLI && char_y <= (self.height as i64) * 1000 + CULL_PAD_MILLI {
                vis.push(k);
            }
            proof {
                assert(Seq::new(vis@.len(), |j: int| vis@[j] as int) =~= visible_mids(
                    dv,
                    old(self)@.height,
                    k + 1,
                ));
            }
            k = k + 1;
        }
        if vis.len() == 0 {
            proof {
                let m = MidDraws { target: t as int, slot: 0, glyph: 0 };
                assert(mid_draws_wf(old(self)@, m));
                assert(self@ =~= mid_phase(old(self)@, m));
            }
            return ;
        }
        let s = draw_below(&mut self.rng, vis.len());
        let pos = vis[s];
        let g = draw_below(&mut self.rng, self.charset.len());
        let c = self.charset[g];
        self.raindrops[t].chars[pos] = c;
        proof {
            let m = MidDraws { target: t as int, slot: s as int, glyph: g as int };
            assert(mid_draws_wf(old(self)@, m));
            assert(self@.drops =~= mid_phase(old(self)@, m).drops);
            assert(self@ =~= mid_phase(old(self)@, m));
            assert forall|i: int| 0 <= i < self@.drops.len() implies drop_wf_loose(
                #[trigger] self@.drops[i],
                self@.width,
                self@.height,
            ) by {
                assert(drop_wf_loose(old(self)@.drops[i], old(self)@.width, old(self)@.height));
            }
        }
    }

    /// Recycle every streak whose tail has fully passed twice the visible
    /// height: reset its head above the visible area, move it to a fresh
    /// random column, and regenerate its whole chain, all in one step.
    fn recycle_pass(&mut self)
        requires
            mid_state_wf(old(self)@),
        ensures
            forall|i: int|
                0 <= i < final(self)@.drops.len() ==> drop_wf(
                    #[trigger] final(self)@.drops[i],
                    final(self)@.width,
                    final(self)@.height,
                ),
            exists|rc: Seq<RecycleDraws>|
                recycle_seq_wf(rc, old(self)@) && final(self)@ == recycle_phase(old(self)@, rc),
    {
        let n = self.raindrops.len();
        let ghost mut rc: Seq<RecycleDraws> = Seq::empty();
        let mut i: usize = 0;
        while i < n
            invariant
                n == old(self).raindrops@.len(),
                self.raindrops@.len() == n,
                i <= n,
                self.width == old(self).width,
                self.height == old(self).height,
                self.virtual_height == old(self).virtual_height,
                self.head_timer == old(self).head_timer,
                self.mid_timer == old(self).mid_timer,
                self.charset@ == old(self).charset@,
                mid_state_wf(old(self)@),
                rc.len() == i,
                forall|j: int|
                    0 <= j < i ==> recycle_draws_wf(#[trigger] rc[j], old(self)@.width),
                forall|j: int|
                    0 <= j < i ==> #[trigger] self.raindrops@[j]@ == recycled_drop(
                        old(self).raindrops@[j]@,
                        old(self)@.height,
                        old(self).charset@,
                        rc[j],
                    ),
                forall|j: int|
                    0 <= j < i ==> drop_wf(
                        #[trigger] self.raindrops@[j]@,
                        old(self)@.width,
                        old(self)@.height,
                    ),
                forall|j: int| i <= j < n ==> self.raindrops@[j] == old(self).raindrops@[j],
            decreases n - i,
        {
            proof {
                assert(drop_wf_loose(old(self)@.drops[i as int], old(self)@.width, old(self)@.height));
                if self.width == 0 {
                    assert(column_count(0) == 0);
                    assert(false);
                }
            }
            let chain_len = self.raindrops[i].chars.len();
            let tail_y = self.raindrops[i].y - (chain_len as i64) * 32_000;
            if tail_y > (self.height as i64) * 2000 {
                self.raindrops[i].y = -((self.height as i64) * 1000);
                let nx = draw_below(&mut self.rng, self.width);
                self.raindrops[i].x = nx;
                let (new_length, new_chars) = regenerate_chars(&mut self.rng, &self.charset);
                self.raindrops[i].length = new_length;
                self.raindrops[i].chars = new_chars;
                proof {
                    let gs = choose|gs: Seq<int>|
                        {
                            &&& gs.len() == active_count(new_length as int)
                            &&& (forall|j: int| 0 <= j < gs.len() ==> 0 <= #[trigger] gs[j] < GLYPH_COUNT)
                            &&& new_chars@ == Seq::new(gs.len(), |j: int| self.charset@[gs[j]])
                        };
                    let r = RecycleDraws { x: nx as int, length: new_length as int, glyphs: gs };
                    assert(self.raindrops@[i as int]@.chars =~= recycled_drop(
                        old(self).raindrops@[i as int]@,
                        old(self)@.height,
                        old(self).charset@,
                        r,
                    ).chars);
                    rc = rc.push(r);
                }
            } else {
                proof {
                    let r = RecycleDraws {
                        x: 0,
                        length: LENGTH_MIN as int,
                        glyphs: Seq::new(LENGTH_MIN as nat, |j: int| 0int),
                    };
                    rc = rc.push(r);
                }
            }
            i = i + 1;
        }
        proof {
            assert(self@ =~= recycle_phase(old(self)@, rc));
        }
    }

    /// One frame of simulation: every streak falls by its speed, the glyph
    /// flicker phases run on their cadences, and streaks whose tail has
    /// left are recycled. The step changes the state exactly as
    /// [`spec_update`] describes for the values the generator returned.
    pub fn update(&mut self)
        requires
            old(self).wf(),
        ensures
            final(self).wf(),
            final(self)@.width == old(self)@.width,
            final(self)@.height == old(self)@.height,
            final(self)@.charset == old(self)@.charset,
            final(self)@.drops.len() == old(self)@.drops.len(),
            forall|i: int|
                0 <= i < old(self)@.drops.len() ==> advanced_or_recycled(
                    old(self)@,
                    final(self)@,
                    i,
                ),
            exists|u: UpdateDraws|
                update_draws_wf(old(self)@, u) && final(self)@ == spec_update(old(self)@, u),
    {
        let ghost s0 = self@;
        self.advance_all();
        let ghost s1 = self@;
        self.refresh_heads();
        let ghost s2 = self@;
        self.refresh_midchain();
        let ghost s3 = self@;
        self.recycle_pass();
        proof {
            let hd = choose|hd: Seq<int>| head_draws_wf(hd, s1) && s2 == head_phase(s1, hd);
            let m = choose|m: MidDraws| mid_draws_wf(s2, m) && s3 == mid_phase(s2, m);
            let rc = choose|rc: Seq<RecycleDraws>|
                recycle_seq_wf(rc, s3) && self@ == recycle_phase(s3, rc);
            let u = UpdateDraws { head: hd, mid: m, recycle: rc };
            assert(update_draws_wf(s0, u));
            assert(self@ == spec_update(s0, u));
            assert(sim_wf(self@));
            assert forall|i: int| 0 <= i < s0.drops.len() implies advanced_or_recycled(
                s0,
                self@,
                i,
            ) by {
                let a = s0.drops[i];
                let d1 = s1.drops[i];
                let d2 = s2.drops[i];
                let d3 = s3.drops[i];
                let b = self@.drops[i];
                assert(d1 == advance_drop(a));
                assert(d2.y == d1.y && d2.x == d1.x && d2.speed == d1.speed && d2.length
                    == d1.length && d2.chars.len() == d1.chars.len());
                assert(d3.y == d2.y && d3.x == d2.x && d3.speed == d2.speed && d3.length
                    == d2.length && d3.chars.len() == d2.chars.len());
                assert(b == recycled_drop(d3, s3.height, s3.charset, rc[i]));
            }
        }
    }

    /// Project the current streak snapshot through the atlas mapping into
    /// this frame's vertex and index lists. With a degenerate viewport
    /// (zero width or height) nothing is emitted.
    pub fn generate_vertex_data(&self, atlas: &GlyphAtlas) -> (out: (Vec<Vertex>, Vec<u32>))
        requires
            self.wf(),
        ensures
            self@.width >= 1 && self@.height >= 1 ==> {
                &&& out.0@.len() == 4 * total_quads(
                    self@.drops,
                    self@.height,
                    atlas@,
                    self@.drops.len() as int,
                )
                &&& out.1@.len() == 6 * total_quads(
                    self@.drops,
                    self@.height,
                    atlas@,
                    self@.drops.len() as int,
                )
                &&& vertex_views(out.0@) == all_vertices(
                    self@.drops,
                    atlas@,
                    self@.width,
                    self@.height,
                    self@.drops.len() as int,
                )
                &&& forall|j: int|
                    0 <= j < total_quads(
                        self@.drops,
                        self@.height,
                        atlas@,
                        self@.drops.len() as int,
                    ) ==> quad_indices_ok(out.1@, j)
            },
            self@.width == 0 || self@.height == 0 ==> out.0@.len() == 0 && out.1@.len() == 0,
    {
        if self.width == 0 || self.height == 0 {
            (Vec::new(), Vec::new())
        } else {
            proof {
                assert forall|i: int| 0 <= i < self.raindrops@.len() implies drop_geometry_ok(
                    #[trigger] self.raindrops@[i]@,
                ) by {
                    assert(drop_wf(self@.drops[i], self@.width, self@.height));
                }
                lemma_div_is_ordered(self.width + 39, DIM_MAX + 39, 40);
            }
            generate_quads(&self.raindrops, self.width, self.height, atlas)
        }
    }
}

/// Every streak falls with a strictly positive speed and never holds more
/// characters than the chain capacity, in every well-formed state the
/// simulation can be in.
pub proof fn lemma_streak_invariants(s: SimView)
    requires
        sim_wf(s),
    ensures
        forall|i: int|
            0 <= i < s.drops.len() ==> 0 < (#[trigger] s.drops[i]).speed && s.drops[i].chars.len()
                <= CHAIN_CAPACITY,
{
}

/// A streak's head position strictly increases across consecutive update
/// steps, until the step that recycles it, which resets the head one
/// screen height above the visible area, at or above position zero.
pub proof fn lemma_head_monotonic_until_recycle(pre: SimView, post: SimView, i: int)
    requires
        sim_wf(pre),
        0 <= i < pre.drops.len(),
        advanced_or_recycled(pre, post, i),
    ensures
        post.drops[i].y > pre.drops[i].y || post.drops[i].y <= 0,
{
    assert(drop_wf(pre.drops[i], pre.width, pre.height));
}

/// One update step is a function of the state and the drawn values alone:
/// two equal states stepped with the same draws agree bit for bit. With
/// the exact step contract of [`RainSimulation::update`], this is what a
/// fixed random source makes of the simulation: a deterministic system.
pub proof fn lemma_update_deterministic(s1: SimView, s2: SimView, u: UpdateDraws)
    requires
        s1 == s2,
    ensures
        spec_update(s1, u) == spec_update(s2, u),
{
}

/// A whole run is a function of the starting state and the drawn values
/// alone: from equal states, N update steps with the same draws give
/// bit-for-bit equal streak positions and characters.
pub proof fn lemma_run_deterministic(s1: SimView, s2: SimView, us: Seq<UpdateDraws>)
    requires
        s1 == s2,
    ensures
        run_updates(s1, us) == run_updates(s2, us),
{
}

/// The streak count after a resize matches the count a fresh simulation
/// of the same width would have: both are one per column.
pub proof fn lemma_resize_count_matches_new(resized: SimView, fresh: SimView)
    requires
        resized.drops.len() == column_count(resized.width),
        fresh.drops.len() == column_count(fresh.width),
        resized.width == fresh.width,
    ensures
        resized.drops.len() == fresh.drops.len(),
{
}

} // verus!

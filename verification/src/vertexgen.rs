//! The vertex generator: projects a snapshot of the streaks and the glyph
//! atlas mapping into a flat list of textured, colored quads in normalized
//! device coordinates, four vertices and six indices per visible glyph.
//!
//! Device coordinates are fixed-point, in thousandths of the [-1, 1]
//! range; colors in thousandths of full intensity; texture coordinates in
//! millionths of the atlas extent, copied through from the metrics.

use vstd::arithmetic::div_mod::{
    lemma_div_is_ordered, lemma_div_multiples_vanish, lemma_div_pos_is_pos,
};
use vstd::prelude::*;

use crate::glyph::{GlyphAtlas, GlyphMetrics};
use crate::rain::{
    row_span, row_visible, views_of, DropView, Raindrop, CHAIN_CAPACITY, CULL_PAD_MILLI, DIM_MAX,
};

verus! {

/// The tail fade never drops the green channel below this intensity, in
/// thousandths: tails stay faintly lit until they are recycled.
pub const COLOR_FLOOR_MILLI: u32 = 100;

/// One vertex of a glyph quad: position in thousandths of normalized
/// device coordinates, texture coordinates in millionths of the atlas
/// extent, color in thousandths of full intensity.
#[derive(Clone, Copy, Debug, PartialEq, Eq, Structural)]
pub struct Vertex {
    pub x: i64,
    pub y: i64,
    pub u: u32,
    pub v: u32,
    pub r: u32,
    pub g: u32,
    pub b: u32,
    pub a: u32,
}

/// Mathematical image of one vertex.
#[verifier::ext_equal]
pub ghost struct VertexView {
    pub x: int,
    pub y: int,
    pub u: int,
    pub v: int,
    pub r: int,
    pub g: int,
    pub b: int,
    pub a: int,
}

impl View for Vertex {
    type V = VertexView;

    open spec fn view(&self) -> VertexView {
        VertexView {
            x: self.x as int,
            y: self.y as int,
            u: self.u as int,
            v: self.v as int,
            r: self.r as int,
            g: self.g as int,
            b: self.b as int,
            a: self.a as int,
        }
    }
}

/// The views of a vertex list.
pub open spec fn vertex_views(s: Seq<Vertex>) -> Seq<VertexView> {
    Seq::new(s.len(), |i: int| s[i]@)
}

/// Green-channel intensity of the glyph `k` rows behind the head of a
/// chain of nominal length `length`, in thousandths: it decays linearly
/// with the distance from the head, from just under 800 down to the floor
/// of 100.
pub open spec fn tail_brightness(k: int, length: int) -> int {
    100 + 700 * (length - k) / length
}

/// The color of the glyph in row `k`: the head is full-intensity white;
/// every other row is a green whose brightness fades with `k`, with dim
/// red and blue at a tenth of the green.
pub open spec fn color_spec(k: int, length: int) -> (int, int, int, int) {
    if k == 0 {
        (1000int, 1000int, 1000int, 1000int)
    } else {
        let b = tail_brightness(k, length);
        (b / 10, b, b / 10, b)
    }
}

/// The color of one glyph, as red, green, blue, alpha in thousandths.
pub fn glyph_color(row: usize, length: usize) -> (c: (u32, u32, u32, u32))
    requires
        1 <= length <= 1_000_000,
        row <= length,
    ensures
        c.0 == color_spec(row as int, length as int).0,
        c.1 == color_spec(row as int, length as int).1,
        c.2 == color_spec(row as int, length as int).2,
        c.3 == color_spec(row as int, length as int).3,
        c.0 <= 1000 && c.1 <= 1000 && c.2 <= 1000 && c.3 <= 1000,
{
    if row == 0 {
        (1000, 1000, 1000, 1000)
    } else {
        let diff = (length - row) as u64;
        let num = 700u64 * diff;
        proof {
            let li = length as int;
            lemma_div_pos_is_pos(700 * (li - row), li);
            lemma_div_is_ordered(700 * (li - row), 700 * li, li);
            lemma_div_multiples_vanish(700, li);
            assert(li * 700 == 700 * li);
            assert(700 * li / li == 700);
            assert(0 <= 700 * (li - row) / li <= 700);
        }
        let b64 = 100u64 + num / (length as u64);
        let b = b64 as u32;
        (b / 10, b, b / 10, b)
    }
}

/// Color rule: row 0 always yields the fixed full-intensity head color
/// (white, fully opaque); behind the head, the green channel is
/// monotonically non-increasing as the distance from the head grows, and
/// it never falls below the configured floor, so tails never fully
/// vanish before they are recycled.
pub proof fn lemma_color_rule(k1: int, k2: int, length: int)
    requires
        1 <= length,
        1 <= k1 <= k2 <= length,
    ensures
        color_spec(0, length) == (1000int, 1000int, 1000int, 1000int),
        color_spec(k2, length).1 <= color_spec(k1, length).1,
        COLOR_FLOOR_MILLI <= color_spec(k1, length).1,
{
    lemma_div_is_ordered(700 * (length - k2), 700 * (length - k1), length);
    lemma_div_pos_is_pos(700 * (length - k2), length);
    lemma_div_pos_is_pos(700 * (length - k1), length);
}

/// Horizontal device coordinate of a pixel column, in thousandths: the
/// [0, width) pixel range maps onto [-1, 1).
pub open spec fn ndc_x(px: int, width: int) -> int {
    2000 * px / width - 1000
}

/// The device-coordinate span of a pixel length along an axis of the
/// given size, in thousandths.
pub open spec fn ndc_span(px_len: int, dim: int) -> int {
    2000 * px_len / dim
}

/// Vertical device coordinate of a vertical position, in thousandths:
/// pixel row 0 maps to the top of the range (+1), row `height` to the
/// bottom (-1). The position is in thousandths of a pixel.
pub open spec fn ndc_y(pos: int, height: int) -> int {
    if pos >= 0 {
        1000 - 2 * pos / height
    } else {
        1000 + 2 * (-pos) / height
    }
}

/// What the generator needs of a streak so that the fixed-point
/// arithmetic stays in range: these hold of every streak of a well-formed
/// simulation, with room to spare.
pub open spec fn drop_geometry_ok(d: DropView) -> bool {
    &&& 0 <= d.x <= DIM_MAX
    &&& -4_000_000_000 <= d.y <= 4_000_000_000
    &&& 1 <= d.length <= 1_000_000
    &&& d.chars.len() <= d.length
    &&& d.chars.len() <= CHAIN_CAPACITY
}

/// A row produces a quad exactly when it exists, its character has an
/// atlas entry, and its position lies within the padded visible range.
/// A missing atlas entry only skips the glyph, never fails the frame.
pub open spec fn row_emitted(d: DropView, k: int, height: int, am: Map<char, GlyphMetrics>) -> bool {
    &&& 0 <= k < d.chars.len()
    &&& am.contains_key(d.chars[k])
    &&& row_visible(d.y, k, height)
}

/// The four vertices of the quad for row `k` of a streak: bottom-left,
/// bottom-right, top-left, top-right, sharing one color, with the
/// metrics' texture rectangle at the corners.
pub open spec fn quad_vertices(
    d: DropView,
    k: int,
    m: GlyphMetrics,
    width: int,
    height: int,
) -> Seq<VertexView> {
    let xl = ndc_x(d.x, width);
    let gw = ndc_span(m.width as int, width);
    let yt = ndc_y(d.y - row_span(k), height);
    let gh = ndc_span(m.height as int, height);
    let c = color_spec(k, d.length);
    seq![
        VertexView { x: xl, y: yt - gh, u: m.u_min as int, v: m.v_max as int, r: c.0, g: c.1, b: c.2, a: c.3 },
        VertexView { x: xl + gw, y: yt - gh, u: m.u_max as int, v: m.v_max as int, r: c.0, g: c.1, b: c.2, a: c.3 },
        VertexView { x: xl, y: yt, u: m.u_min as int, v: m.v_min as int, r: c.0, g: c.1, b: c.2, a: c.3 },
        VertexView { x: xl + gw, y: yt, u: m.u_max as int, v: m.v_min as int, r: c.0, g: c.1, b: c.2, a: c.3 },
    ]
}

/// The vertices a streak emits for its rows below `upto`, in row order.
pub open spec fn drop_vertices(
    d: DropView,
    am: Map<char, GlyphMetrics>,
    width: int,
    height: int,
    upto: int,
) -> Seq<VertexView>
    decreases upto,
{
    if upto <= 0 {
        Seq::empty()
    } else {
        drop_vertices(d, am, width, height, upto - 1) + if row_emitted(d, upto - 1, height, am) {
            quad_vertices(d, upto - 1, am[d.chars[upto - 1]], width, height)
        } else {
            Seq::empty()
        }
    }
}

/// How many quads a streak emits for its rows below `upto`.
pub open spec fn drop_quad_count(
    d: DropView,
    height: int,
    am: Map<char, GlyphMetrics>,
    upto: int,
) -> int
    decreases upto,
{
    if upto <= 0 {
        0
    } else {
        drop_quad_count(d, height, am, upto - 1) + if row_emitted(d, upto - 1, height, am) {
            1int
        } else {
            0int
        }
    }
}

/// The vertices of the first `upto` streaks, in streak order, each
/// streak's rows in order.
pub open spec fn all_vertices(
    drops: Seq<DropView>,
    am: Map<char, GlyphMetrics>,
    width: int,
    height: int,
    upto: int,
) -> Seq<VertexView>
    decreases upto,
{
    if upto <= 0 {
        Seq::empty()
    } else {
        all_vertices(drops, am, width, height, upto - 1) + drop_vertices(
            drops[upto - 1],
            am,
            width,
            height,
            drops[upto - 1].chars.len() as int,
        )
    }
}

/// How many quads the first `upto` streaks emit in all: the number of
/// rows that lie in the padded visible range and whose character the
/// atlas maps.
pub open spec fn total_quads(
    drops: Seq<DropView>,
    height: int,
    am: Map<char, GlyphMetrics>,
    upto: int,
) -> int
    decreases upto,
{
    if upto <= 0 {
        0
    } else {
        total_quads(drops, height, am, upto - 1) + drop_quad_count(
            drops[upto - 1],
            height,
            am,
            drops[upto - 1].chars.len() as int,
        )
    }
}

/// Quad `j`'s six indices form its two triangles with consistent
/// counter-clockwise winding: bottom-left, bottom-right, top-left, then
/// bottom-right, top-right, top-left.
pub open spec fn quad_indices_ok(ind: Seq<u32>, j: int) -> bool {
    &&& ind[6 * j] == 4 * j
    &&& ind[6 * j + 1] == 4 * j + 1
    &&& ind[6 * j + 2] == 4 * j + 2
    &&& ind[6 * j + 3] == 4 * j + 1
    &&& ind[6 * j + 4] == 4 * j + 3
    &&& ind[6 * j + 5] == 4 * j + 2
}

/// Append the quad of one visible, mapped row: four vertices and the six
/// indices of its two triangles.
fn emit_quad(
    verts: &mut Vec<Vertex>,
    inds: &mut Vec<u32>,
    streak: &Raindrop,
    k: usize,
    m: GlyphMetrics,
    width: usize,
    height: usize,
)
    requires
        1 <= width <= DIM_MAX,
        1 <= height <= DIM_MAX,
        drop_geometry_ok(streak@),
        k < streak@.chars.len(),
        old(verts)@.len() <= 400_000_000,
    ensures
        vertex_views(final(verts)@) == vertex_views(old(verts)@) + quad_vertices(
            streak@,
            k as int,
            m,
            width as int,
            height as int,
        ),
        final(verts)@.len() == old(verts)@.len() + 4,
        final(inds)@.len() == old(inds)@.len() + 6,
        forall|i: int| 0 <= i < old(inds)@.len() ==> final(inds)@[i] == old(inds)@[i],
        final(inds)@[old(inds)@.len() as int] == old(verts)@.len(),
        final(inds)@[old(inds)@.len() + 1 as int] == old(verts)@.len() + 1,
        final(inds)@[old(inds)@.len() + 2 as int] == old(verts)@.len() + 2,
        final(inds)@[old(inds)@.len() + 3 as int] == old(verts)@.len() + 1,
        final(inds)@[old(inds)@.len() + 4 as int] == old(verts)@.len() + 3,
        final(inds)@[old(inds)@.len() + 5 as int] == old(verts)@.len() + 2,
{
    let base = verts.len() as u32;
    let xl = 2000 * (streak.x as i64) / (width as i64) - 1000;
    let gw = 2000 * (m.width as i64) / (width as i64);
    let char_y = streak.y - (k as i64) * 32_000;
    let yt = if char_y >= 0 {
        1000 - 2 * char_y / (height as i64)
    } else {
        1000 + 2 * (-char_y) / (height as i64)
    };
    let gh = 2000 * (m.height as i64) / (height as i64);
    let c = glyph_color(k, streak.length);
    verts.push(Vertex { x: xl, y: yt - gh, u: m.u_min, v: m.v_max, r: c.0, g: c.1, b: c.2, a: c.3 });
    verts.push(
        Vertex { x: xl + gw, y: yt - gh, u: m.u_max, v: m.v_max, r: c.0, g: c.1, b: c.2, a: c.3 },
    );
    verts.push(Vertex { x: xl, y: yt, u: m.u_min, v: m.v_min, r: c.0, g: c.1, b: c.2, a: c.3 });
    verts.push(Vertex { x: xl + gw, y: yt, u: m.u_max, v: m.v_min, r: c.0, g: c.1, b: c.2, a: c.3 });
    inds.push(base);
    inds.push(base + 1);
    inds.push(base + 2);
    inds.push(base + 1);
    inds.push(base + 3);
    inds.push(base + 2);
    proof {
        assert(vertex_views(verts@) =~= vertex_views(old(verts)@) + quad_vertices(
            streak@,
            k as int,
            m,
            width as int,
            height as int,
        ));
    }
}

/// Append everything one streak emits: one quad per row that is visible
/// and mapped.
fn emit_drop(
    verts: &mut Vec<Vertex>,
    inds: &mut Vec<u32>,
    quads: &mut usize,
    streak: &Raindrop,
    width: usize,
    height: usize,
    atlas: &GlyphAtlas,
)
    requires
        1 <= width <= DIM_MAX,
        1 <= height <= DIM_MAX,
        drop_geometry_ok(streak@),
        old(verts)@.len() == 4 * *old(quads),
        old(inds)@.len() == 6 * *old(quads),
        *old(quads) <= 99_000_000,
        forall|j: int| 0 <= j < *old(quads) ==> quad_indices_ok(old(inds)@, j),
    ensures
        *final(quads) == *old(quads) + drop_quad_count(
            streak@,
            height as int,
            atlas@,
            streak@.chars.len() as int,
        ),
        *final(quads) <= *old(quads) + CHAIN_CAPACITY,
        final(verts)@.len() == 4 * *final(quads),
        final(inds)@.len() == 6 * *final(quads),
        vertex_views(final(verts)@) == vertex_views(old(verts)@) + drop_vertices(
            streak@,
            atlas@,
            width as int,
            height as int,
            streak@.chars.len() as int,
        ),
        forall|j: int| 0 <= j < *final(quads) ==> quad_indices_ok(final(inds)@, j),
{
    let chain_len = streak.chars.len();
    let mut k: usize = 0;
    while k < chain_len
        invariant
            1 <= width <= DIM_MAX,
            1 <= height <= DIM_MAX,
            drop_geometry_ok(streak@),
            *old(quads) <= 99_000_000,
            chain_len == streak@.chars.len(),
            k <= chain_len,
            *quads == *old(quads) + drop_quad_count(streak@, height as int, atlas@, k as int),
            *quads <= *old(quads) + k,
            verts@.len() == 4 * *quads,
            inds@.len() == 6 * *quads,
            vertex_views(verts@) == vertex_views(old(verts)@) + drop_vertices(
                streak@,
                atlas@,
                width as int,
                height as int,
                k as int,
            ),
            forall|j: int| 0 <= j < *quads ==> quad_indices_ok(inds@, j),
        decreases chain_len - k,
    {
        let ch = streak.chars[k];
        match atlas.get(ch) {
            Option::Some(m) => {
                let char_y = streak.y - (k as i64) * 32_000;
                if char_y >= -CULL_PAD_MILLI && char_y <= (height as i64) * 1000
                    + CULL_PAD_MILLI {
                    let ghost pre_inds = inds@;
                    let ghost pre_quads = *quads;
                    emit_quad(verts, inds, streak, k, m, width, height);
                    *quads = *quads + 1;
                    proof {
                        assert(row_visible(streak@.y, k as int, height as int));
                        assert(row_emitted(streak@, k as int, height as int, atlas@));
                        assert(vertex_views(verts@) =~= vertex_views(old(verts)@)
                            + drop_vertices(
                            streak@,
                            atlas@,
                            width as int,
                            height as int,
                            k + 1,
                        ));
                        assert forall|j: int| 0 <= j < *quads implies quad_indices_ok(
                            inds@,
                            j,
                        ) by {
                            if j < pre_quads {
                                assert(quad_indices_ok(pre_inds, j));
                            }
                        }
                    }
                } else {
                    proof {
                        assert(!row_visible(streak@.y, k as int, height as int));
                        assert(vertex_views(verts@) =~= vertex_views(old(verts)@)
                            + drop_vertices(
                            streak@,
                            atlas@,
                            width as int,
                            height as int,
                            k + 1,
                        ));
                    }
                }
            },
            Option::None => {
                proof {
                    assert(!atlas@.contains_key(streak@.chars[k as int]));
                    assert(vertex_views(verts@) =~= vertex_views(old(verts)@) + drop_vertices(
                        streak@,
                        atlas@,
                        width as int,
                        height as int,
                        k + 1,
                    ));
                }
            },
        }
        k = k + 1;
    }
}

/// Project a snapshot of the streaks through the atlas mapping into the
/// frame's vertex and index lists: four vertices and six indices per
/// emitted quad, in streak order then row order, with consistent winding.
pub fn generate_quads(
    streaks: &Vec<Raindrop>,
    width: usize,
    height: usize,
    atlas: &GlyphAtlas,
) -> (out: (Vec<Vertex>, Vec<u32>))
    requires
        1 <= width <= DIM_MAX,
        1 <= height <= DIM_MAX,
        streaks@.len() <= DIM_MAX,
        forall|i: int| 0 <= i < streaks@.len() ==> drop_geometry_ok(#[trigger] streaks@[i]@),
    ensures
        out.0@.len() == 4 * total_quads(
            views_of(streaks@),
            height as int,
            atlas@,
            streaks@.len() as int,
        ),
        out.1@.len() == 6 * total_quads(
            views_of(streaks@),
            height as int,
            atlas@,
            streaks@.len() as int,
        ),
        vertex_views(out.0@) == all_vertices(
            views_of(streaks@),
            atlas@,
            width as int,
            height as int,
            streaks@.len() as int,
        ),
        forall|j: int|
            0 <= j < total_quads(views_of(streaks@), height as int, atlas@, streaks@.len() as int)
                ==> quad_indices_ok(out.1@, j),
{
    let mut verts: Vec<Vertex> = Vec::new();
    let mut inds: Vec<u32> = Vec::new();
    let mut quads: usize = 0;
    let n = streaks.len();
    let mut i: usize = 0;
    while i < n
        invariant
            1 <= width <= DIM_MAX,
            1 <= height <= DIM_MAX,
            n == streaks@.len(),
            n <= DIM_MAX,
            i <= n,
            forall|t: int| 0 <= t < streaks@.len() ==> drop_geometry_ok(#[trigger] streaks@[t]@),
            quads == total_quads(views_of(streaks@), height as int, atlas@, i as int),
            quads <= 80 * i,
            verts@.len() == 4 * quads,
            inds@.len() == 6 * quads,
            vertex_views(verts@) == all_vertices(
                views_of(streaks@),
                atlas@,
                width as int,
                height as int,
                i as int,
            ),
            forall|j: int| 0 <= j < quads ==> quad_indices_ok(inds@, j),
        decreases n - i,
    {
        let streak = &streaks[i];
        emit_drop(&mut verts, &mut inds, &mut quads, streak, width, height, atlas);
        proof {
            assert(views_of(streaks@)[i as int] == streaks@[i as int]@);
            assert(vertex_views(verts@) =~= all_vertices(
                views_of(streaks@),
                atlas@,
                width as int,
                height as int,
                i + 1,
            ));
        }
        i = i + 1;
    }
    (verts, inds)
}

} // verus!

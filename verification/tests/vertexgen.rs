use digital_rain::glyph::{GlyphAtlas, GlyphMetrics};
use digital_rain::rain::{get_charset, RainSimulation, Raindrop};
use digital_rain::vertexgen::{generate_quads, glyph_color, Vertex};

fn metrics(u_min: u32, v_min: u32, u_max: u32, v_max: u32) -> GlyphMetrics {
    GlyphMetrics { u_min, v_min, u_max, v_max, width: 32, height: 32 }
}

#[test]
fn atlas_lookup_hits_misses_and_overrides() {
    let mut atlas = GlyphAtlas::new();
    let m1 = metrics(0, 0, 500_000, 500_000);
    let m2 = metrics(500_000, 0, 1_000_000, 500_000);
    atlas.insert('A', m1);
    assert_eq!(atlas.get('A'), Some(m1));
    assert_eq!(atlas.get('B'), None);
    atlas.insert('A', m2);
    assert_eq!(atlas.get('A'), Some(m2));
}

#[test]
fn quad_count_is_visible_rows_with_atlas_entries() {
    // An atlas that only maps 'A', and a chain "AB A" whose four rows all
    // lie on screen: only the two 'A' rows yield quads.
    let mut atlas = GlyphAtlas::new();
    atlas.insert('A', metrics(0, 0, 500_000, 500_000));
    let streak = Raindrop {
        x: 0,
        y: 50_000,
        length: 4,
        speed: 1000,
        chars: vec!['A', 'B', ' ', 'A'],
    };
    let streaks = vec![streak];
    let (verts, inds) = generate_quads(&streaks, 40, 100, &atlas);
    assert_eq!(verts.len(), 2 * 4);
    assert_eq!(inds.len(), 2 * 6);
}

#[test]
fn end_to_end_three_rows_in_range() {
    // A 2x2-glyph atlas with all four cells mapped, a single one-column
    // streak with its head at 50 px and length 3: rows at 50, 18 and -14
    // px all land within [-50, 150], so exactly 3 quads come out.
    let mut atlas = GlyphAtlas::new();
    atlas.insert('A', metrics(0, 0, 500_000, 500_000));
    atlas.insert('B', metrics(500_000, 0, 1_000_000, 500_000));
    atlas.insert('C', metrics(0, 500_000, 500_000, 1_000_000));
    atlas.insert('D', metrics(500_000, 500_000, 1_000_000, 1_000_000));
    let streak = Raindrop {
        x: 0,
        y: 50_000,
        length: 3,
        speed: 1000,
        chars: vec!['A', 'B', 'C'],
    };
    let streaks = vec![streak];
    let (verts, inds) = generate_quads(&streaks, 40, 100, &atlas);
    assert_eq!(verts.len(), 3 * 4);
    assert_eq!(inds.len(), 3 * 6);

    // With an empty atlas mapping, nothing is emitted.
    let empty = GlyphAtlas::new();
    let (verts, inds) = generate_quads(&streaks, 40, 100, &empty);
    assert_eq!(verts.len(), 0);
    assert_eq!(inds.len(), 0);
}

#[test]
fn rows_outside_padded_range_are_culled() {
    let mut atlas = GlyphAtlas::new();
    atlas.insert('A', metrics(0, 0, 500_000, 500_000));
    // Head far below the padded range; the second row still inside it.
    let streak = Raindrop {
        x: 0,
        y: 160_000,
        length: 2,
        speed: 1000,
        chars: vec!['A', 'A'],
    };
    let streaks = vec![streak];
    let (verts, _) = generate_quads(&streaks, 40, 100, &atlas);
    // Row 0 at 160 px > 150 px is culled; row 1 at 128 px is kept.
    assert_eq!(verts.len(), 4);

    // Above the screen the same padding applies: a head at -40 px is
    // still inside [-50, 150], one at -60 px is not.
    let near_top = Raindrop { x: 0, y: -40_000, length: 1, speed: 1000, chars: vec!['A'] };
    let (verts, _) = generate_quads(&vec![near_top], 40, 100, &atlas);
    assert_eq!(verts.len(), 4);
    let above_top = Raindrop { x: 0, y: -60_000, length: 1, speed: 1000, chars: vec!['A'] };
    let (verts, _) = generate_quads(&vec![above_top], 40, 100, &atlas);
    assert_eq!(verts.len(), 0);
}

#[test]
fn quad_geometry_uv_color_and_winding() {
    let mut atlas = GlyphAtlas::new();
    let m = metrics(250_000, 0, 500_000, 250_000);
    atlas.insert('A', m);
    let streak = Raindrop { x: 0, y: 50_000, length: 3, speed: 1000, chars: vec!['A'] };
    let streaks = vec![streak];
    let (verts, inds) = generate_quads(&streaks, 40, 100, &atlas);
    assert_eq!(verts.len(), 4);

    // x: column 0 of 40 maps to -1.000; a 32 px glyph spans 1.600.
    // y: 50 px of 100 maps to 0.000; a 32 px glyph spans 0.640.
    let head = (1000, 1000, 1000, 1000);
    let expect = [
        Vertex { x: -1000, y: -640, u: m.u_min, v: m.v_max, r: head.0, g: head.1, b: head.2, a: head.3 },
        Vertex { x: 600, y: -640, u: m.u_max, v: m.v_max, r: head.0, g: head.1, b: head.2, a: head.3 },
        Vertex { x: -1000, y: 0, u: m.u_min, v: m.v_min, r: head.0, g: head.1, b: head.2, a: head.3 },
        Vertex { x: 600, y: 0, u: m.u_max, v: m.v_min, r: head.0, g: head.1, b: head.2, a: head.3 },
    ];
    assert_eq!(&verts[..], &expect[..]);

    // Two triangles per quad, consistent winding.
    assert_eq!(inds, vec![0, 1, 2, 1, 3, 2]);
}

#[test]
fn head_color_is_white_and_tail_fades_to_floor() {
    assert_eq!(glyph_color(0, 50), (1000, 1000, 1000, 1000));
    assert_eq!(glyph_color(1, 50), (78, 786, 78, 786));
    let mut last = glyph_color(1, 50).1;
    for k in 2..=50 {
        let g = glyph_color(k, 50).1;
        assert!(g <= last, "green must not increase toward the tail");
        assert!(g >= 100, "green never falls below the floor");
        last = g;
    }
    assert_eq!(glyph_color(50, 50).1, 100);
}

#[test]
fn simulation_snapshot_renders_with_full_charset_atlas() {
    let mut atlas = GlyphAtlas::new();
    for c in get_charset() {
        atlas.insert(c, metrics(0, 0, 1_000_000, 1_000_000));
    }
    let mut sim = RainSimulation::new_seeded(120, 90, 8);
    sim.update();
    let (verts, inds) = sim.generate_vertex_data(&atlas);
    assert_eq!(verts.len() % 4, 0);
    assert_eq!(inds.len(), verts.len() / 4 * 6);
    for (j, chunk) in inds.chunks(6).enumerate() {
        let b = (4 * j) as u32;
        assert_eq!(chunk, &[b, b + 1, b + 2, b + 1, b + 3, b + 2]);
    }
}

#[test]
fn degenerate_viewport_emits_nothing() {
    let atlas = GlyphAtlas::new();
    let sim = RainSimulation::new_seeded(100, 0, 4);
    let (verts, inds) = sim.generate_vertex_data(&atlas);
    assert!(verts.is_empty());
    assert!(inds.is_empty());
}

#[test]
fn empty_streak_list_emits_nothing() {
    let mut atlas = GlyphAtlas::new();
    atlas.insert('A', metrics(0, 0, 500_000, 500_000));
    let streaks: Vec<Raindrop> = Vec::new();
    let (verts, inds) = generate_quads(&streaks, 40, 100, &atlas);
    assert!(verts.is_empty());
    assert!(inds.is_empty());
}

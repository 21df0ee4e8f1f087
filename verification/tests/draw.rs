use console_bitmap::{draw, draw_from_vec, BlockElements, BraillePatterns};

fn convert(c: char) -> bool {
    c == '#'
}

fn row(s: &str) -> Vec<bool> {
    s.chars().map(convert).collect()
}

#[test]
fn it_works() {
    assert_eq!(2 + 2, 4);
    for v in draw::<BlockElements>(vec![
        row("######   ###   "),
        row("# ## ## # # # ##"),
        row("######   ###   #"),
    ]) {
        println!("{}", v);
    }
}

#[test]
fn golden_block_scenario() {
    let out = draw::<BlockElements>(vec![
        row("######   ###   "),
        row("# ## ## # # # ##"),
        row("######   ###   #"),
    ]);
    assert_eq!(out.len(), 2);
    assert_eq!(
        out[0],
        "\u{259B}\u{2588}\u{259C}\u{2596}\u{259E}\u{259B}\u{2596}\u{2584}"
    );
    assert_eq!(
        out[1],
        "\u{2580}\u{2580}\u{2580} \u{259D}\u{2580} \u{259D}"
    );
}

#[test]
fn empty_bitmap_is_empty() {
    let out = draw_from_vec::<BlockElements>(&[]);
    assert!(out.is_empty());
    let out = draw::<BraillePatterns>(Vec::new());
    assert!(out.is_empty());
}

#[test]
fn blank_cells_render_blank() {
    let out = draw::<BlockElements>(vec![vec![false, false], vec![false, false]]);
    assert_eq!(out, vec![" ".to_string()]);
    let out = draw::<BraillePatterns>(vec![
        vec![false, false],
        vec![false, false],
        vec![false, false],
        vec![false, false],
    ]);
    assert_eq!(out, vec!["\u{2800}".to_string()]);
}

#[test]
fn full_block_cell() {
    let out = draw::<BlockElements>(vec![vec![true, true], vec![true, true]]);
    assert_eq!(out, vec!["\u{2588}".to_string()]);
}

#[test]
fn block_glyph_table_is_bijection() {
    let table = [
        ' ', '\u{2598}', '\u{259D}', '\u{2580}', '\u{2596}', '\u{258C}', '\u{259E}', '\u{259B}',
        '\u{2597}', '\u{259A}', '\u{2590}', '\u{259C}', '\u{2584}', '\u{2599}', '\u{259F}',
        '\u{2588}',
    ];
    for code in 0..16usize {
        let bm = vec![
            vec![code & 1 == 1, code & 2 == 2],
            vec![code & 4 == 4, code & 8 == 8],
        ];
        let out = draw::<BlockElements>(bm);
        assert_eq!(out, vec![table[code].to_string()]);
    }
    for a in 0..16usize {
        for b in 0..16usize {
            if a != b {
                assert_ne!(table[a], table[b]);
            }
        }
    }
}

#[test]
fn braille_glyphs_invertible() {
    // Inverse of the braille dot permutation: dot bit -> engine bit.
    let inv = [0usize, 2, 4, 1, 3, 5, 6, 7];
    let mut seen = [false; 256];
    for p in 0..256usize {
        let mut bm: Vec<Vec<bool>> = Vec::new();
        for r in 0..4usize {
            let mut line: Vec<bool> = Vec::new();
            for c in 0..2usize {
                line.push((p >> (r * 2 + c)) & 1 == 1);
            }
            bm.push(line);
        }
        let out = draw::<BraillePatterns>(bm);
        assert_eq!(out.len(), 1);
        let ch = out[0].chars().next().unwrap();
        let t = (ch as u32 - 0x2800) as usize;
        assert!(t < 256);
        assert!(!seen[t]);
        seen[t] = true;
        let mut back = 0usize;
        for d in 0..8usize {
            if (t >> d) & 1 == 1 {
                back |= 1 << inv[d];
            }
        }
        assert_eq!(back, p);
    }
}

#[test]
fn braille_golden_cells() {
    // One pixel at the top left: engine bit 0, braille dot 1.
    let out = draw::<BraillePatterns>(vec![
        vec![true, false],
        vec![false, false],
        vec![false, false],
        vec![false, false],
    ]);
    assert_eq!(out, vec!["\u{2801}".to_string()]);
    // One pixel at the top right: engine bit 1, braille dot 4 (bit 3).
    let out = draw::<BraillePatterns>(vec![
        vec![false, true],
        vec![false, false],
        vec![false, false],
        vec![false, false],
    ]);
    assert_eq!(out, vec!["\u{2808}".to_string()]);
    // One pixel on the second line, left: engine bit 2, braille dot 2 (bit 1).
    let out = draw::<BraillePatterns>(vec![
        vec![false, false],
        vec![true, false],
        vec![false, false],
        vec![false, false],
    ]);
    assert_eq!(out, vec!["\u{2802}".to_string()]);
    // All eight pixels set: the full braille cell.
    let out = draw::<BraillePatterns>(vec![
        vec![true, true],
        vec![true, true],
        vec![true, true],
        vec![true, true],
    ]);
    assert_eq!(out, vec!["\u{28FF}".to_string()]);
}

#[test]
fn braille_partial_band_shape() {
    // 5 all-unset rows of width 3: two bands (the second of one row),
    // each two characters wide.
    let bm = vec![
        vec![false, false, false],
        vec![false, false, false],
        vec![false, false, false],
        vec![false, false, false],
        vec![false, false, false],
    ];
    let out = draw::<BraillePatterns>(bm);
    assert_eq!(
        out,
        vec![
            "\u{2800}\u{2800}".to_string(),
            "\u{2800}\u{2800}".to_string(),
        ]
    );
}

#[test]
fn ragged_rows_clamp_to_unset() {
    // The second row is shorter than the band's first row: its missing
    // pixels are unset.
    let out = draw::<BlockElements>(vec![row("####"), row("##")]);
    assert_eq!(out, vec!["\u{2588}\u{2580}".to_string()]);
    // The second row is longer: the band's width comes from the first row,
    // extra columns are ignored.
    let out = draw::<BlockElements>(vec![row("##"), row("####")]);
    assert_eq!(out, vec!["\u{2588}".to_string()]);
}

#[test]
fn deterministic_draw() {
    let bm = vec![
        row("# #"),
        row(" ##"),
        row("## "),
    ];
    let first = draw::<BraillePatterns>(bm.clone());
    let second = draw::<BraillePatterns>(bm);
    assert_eq!(first, second);
}

#[test]
fn draw_matches_draw_from_vec() {
    let bm = vec![row("#  ##"), row(" ## #"), row("#####")];
    let borrowed = draw_from_vec::<BlockElements>(&bm);
    let owned = draw::<BlockElements>(bm);
    assert_eq!(borrowed, owned);
}

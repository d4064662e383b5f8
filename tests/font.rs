use maru::font::{BitmapFont, Glyph, GLYPH_TABLE_SIZE};
use maru::region::TextureRegion;
use maru::instancer::Instancer;

fn row(pattern: &str) -> Vec<bool> {
    pattern.chars().map(|c| c == '|').collect()
}

fn chars(s: &str) -> Vec<char> {
    s.chars().collect()
}

#[test]
fn regions_lie_between_separators() {
    // separators at columns 0, 3, 5 and 9
    let font = BitmapFont::new(&row("|..|.|...|"), &chars("AB "), 8);
    assert_eq!(font.height(), 8);
    assert_eq!(font.region('A'), TextureRegion::new(1, 0, 3, 8));
    assert_eq!(font.region('B'), TextureRegion::new(4, 0, 5, 8));
    assert_eq!(font.region(' '), TextureRegion::new(6, 0, 9, 8));
    assert_eq!(font.region('A').width(), 2);
    assert_eq!(font.region('B').width(), 1);
    assert_eq!(font.region('A').height(), 8);
}

#[test]
fn uncovered_characters_get_the_blank_region() {
    let font = BitmapFont::new(&row("|..|"), &chars("xyz"), 4);
    assert_eq!(font.region('x'), TextureRegion::new(1, 0, 3, 4));
    // only one pair of separators: 'y' and 'z' get nothing
    assert_eq!(font.region('y'), TextureRegion::new(0, 0, 1, 1));
    assert_eq!(font.region('z'), TextureRegion::new(0, 0, 1, 1));
    assert_eq!(font.region('\u{ff}'), TextureRegion::new(0, 0, 1, 1));
}

#[test]
fn no_separators_means_no_glyphs() {
    let font = BitmapFont::new(&row("......"), &chars("ab"), 4);
    for c in ['a', 'b', '\0'] {
        assert_eq!(font.region(c), TextureRegion::new(0, 0, 1, 1));
    }
    let font = BitmapFont::new(&row(""), &chars(""), 0);
    assert_eq!(font.region('a'), TextureRegion::new(0, 0, 1, 1));
}

#[test]
fn later_glyph_for_the_same_character_wins() {
    let font = BitmapFont::new(&row("|.|..|"), &chars("qq"), 2);
    assert_eq!(font.region('q'), TextureRegion::new(3, 0, 5, 2));
}

#[test]
fn table_covers_every_byte_value() {
    assert_eq!(GLYPH_TABLE_SIZE, 256);
    let font = BitmapFont::new(&row("|.|"), &chars("\u{ff}"), 3);
    assert_eq!(font.region('\u{ff}'), TextureRegion::new(1, 0, 2, 3));
}

#[test]
fn layout_advances_by_width_plus_one() {
    // widths: a = 2, b = 1, c = 3
    let font = BitmapFont::new(&row("|..|.|...|"), &chars("abc"), 8);
    let glyphs = font.layout(&chars("abca"));
    assert_eq!(
        glyphs,
        vec![
            Glyph { ch: 'a', x: 0, width: 2 },
            Glyph { ch: 'b', x: 3, width: 1 },
            Glyph { ch: 'c', x: 5, width: 3 },
            Glyph { ch: 'a', x: 9, width: 2 },
        ]
    );
    assert!(font.layout(&chars("")).is_empty());
    // an uncovered character is one pixel wide
    let glyphs = font.layout(&chars("?a"));
    assert_eq!(glyphs[1].x, 2);
}

#[derive(Copy, Clone, Debug, Default, PartialEq)]
struct GlyphSprite {
    x: f32,
    scale_x: f32,
    scale_y: f32,
}

#[test]
fn printing_eight_characters_is_one_draw_call() {
    // eight glyphs of widths 1..=8
    let mut pattern = String::from("|");
    for w in 1..=8 {
        pattern.push_str(&".".repeat(w));
        pattern.push('|');
    }
    let font = BitmapFont::new(&row(&pattern), &chars("abcdefgh"), 7);
    let inst: Instancer<GlyphSprite> = Instancer::new(50);
    let mut s = inst.bind(&());
    for g in font.layout(&chars("hgfedcba")) {
        let sp = s.pull_default();
        sp.x = g.x as f32;
        sp.scale_x = g.width as f32;
        sp.scale_y = font.height() as f32;
    }
    let (_, calls) = s.end();
    assert_eq!(calls.len(), 1);
    assert_eq!(calls[0].count(), 8);
    let xs: Vec<f32> = calls[0].instances.iter().map(|sp| sp.x).collect();
    // widths 8, 7, ..., 1, each followed by one pixel of spacing
    assert_eq!(xs, vec![0.0, 9.0, 17.0, 24.0, 30.0, 35.0, 39.0, 42.0]);
    assert!(calls[0].instances.iter().all(|sp| sp.scale_y == 7.0));
}

#[test]
fn reorient_orders_the_corners() {
    let mut r = TextureRegion::new(5, 9, 2, 3);
    r.reorient();
    assert_eq!(r, TextureRegion::new(2, 3, 5, 9));
    let mut r = TextureRegion::new(1, 7, 4, -2);
    r.reorient();
    assert_eq!(r, TextureRegion::new(1, -2, 4, 7));
    r.reorient();
    assert_eq!(r, TextureRegion::new(1, -2, 4, 7));
}

#[test]
fn displace_moves_both_corners() {
    let mut r = TextureRegion::new(1, 2, 3, 4);
    r.displace(10, -5);
    assert_eq!(r, TextureRegion::new(11, -3, 13, -1));
    assert_eq!(r.width(), 2);
    assert_eq!(r.height(), 2);
}

use vstd::prelude::*;

use crate::region::TextureRegion;

verus! {

/// Number of entries in a font's glyph table: one per character below 256.
pub const GLYPH_TABLE_SIZE: usize = 256;

/// One glyph placed on a line of text: `x` is where its left edge goes.
#[derive(Clone, Copy, Debug, PartialEq, Eq, Structural)]
pub struct Glyph {
    pub ch: char,
    pub x: i64,
    pub width: i32,
}

/// Region given to characters that the alphabet does not cover.
pub open spec fn blank_region() -> TextureRegion {
    TextureRegion { x1: 0, y1: 0, x2: 1, y2: 1 }
}

/// Columns of the top pixel row that are marked as glyph separators.
pub open spec fn break_columns(row: Seq<bool>) -> Seq<int>
    decreases row.len(),
{
    if row.len() == 0 {
        Seq::empty()
    } else if row.last() {
        break_columns(row.drop_last()).push(row.len() - 1)
    } else {
        break_columns(row.drop_last())
    }
}

/// Number of glyphs: one per pair of neighbouring separators, as far as the
/// alphabet goes.
pub open spec fn glyph_count(breaks: Seq<int>, alphabet: Seq<char>) -> int {
    if breaks.len() == 0 {
        0
    } else if breaks.len() - 1 <= alphabet.len() {
        breaks.len() - 1
    } else {
        alphabet.len() as int
    }
}

/// The `k`-th glyph spans the columns strictly after the `k`-th separator up to
/// the next one, over the whole height.
pub open spec fn glyph_region(breaks: Seq<int>, k: int, height: i32) -> TextureRegion {
    TextureRegion {
        x1: (breaks[k] + 1) as i32,
        y1: 0,
        x2: breaks[k + 1] as i32,
        y2: height,
    }
}

/// The glyph table after the first `n` glyphs were entered; a later glyph for
/// the same character replaces an earlier one.
pub open spec fn glyph_table(breaks: Seq<int>, alphabet: Seq<char>, height: i32, n: int) -> Seq<
    TextureRegion,
>
    decreases n,
{
    if n <= 0 {
        Seq::new(GLYPH_TABLE_SIZE as nat, |i: int| blank_region())
    } else {
        glyph_table(breaks, alphabet, height, n - 1).update(
            alphabet[n - 1] as int,
            glyph_region(breaks, n - 1, height),
        )
    }
}

/// Whether every glyph that gets a region has a table entry.
pub open spec fn alphabet_fits(top_row: Seq<bool>, alphabet: Seq<char>) -> bool {
    forall|k: int|
        0 <= k < glyph_count(break_columns(top_row), alphabet) ==> (#[trigger] alphabet[k] as int)
            < GLYPH_TABLE_SIZE
}

/// Sum of the advances (width plus one pixel of spacing) of the first `n`
/// characters of `text`, looked up in `table`.
pub open spec fn pen_x(table: Seq<TextureRegion>, text: Seq<char>, n: int) -> int
    decreases n,
{
    if n <= 0 {
        0
    } else {
        pen_x(table, text, n - 1) + (table[text[n - 1] as int].x2 - table[text[n - 1] as int].x1)
            + 1
    }
}

/// A fixed-width table of glyph regions, indexed by character.
pub struct BitmapFont {
    regions: Vec<TextureRegion>,
    height: i32,
}

proof fn lemma_break_columns_bounds(row: Seq<bool>)
    ensures
        forall|i: int|
            0 <= i < break_columns(row).len() ==> 0 <= #[trigger] break_columns(row)[i] < row.len(),
        forall|i: int, j: int|
            0 <= i < j < break_columns(row).len() ==> #[trigger] break_columns(row)[i]
                < #[trigger] break_columns(row)[j],
        break_columns(row).len() <= row.len(),
    decreases row.len(),
{
    if row.len() > 0 {
        lemma_break_columns_bounds(row.drop_last());
    }
}

/// The code point of `ch`.
fn code_of(ch: char) -> (r: u32)
    ensures
        r as int == ch as int,
{
    assert(0 <= ch as int <= 0x10FFFF);
    ch as u32
}

impl BitmapFont {
    /// The glyph table, indexed by character.
    pub closed spec fn table(&self) -> Seq<TextureRegion> {
        self.regions@
    }

    pub closed spec fn spec_height(&self) -> i32 {
        self.height
    }

    /// Every entry starts at a column `>= 0` and ends no further left.
    pub open spec fn wf(&self) -> bool {
        &&& self.table().len() == GLYPH_TABLE_SIZE
        &&& forall|i: int|
            0 <= i < GLYPH_TABLE_SIZE ==> 0 <= #[trigger] self.table()[i].x1
                <= self.table()[i].x2
    }

    /// Builds the glyph table of a font image. `top_row[x]` tells whether the
    /// pixel in column `x` of the top row has the separator colour; the columns
    /// between two neighbouring separators hold the next character of
    /// `alphabet`, over the image's `height`. Characters that get no glyph map
    /// to a one-pixel region at the origin.
    pub fn new(top_row: &Vec<bool>, alphabet: &Vec<char>, height: i32) -> (r: Self)
        requires
            top_row@.len() <= i32::MAX,
            alphabet_fits(top_row@, alphabet@),
        ensures
            r.wf(),
            r.spec_height() == height,
            r.table() == glyph_table(
                break_columns(top_row@),
                alphabet@,
                height,
                glyph_count(break_columns(top_row@), alphabet@),
            ),
    {
        let ghost bc = break_columns(top_row@);
        let mut breaks: Vec<u32> = Vec::new();
        let mut x: usize = 0;
        while x < top_row.len()
            invariant
                x <= top_row@.len() <= i32::MAX,
                breaks@.len() == break_columns(top_row@.subrange(0, x as int)).len(),
                forall|i: int|
                    0 <= i < breaks@.len() ==> #[trigger] breaks@[i] as int == break_columns(
                        top_row@.subrange(0, x as int),
                    )[i],
            decreases top_row@.len() - x,
        {
            assert(top_row@.subrange(0, x + 1).drop_last() =~= top_row@.subrange(0, x as int));
            if top_row[x] {
                breaks.push(x as u32);
            }
            x = x + 1;
        }
        assert(top_row@.subrange(0, x as int) =~= top_row@);
        proof {
            lemma_break_columns_bounds(top_row@);
        }
        let mut regions: Vec<TextureRegion> = Vec::new();
        let mut i: usize = 0;
        while i < GLYPH_TABLE_SIZE
            invariant
                i <= GLYPH_TABLE_SIZE,
                regions@ =~= Seq::new(i as nat, |j: int| blank_region()),
            decreases GLYPH_TABLE_SIZE - i,
        {
            regions.push(TextureRegion::new(0, 0, 1, 1));
            i = i + 1;
        }
        let count: usize = if breaks.len() == 0 {
            0
        } else if breaks.len() - 1 <= alphabet.len() {
            breaks.len() - 1
        } else {
            alphabet.len()
        };
        assert(count == glyph_count(bc, alphabet@));
        let mut k: usize = 0;
        while k < count
            invariant
                k <= count,
                count == glyph_count(bc, alphabet@),
                count < breaks@.len() || count == 0,
                count <= alphabet@.len(),
                bc == break_columns(top_row@),
                alphabet_fits(top_row@, alphabet@),
                breaks@.len() == bc.len(),
                forall|i: int| 0 <= i < breaks@.len() ==> #[trigger] breaks@[i] as int == bc[i],
                forall|i: int| 0 <= i < bc.len() ==> 0 <= #[trigger] bc[i] < top_row@.len(),
                top_row@.len() <= i32::MAX,
                forall|i: int, j: int| 0 <= i < j < bc.len() ==> #[trigger] bc[i] < #[trigger] bc[j],
                regions@ == glyph_table(bc, alphabet@, height, k as int),
                regions@.len() == GLYPH_TABLE_SIZE,
                forall|i: int|
                    0 <= i < GLYPH_TABLE_SIZE ==> 0 <= #[trigger] regions@[i].x1 <= regions@[i].x2,
            decreases count - k,
        {
            let ch = alphabet[k];
            assert((alphabet@[k as int] as int) < GLYPH_TABLE_SIZE);
            let slot = code_of(ch) as usize;
            assert(bc[k as int] < bc[k + 1]);
            let region = TextureRegion::new((breaks[k] + 1) as i32, 0, breaks[k + 1] as i32, height);
            regions.set(slot, region);
            k = k + 1;
        }
        BitmapFont { regions, height }
    }

    /// Height of the font image, which every glyph spans.
    pub fn height(&self) -> (r: i32)
        ensures
            r == self.spec_height(),
    {
        self.height
    }

    /// The region of `ch` in the font image.
    pub fn region(&self, ch: char) -> (r: TextureRegion)
        requires
            self.wf(),
            (ch as int) < GLYPH_TABLE_SIZE,
        ensures
            r == self.table()[ch as int],
    {
        self.regions[code_of(ch) as usize]
    }

    /// Places `text` on one line: each glyph starts where the previous one
    /// ended, one pixel further on, and the first starts at 0.
    pub fn layout(&self, text: &Vec<char>) -> (r: Vec<Glyph>)
        requires
            self.wf(),
            text@.len() <= i32::MAX,
            forall|i: int| 0 <= i < text@.len() ==> (#[trigger] text@[i] as int) < GLYPH_TABLE_SIZE,
        ensures
            r@.len() == text@.len(),
            forall|i: int|
                0 <= i < text@.len() ==> {
                    &&& (#[trigger] r@[i]).ch == text@[i]
                    &&& r@[i].x == pen_x(self.table(), text@, i)
                    &&& r@[i].width == self.table()[text@[i] as int].x2 - self.table()[text@[
                        i
                    ] as int].x1
                },
    {
        let mut out: Vec<Glyph> = Vec::with_capacity(text.len());
        let mut x: i64 = 0;
        let mut i: usize = 0;
        while i < text.len()
            invariant
                self.wf(),
                i <= text@.len() <= i32::MAX,
                forall|j: int| 0 <= j < text@.len() ==> (#[trigger] text@[j] as int) < GLYPH_TABLE_SIZE,
                x == pen_x(self.table(), text@, i as int),
                0 <= x <= i * 0x8000_0000,
                out@.len() == i,
                forall|j: int|
                    0 <= j < i ==> {
                        &&& (#[trigger] out@[j]).ch == text@[j]
                        &&& out@[j].x == pen_x(self.table(), text@, j)
                        &&& out@[j].width == self.table()[text@[j] as int].x2 - self.table()[text@[
                            j
                        ] as int].x1
                    },
            decreases text@.len() - i,
        {
            let ch = text[i];
            let region = self.regions[code_of(ch) as usize];
            let w = region.width();
            out.push(Glyph { ch, x, width: w });
            x = x + w as i64 + 1;
            i = i + 1;
        }
        out
    }
}

} // verus!

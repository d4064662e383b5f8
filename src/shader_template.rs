use vstd::prelude::*;

use vstd::string::StringSliceAdditionalSpecFns;
use vstd::utf8::{
    encode_utf8_valid_utf8, is_char_boundary, is_char_boundary_iff_not_is_continuation_byte,
    valid_utf8,
};

verus! {

/// The byte that marks where a template's replaceable middle begins and ends (`@`).
pub const MARKER: u8 = 0x40;

/// Index of the first marker in `b` at or after `from`, or `b.len()` when
/// there is none.
pub open spec fn next_marker(b: Seq<u8>, from: int) -> int
    decreases b.len() - from,
{
    if from < 0 || from >= b.len() {
        b.len() as int
    } else if b[from] == MARKER {
        from
    } else {
        next_marker(b, from + 1)
    }
}

/// Index of the first marker of `b`.
pub open spec fn first_marker(b: Seq<u8>) -> int {
    next_marker(b, 0)
}

/// Index of the second marker of `b`.
pub open spec fn second_marker(b: Seq<u8>) -> int {
    next_marker(b, first_marker(b) + 1)
}

/// Whether `b` holds exactly two markers, so that it splits into three parts.
pub open spec fn has_two_markers(b: Seq<u8>) -> bool {
    &&& first_marker(b) < b.len()
    &&& second_marker(b) < b.len()
    &&& next_marker(b, second_marker(b) + 1) == b.len()
}

proof fn lemma_next_marker_bounds(b: Seq<u8>, from: int)
    requires
        0 <= from <= b.len(),
    ensures
        from <= next_marker(b, from) <= b.len(),
        next_marker(b, from) < b.len() ==> b[next_marker(b, from)] == MARKER,
    decreases b.len() - from,
{
    if from < b.len() && b[from] != MARKER {
        lemma_next_marker_bounds(b, from + 1);
    }
}

/// A marker is a one-byte character, so the positions just before and just
/// after it are character boundaries.
proof fn lemma_marker_boundaries(s: &str, i: int)
    requires
        0 <= i < s.spec_bytes().len(),
        s.spec_bytes()[i] == MARKER,
    ensures
        is_char_boundary(s.spec_bytes(), i),
{
    encode_utf8_valid_utf8(s@);
    is_char_boundary_iff_not_is_continuation_byte(s.spec_bytes(), i);
}

proof fn lemma_after_leading_marker(s: &str)
    requires
        s.spec_bytes().len() >= 1,
        s.spec_bytes()[0] == MARKER,
    ensures
        is_char_boundary(s.spec_bytes(), 1),
{
    encode_utf8_valid_utf8(s@);
    reveal_with_fuel(is_char_boundary, 2);
    assert(valid_utf8(s.spec_bytes()));
    let rest = s.spec_bytes().subrange(1, s.spec_bytes().len() as int);
    assert(valid_utf8(rest));
}

/// Index of the first marker in `b` at or after `from`, or `b.len()`.
fn find_marker(b: &[u8], from: usize) -> (r: usize)
    requires
        from <= b@.len(),
    ensures
        r == next_marker(b@, from as int),
{
    let mut k = from;
    while k < b.len() && b[k] != MARKER
        invariant
            from <= k <= b@.len(),
            next_marker(b@, from as int) == next_marker(b@, k as int),
        decreases b@.len() - k,
    {
        k = k + 1;
    }
    k
}

/// Splits a shader template at its two markers into the part before the
/// first, the part between them and the part after the second. When an
/// `effect` is given it takes the place of the middle part.
pub fn parse_shader_template<'a: 'b, 'b>(template: &'a str, effect: Option<&'b str>) -> (r: Vec<
    &'b str,
>)
    requires
        has_two_markers(template.spec_bytes()),
    ensures
        r@.len() == 3,
        r@[0].spec_bytes() == template.spec_bytes().subrange(0, first_marker(template.spec_bytes())),
        r@[2].spec_bytes() == template.spec_bytes().subrange(
            second_marker(template.spec_bytes()) + 1,
            template.spec_bytes().len() as int,
        ),
        effect is Some ==> r@[1] == effect->0,
        effect is None ==> r@[1].spec_bytes() == template.spec_bytes().subrange(
            first_marker(template.spec_bytes()) + 1,
            second_marker(template.spec_bytes()),
        ),
{
    let ghost b = template.spec_bytes();
    let bytes = template.as_bytes();
    let i = find_marker(bytes, 0);
    proof {
        lemma_next_marker_bounds(b, 0);
    }
    let n = bytes.len();
    assert(i < n);
    let j = find_marker(bytes, i + 1);
    proof {
        lemma_next_marker_bounds(b, i + 1);
        lemma_marker_boundaries(template, i as int);
    }
    let (head, rest) = template.split_at(i);
    proof {
        lemma_after_leading_marker(rest);
    }
    let (_, rest) = rest.split_at(1);
    proof {
        assert(rest.spec_bytes()[(j - i - 1) as int] == b[j as int]);
        lemma_marker_boundaries(rest, (j - i - 1) as int);
    }
    let (middle, tail) = rest.split_at(j - i - 1);
    proof {
        lemma_after_leading_marker(tail);
    }
    let (_, tail) = tail.split_at(1);
    assert(middle.spec_bytes() =~= b.subrange(i + 1, j as int));
    assert(tail.spec_bytes() =~= b.subrange(j + 1, b.len() as int));
    let mut r: Vec<&'b str> = Vec::new();
    r.push(head);
    match effect {
        Some(e) => r.push(e),
        None => r.push(middle),
    }
    r.push(tail);
    r
}

} // verus!

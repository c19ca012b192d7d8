//! Display width of characters and strings in terminal cells.

use vstd::prelude::*;

verus! {

/// The display width of a character in terminal columns, or `None` for a
/// control character, as the `unicode-width` tables define it. The value
/// depends on the character alone.
pub uninterp spec fn char_width_of(c: char) -> Option<usize>;

/// Relies on `unicode_width::UnicodeWidthChar::width`: the width of one
/// character per UAX #11, `None` for control characters, `Some(1)` for
/// printable ASCII, and always at most 255 (the tables hold bytes).
#[verifier::external_body]
fn char_width_raw(c: char) -> (r: Option<usize>)
    ensures
        r == char_width_of(c),
        (' ' <= c && c <= '~') ==> r == Option::Some(1usize),
        r matches Option::Some(w) ==> w <= 255,
{
    unicode_width::UnicodeWidthChar::width(c)
}

/// The width a glyph occupies when written to the cell grid: its display
/// width, with control characters counting as zero.
pub open spec fn spec_glyph_width(c: char) -> int {
    match char_width_of(c) {
        Option::Some(w) => w as int,
        Option::None => 0,
    }
}

/// Computes `spec_glyph_width`.
pub fn glyph_width(c: char) -> (r: usize)
    ensures
        r == spec_glyph_width(c),
        r <= 255,
        (' ' <= c && c <= '~') ==> r == 1,
{
    match char_width_raw(c) {
        Option::Some(w) => w,
        Option::None => 0,
    }
}

/// The display width of a character sequence: the sum of its glyph
/// widths.
pub open spec fn spec_text_width(s: Seq<char>) -> int
    decreases s.len(),
{
    if s.len() == 0 {
        0
    } else {
        spec_text_width(s.drop_last()) + spec_glyph_width(s.last())
    }
}

pub proof fn lemma_text_width_nonneg(s: Seq<char>)
    ensures
        0 <= spec_text_width(s),
    decreases s.len(),
{
    if s.len() > 0 {
        lemma_text_width_nonneg(s.drop_last());
    }
}

/// The display width of a string in terminal cells: ASCII counts one cell
/// per character, full-width characters two, combining marks zero. The
/// sum saturates at `usize::MAX`.
pub fn text_width(s: &str) -> (r: usize)
    ensures
        r == min_width(spec_text_width(s@)),
{
    let len = s.unicode_len();
    let mut acc: usize = 0;
    let mut i: usize = 0;
    while i < len
        invariant
            len == s@.len(),
            i <= len,
            acc == min_width(spec_text_width(s@.subrange(0, i as int))),
        decreases len - i,
    {
        let w = glyph_width(s.get_char(i));
        proof {
            let pre = s@.subrange(0, i as int + 1);
            assert(pre.drop_last() =~= s@.subrange(0, i as int));
            assert(pre.last() == s@[i as int]);
            lemma_text_width_nonneg(s@.subrange(0, i as int));
        }
        acc = if acc <= usize::MAX - w {
            acc + w
        } else {
            usize::MAX
        };
        i = i + 1;
    }
    proof {
        assert(s@.subrange(0, s@.len() as int) =~= s@);
    }
    acc
}

/// A width capped at what `usize` can carry.
pub open spec fn min_width(w: int) -> int {
    if w <= usize::MAX {
        w
    } else {
        usize::MAX as int
    }
}

/// The longest prefix whose display width fits in `w` columns: glyphs
/// are taken while they fit; the first glyph that does not ends the
/// prefix.
pub open spec fn spec_take_width(s: Seq<char>, w: int) -> Seq<char>
    decreases s.len(),
{
    if s.len() == 0 {
        Seq::empty()
    } else {
        let gw = spec_glyph_width(s[0]);
        if gw > w {
            Seq::empty()
        } else {
            seq![s[0]] + spec_take_width(s.skip(1), w - gw)
        }
    }
}

/// Truncates a character sequence to the glyphs that fit in `w`
/// columns.
pub fn take_width(s: &Vec<char>, w: u16) -> (r: Vec<char>)
    ensures
        r@ == spec_take_width(s@, w as int),
        r@.len() <= s@.len(),
{
    let mut out: Vec<char> = Vec::new();
    let mut left: u16 = w;
    let mut i: usize = 0;
    proof {
        assert(s@.skip(0) =~= s@);
        assert(Seq::<char>::empty() + spec_take_width(s@, w as int) =~= spec_take_width(
            s@,
            w as int,
        ));
    }
    while i < s.len()
        invariant
            i <= s@.len(),
            left <= w,
            out@.len() <= i,
            spec_take_width(s@, w as int) == out@ + spec_take_width(s@.skip(i as int), left as int),
        decreases s@.len() - i,
    {
        let c = s[i];
        let gw = glyph_width(c);
        proof {
            assert(s@.skip(i as int)[0] == s@[i as int]);
            assert(s@.skip(i as int).skip(1) =~= s@.skip(i as int + 1));
        }
        if gw > left as usize {
            proof {
                assert(spec_take_width(s@.skip(i as int), left as int) =~= Seq::<char>::empty());
                assert(spec_take_width(s@, w as int) =~= out@);
            }
            return out;
        }
        out.push(c);
        left = left - gw as u16;
        proof {
            assert(out@ + spec_take_width(s@.skip(i as int + 1), left as int) =~= out@.drop_last()
                + (seq![s@[i as int]] + spec_take_width(s@.skip(i as int + 1), left as int)));
        }
        i = i + 1;
    }
    proof {
        assert(s@.skip(s@.len() as int) =~= Seq::<char>::empty());
        assert(spec_take_width(s@, w as int) =~= out@);
    }
    out
}

/// A truncated prefix fits the columns it was cut for.
pub proof fn lemma_take_width_bound(s: Seq<char>, w: int)
    requires
        0 <= w,
    ensures
        spec_text_width(spec_take_width(s, w)) <= w,
    decreases s.len(),
{
    if s.len() > 0 {
        let gw = spec_glyph_width(s[0]);
        if gw <= w {
            lemma_take_width_bound(s.skip(1), w - gw);
            lemma_text_width_front(seq![s[0]] + spec_take_width(s.skip(1), w - gw));
            assert((seq![s[0]] + spec_take_width(s.skip(1), w - gw)).skip(1) =~= spec_take_width(
                s.skip(1),
                w - gw,
            ));
        }
    }
}

/// The width of a sequence is its first glyph's width plus the rest's.
pub proof fn lemma_text_width_front(s: Seq<char>)
    requires
        s.len() > 0,
    ensures
        spec_text_width(s) == spec_glyph_width(s[0]) + spec_text_width(s.skip(1)),
    decreases s.len(),
{
    if s.len() == 1 {
        assert(s.drop_last() =~= Seq::<char>::empty());
        assert(s.skip(1) =~= Seq::<char>::empty());
    } else {
        lemma_text_width_front(s.drop_last());
        assert(s.drop_last()[0] == s[0]);
        assert(s.drop_last().skip(1) =~= s.skip(1).drop_last());
        assert(s.skip(1).last() == s.last());
    }
}

/// The suffix left after scrolling `w` columns off the front: glyphs
/// are dropped until `w` columns are consumed (a glyph straddling the
/// boundary is dropped whole).
pub open spec fn spec_drop_width(s: Seq<char>, w: int) -> Seq<char>
    decreases s.len(),
{
    if s.len() == 0 || w <= 0 {
        s
    } else {
        spec_drop_width(s.skip(1), w - spec_glyph_width(s[0]))
    }
}

/// Drops the glyphs covering the first `w` columns.
pub fn drop_width(s: &Vec<char>, w: u16) -> (r: Vec<char>)
    ensures
        r@ == spec_drop_width(s@, w as int),
{
    let mut left: u16 = w;
    let mut i: usize = 0;
    proof {
        assert(s@.skip(0) =~= s@);
    }
    while i < s.len() && left > 0
        invariant
            i <= s@.len(),
            spec_drop_width(s@, w as int) == spec_drop_width(s@.skip(i as int), left as int),
        decreases s@.len() - i,
    {
        let gw = glyph_width(s[i]);
        proof {
            assert(s@.skip(i as int)[0] == s@[i as int]);
            assert(s@.skip(i as int).skip(1) =~= s@.skip(i as int + 1));
        }
        if gw >= left as usize {
            proof {
                assert(spec_drop_width(s@.skip(i as int + 1), left as int - gw as int) =~= s@.skip(
                    i as int + 1,
                ));
                assert(spec_drop_width(s@.skip(i as int + 1), 0) =~= s@.skip(i as int + 1));
            }
            left = 0;
        } else {
            left = left - gw as u16;
        }
        i = i + 1;
    }
    let mut out: Vec<char> = Vec::new();
    let mut j: usize = i;
    while j < s.len()
        invariant
            i <= j <= s@.len(),
            out@ == s@.subrange(i as int, j as int),
        decreases s@.len() - j,
    {
        out.push(s[j]);
        proof {
            assert(s@.subrange(i as int, j as int + 1) =~= s@.subrange(i as int, j as int).push(
                s@[j as int],
            ));
        }
        j = j + 1;
    }
    proof {
        assert(out@ =~= s@.skip(i as int));
    }
    out
}

/// The characters of a string, in order.
pub fn str_chars(s: &str) -> (r: Vec<char>)
    ensures
        r@ == s@,
{
    let len = s.unicode_len();
    let mut out: Vec<char> = Vec::new();
    let mut i: usize = 0;
    while i < len
        invariant
            len == s@.len(),
            i <= len,
            out@ == s@.subrange(0, i as int),
        decreases len - i,
    {
        out.push(s.get_char(i));
        proof {
            assert(s@.subrange(0, i as int + 1) =~= s@.subrange(0, i as int).push(s@[i as int]));
        }
        i = i + 1;
    }
    proof {
        assert(s@.subrange(0, s@.len() as int) =~= s@);
    }
    out
}

} // verus!

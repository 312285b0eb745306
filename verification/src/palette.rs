//! Palettes and the glyph mapper.
//!
//! A palette is an ordered table of display symbols running from "escaped
//! quickly" to "presumed interior"; the last entry is the interior symbol.
//! `shade` maps an escape count to a palette entry by rounding the
//! normalized count to the nearest palette index.

use vstd::prelude::*;

use crate::text::str_eq;

verus! {

/// The palette tables the library ships.
#[derive(Clone, Copy, PartialEq, Eq, Structural, Debug)]
pub enum PaletteKind {
    Symbols,
    Numbers,
    Emoji,
}

/// The character table of each palette, low escape count first, interior
/// symbol last.
pub open spec fn palette_spec(kind: PaletteKind) -> Seq<char> {
    match kind {
        PaletteKind::Symbols => seq![' ', '.', ':', '-', '=', '+', '*', '#', '%', '@'],
        PaletteKind::Numbers => seq![' ', '1', '2', '3', '4', '5', '6', '7', '8', '9'],
        PaletteKind::Emoji => seq![' ', '\u{b7}', '\u{2022}', '\u{25aa}', '\u{25fe}', '\u{25fc}', '\u{2b1b}', '\u{1f7ea}', '\u{1f7e6}', '\u{1f7e9}'],
    }
}

/// Returns the character table of a palette.
pub fn palette_chars(kind: PaletteKind) -> (pal: Vec<char>)
    ensures
        pal@ == palette_spec(kind),
        pal@.len() == 10,
{
    let mut pal: Vec<char> = Vec::new();
    match kind {
        PaletteKind::Symbols => {
            pal.push(' ');
            pal.push('.');
            pal.push(':');
            pal.push('-');
            pal.push('=');
            pal.push('+');
            pal.push('*');
            pal.push('#');
            pal.push('%');
            pal.push('@');
        },
        PaletteKind::Numbers => {
            pal.push(' ');
            pal.push('1');
            pal.push('2');
            pal.push('3');
            pal.push('4');
            pal.push('5');
            pal.push('6');
            pal.push('7');
            pal.push('8');
            pal.push('9');
        },
        PaletteKind::Emoji => {
            pal.push(' ');
            pal.push('\u{b7}');
            pal.push('\u{2022}');
            pal.push('\u{25aa}');
            pal.push('\u{25fe}');
            pal.push('\u{25fc}');
            pal.push('\u{2b1b}');
            pal.push('\u{1f7ea}');
            pal.push('\u{1f7e6}');
            pal.push('\u{1f7e9}');
        },
    }
    assert(pal@ =~= palette_spec(kind));
    pal
}

/// The palette selected by a configuration name; unknown names fall back
/// to the symbol palette.
pub open spec fn palette_kind_of_name(name: Seq<char>) -> PaletteKind {
    if name == "numbers"@ || name == "nums"@ {
        PaletteKind::Numbers
    } else if name == "emoji"@ {
        PaletteKind::Emoji
    } else {
        PaletteKind::Symbols
    }
}

/// Looks a palette up by its configuration name; unknown names fall back
/// to the symbol palette.
pub fn palette_from_name(name: &str) -> (pal: Vec<char>)
    ensures
        pal@ == palette_spec(palette_kind_of_name(name@)),
        pal@.len() == 10,
{
    if str_eq(name, "numbers") || str_eq(name, "nums") {
        palette_chars(PaletteKind::Numbers)
    } else if str_eq(name, "emoji") {
        palette_chars(PaletteKind::Emoji)
    } else {
        palette_chars(PaletteKind::Symbols)
    }
}

/// The palette index chosen for an escape count: the interior (last) index
/// when the count reached the bound, otherwise the count normalized by the
/// bound, rounded to the nearest index and clamped.
pub open spec fn shade_index_spec(count: nat, bound: nat, plen: nat) -> nat
    recommends
        bound >= 1,
        plen >= 2,
{
    if count >= bound {
        (plen - 1) as nat
    } else {
        let idx = (2 * count * (plen - 1) + bound) / (2 * bound as int);
        if idx > plen - 1 {
            (plen - 1) as nat
        } else {
            idx as nat
        }
    }
}

/// The glyph shown for an escape count.
pub open spec fn shade_spec(count: nat, bound: nat, pal: Seq<char>) -> char
    recommends
        bound >= 1,
        pal.len() >= 2,
{
    pal[shade_index_spec(count, bound, pal.len()) as int]
}

/// Maps an escape count to a palette glyph: the interior symbol once the
/// count reaches the bound, otherwise the entry nearest to the normalized
/// count.  The bounds on `bound` and the palette length keep the scaled
/// index arithmetic inside `u128`.
pub fn shade(count: usize, bound: usize, pal: &Vec<char>) -> (glyph: char)
    requires
        1 <= bound <= 0xFFFF_FFFF,
        2 <= pal.len() <= 0xFFFF_FFFF,
    ensures
        glyph == shade_spec(count as nat, bound as nat, pal@),
        count >= bound ==> glyph == pal@[pal@.len() - 1],
{
    if count >= bound {
        pal[pal.len() - 1]
    } else {
        proof {
            assert((2 * (count as int)) * ((pal@.len() - 1) as int) <= 0x1_FFFF_FFFE
                * 0xFFFF_FFFF) by (nonlinear_arith)
                requires
                    0 <= count <= 0xFFFF_FFFF,
                    0 <= pal@.len() - 1 <= 0xFFFF_FFFF,
            ;
        }
        let num: u128 = 2 * (count as u128) * ((pal.len() - 1) as u128) + (bound as u128);
        let den: u128 = 2 * (bound as u128);
        let idx128: u128 = num / den;
        proof {
            lemma_shade_index_in_table(count as nat, bound as nat, pal@.len());
        }
        let idx: usize = idx128 as usize;
        let idx = if idx > pal.len() - 1 {
            pal.len() - 1
        } else {
            idx
        };
        pal[idx]
    }
}

/// The rounded index stays inside the palette table.
pub proof fn lemma_shade_index_in_table(count: nat, bound: nat, plen: nat)
    requires
        1 <= bound,
        2 <= plen,
        count < bound,
    ensures
        (2 * count * (plen - 1) + bound) / (2 * bound as int) <= plen - 1,
        shade_index_spec(count, bound, plen) == (2 * count * (plen - 1) + bound) / (2 * bound
            as int),
{
    let num = 2 * count * (plen - 1) + bound;
    assert(num < (2 * bound) * plen) by (nonlinear_arith)
        requires
            1 <= bound,
            2 <= plen,
            count < bound,
            num == 2 * count * (plen - 1) + bound,
    ;
    vstd::arithmetic::div_mod::lemma_multiply_divide_lt(num as int, (2 * bound) as int, plen as int);
    vstd::arithmetic::div_mod::lemma_div_pos_is_pos(num as int, (2 * bound) as int);
}

/// The glyph mapping is monotonic: a larger escape count never selects an
/// earlier palette entry.
pub proof fn lemma_shade_monotonic(c1: nat, c2: nat, bound: nat, plen: nat)
    requires
        1 <= bound,
        2 <= plen,
        c1 <= c2,
    ensures
        shade_index_spec(c1, bound, plen) <= shade_index_spec(c2, bound, plen),
{
    if c1 >= bound {
        // Both counts select the interior index.
    } else if c2 >= bound {
        lemma_shade_index_in_table(c1, bound, plen);
    } else {
        lemma_shade_index_in_table(c1, bound, plen);
        lemma_shade_index_in_table(c2, bound, plen);
        let n1 = 2 * c1 * (plen - 1) + bound;
        let n2 = 2 * c2 * (plen - 1) + bound;
        assert(n1 <= n2) by (nonlinear_arith)
            requires
                c1 <= c2,
                2 <= plen,
                n1 == 2 * c1 * (plen - 1) + bound,
                n2 == 2 * c2 * (plen - 1) + bound,
        ;
        vstd::arithmetic::div_mod::lemma_div_is_ordered(n1 as int, n2 as int, (2 * bound) as int);
    }
}

} // verus!

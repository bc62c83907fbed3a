//! The render pass: composing one ANSI-colored output line per blame line,
//! and the whole pass over the three inputs.
//!
//! Each output line is a left border glyph, a true-color foreground escape
//! with the palette's foreground, a true-color background escape with the
//! line's resolved gradient color, the `change:hash` badge (just `hash`
//! when the change identifier is empty), a space, the right-justified
//! 1-based line number, a reset escape, a right border glyph, and the
//! pretty-printed listing line.

use crate::color::{gradient_color, get_grad, lemma_gradient_last_is_end, Rgb};
use crate::numtext::{dec_seq, decimal_string, digit_width, format_line_number, padded_dec_seq, spec_digit_width};
use crate::palette::{palette_entry, spec_palette, Palette};
use crate::revindex::{build_rev_index, lemma_rev_map_len, resolve_rank, rev_map, spec_resolve_rank};
use crate::text::{spec_change_part, spec_hash_part, split_blame_line};
use vstd::prelude::*;

verus! {

/// The badge of a blame record: `change:hash`, or `hash` alone when the
/// change identifier is empty.
pub open spec fn spec_badge(change: Seq<char>, hash: Seq<char>) -> Seq<char> {
    if change.len() == 0 {
        hash
    } else {
        change + ":"@ + hash
    }
}

/// One composed output line.
pub open spec fn spec_rendered_line(
    fore: Rgb,
    back: Rgb,
    change: Seq<char>,
    hash: Seq<char>,
    line_no: nat,
    width: nat,
    text: Seq<char>,
) -> Seq<char> {
    "\u{2502}\x1b[38;2;"@ + dec_seq(fore.r as nat) + ";"@ + dec_seq(fore.g as nat) + ";"@
        + dec_seq(fore.b as nat) + "m\x1b[48;2;"@ + dec_seq(back.r as nat) + ";"@
        + dec_seq(back.g as nat) + ";"@ + dec_seq(back.b as nat) + "m"@
        + spec_badge(change, hash) + " "@ + padded_dec_seq(line_no, width)
        + "\x1b[0m\u{2502}"@ + text
}

/// The background color for a blame hash, against the revision index map
/// `m` and its gradient of `m.len()` colors: the gradient color at the
/// hash's age rank, or the palette's raw end color when the rank is out of
/// the gradient's bounds.
pub open spec fn spec_back_color(pal: Palette, m: Map<Seq<char>, usize>, h: Seq<char>) -> Rgb {
    let rank = spec_resolve_rank(m, h);
    if rank < m.len() {
        gradient_color(pal.back_start, pal.back_end, rank as int, m.len() as int)
    } else {
        pal.back_end
    }
}

/// The output line for blame line `line` at 0-based position `i`, with
/// listing line `text`.
pub open spec fn spec_line_at(
    pal: Palette,
    m: Map<Seq<char>, usize>,
    width: nat,
    line: Seq<char>,
    i: int,
    text: Seq<char>,
) -> Seq<char> {
    spec_rendered_line(
        pal.fore,
        spec_back_color(pal, m, spec_hash_part(line)),
        spec_change_part(line),
        spec_hash_part(line),
        (i + 1) as nat,
        width,
        text,
    )
}

/// The output for the first `k` blame lines: one line per decoded blame
/// line whose position is within the listing's bounds, in order. A blame
/// line that could not be decoded (`None`) yields nothing but still
/// occupies its position.
pub open spec fn spec_output_upto(
    rev: Seq<Option<Seq<char>>>,
    blame: Seq<Option<Seq<char>>>,
    bat: Seq<Seq<char>>,
    pidx: int,
    k: int,
) -> Seq<Seq<char>>
    decreases k,
{
    if k <= 0 {
        Seq::empty()
    } else {
        let rest = spec_output_upto(rev, blame, bat, pidx, k - 1);
        match blame[k - 1] {
            None => rest,
            Some(line) => if k - 1 < bat.len() {
                rest.push(
                    spec_line_at(
                        spec_palette(pidx),
                        rev_map(rev),
                        spec_digit_width(bat.len()),
                        line,
                        k - 1,
                        bat[k - 1],
                    ),
                )
            } else {
                rest
            },
        }
    }
}

/// The whole program's output for a revision list `rev`, blame lines
/// `blame`, listing lines `bat` and palette index `pidx`.
pub open spec fn spec_output(
    rev: Seq<Option<Seq<char>>>,
    blame: Seq<Option<Seq<char>>>,
    bat: Seq<Seq<char>>,
    pidx: int,
) -> Seq<Seq<char>> {
    spec_output_upto(rev, blame, bat, pidx, blame.len() as int)
}

/// Once the blame position has reached the listing's length, no further
/// blame line adds output.
proof fn lemma_output_stable(
    rev: Seq<Option<Seq<char>>>,
    blame: Seq<Option<Seq<char>>>,
    bat: Seq<Seq<char>>,
    pidx: int,
    i: int,
    k: int,
)
    requires
        0 <= i <= k <= blame.len(),
        bat.len() <= i,
    ensures
        spec_output_upto(rev, blame, bat, pidx, k) == spec_output_upto(rev, blame, bat, pidx, i),
    decreases k,
{
    if k > i {
        lemma_output_stable(rev, blame, bat, pidx, i, k - 1);
    }
}

/// Composes one output line, exactly as [`spec_rendered_line`] gives it.
pub fn render_line(
    fore: &Rgb,
    back: &Rgb,
    change: &str,
    hash: &str,
    line_no: u64,
    width: usize,
    text: &str,
) -> (s: String)
    ensures
        s@ == spec_rendered_line(
            *fore,
            *back,
            change@,
            hash@,
            line_no as nat,
            width as nat,
            text@,
        ),
{
    let mut s = String::from_str("\u{2502}\x1b[38;2;");
    s.append(decimal_string(fore.r as u64).as_str());
    s.append(";");
    s.append(decimal_string(fore.g as u64).as_str());
    s.append(";");
    s.append(decimal_string(fore.b as u64).as_str());
    s.append("m\x1b[48;2;");
    s.append(decimal_string(back.r as u64).as_str());
    s.append(";");
    s.append(decimal_string(back.g as u64).as_str());
    s.append(";");
    s.append(decimal_string(back.b as u64).as_str());
    s.append("m");
    if !change.is_empty() {
        s.append(change);
        s.append(":");
    }
    s.append(hash);
    s.append(" ");
    let num = format_line_number(line_no, width);
    s.append(num.as_str());
    s.append("\x1b[0m\u{2502}");
    s.append(text);
    proof {
        assert(s@ =~= spec_rendered_line(
            *fore,
            *back,
            change@,
            hash@,
            line_no as nat,
            width as nat,
            text@,
        ));
    }
    s
}

/// The whole render pass over plain values: builds the revision index from
/// the revision-list lines, the gradient over its size, and one composed
/// output line per decoded blame line, in lockstep with the listing.
/// Returns exactly [`spec_output`] of the inputs. A `None` input line
/// stands for one that could not be decoded.
pub fn render(
    rev_lines: &Vec<Option<String>>,
    blame_lines: &Vec<Option<String>>,
    bat_lines: &Vec<String>,
    palette_idx: usize,
) -> (out: Vec<String>)
    requires
        rev_lines@.len() <= u32::MAX,
    ensures
        out.deep_view() == spec_output(
            rev_lines.deep_view(),
            blame_lines.deep_view(),
            bat_lines.deep_view(),
            palette_idx as int,
        ),
{
    let ghost revs = rev_lines.deep_view();
    let ghost blames = blame_lines.deep_view();
    let ghost bats = bat_lines.deep_view();
    let index = build_rev_index(rev_lines);
    proof {
        lemma_rev_map_len(revs);
    }
    let steps = index.len();
    let pal = palette_entry(palette_idx);
    let grad = get_grad(&pal.back_start, &pal.back_end, steps as u32);
    let width = digit_width(bat_lines.len());
    let mut out: Vec<String> = Vec::new();
    let mut i: usize = 0;
    while i < blame_lines.len()
        invariant
            i <= blame_lines.len(),
            blames.len() == blame_lines.len(),
            bats.len() == bat_lines.len(),
            revs == rev_lines.deep_view(),
            blames == blame_lines.deep_view(),
            bats == bat_lines.deep_view(),
            index@ == rev_map(revs),
            steps == index@.len(),
            steps <= u32::MAX,
            pal == spec_palette(palette_idx as int),
            grad@.len() == steps,
            forall|r: int|
                0 <= r < steps ==> grad@[r] == gradient_color(
                    pal.back_start,
                    pal.back_end,
                    r,
                    steps as int,
                ),
            width == spec_digit_width(bats.len()),
            out.deep_view() == spec_output_upto(revs, blames, bats, palette_idx as int, i as int),
        decreases blame_lines.len() - i,
    {
        match &blame_lines[i] {
            None => {
                proof {
                    assert(blames[i as int] is None);
                }
            },
            Some(line) => {
                if i >= bat_lines.len() {
                    proof {
                        lemma_output_stable(
                            revs,
                            blames,
                            bats,
                            palette_idx as int,
                            i as int,
                            blames.len() as int,
                        );
                    }
                    return out;
                }
                let (change, hash) = split_blame_line(line.as_str());
                let rank = resolve_rank(&index, hash);
                let back = if rank < grad.len() {
                    grad[rank]
                } else {
                    pal.back_end
                };
                let text = &bat_lines[i];
                let rendered = render_line(&pal.fore, &back, change, hash, (i + 1) as u64, width, text.as_str());
                let ghost before = out.deep_view();
                out.push(rendered);
                proof {
                    assert(blames[i as int] == Some(line@));
                    assert(bats[i as int] == text@);
                    assert(back == spec_back_color(pal, index@, spec_hash_part(line@)));
                    assert(out.deep_view() =~= before.push(rendered@));
                }
            },
        }
        i = i + 1;
    }
    out
}

/// A blame hash absent from the revision index gets the palette's raw
/// gradient-end color: the miss resolves to the index's last rank, and the
/// gradient's last color is exactly the end color (or, for an empty index,
/// the rank is out of the empty gradient's bounds and the end color is the
/// stated fallback).
pub proof fn lemma_unknown_hash_gets_end_color(pal: Palette, m: Map<Seq<char>, usize>, h: Seq<char>)
    requires
        !m.contains_key(h),
        m.len() <= usize::MAX,
    ensures
        spec_back_color(pal, m, h) == pal.back_end,
{
    if m.len() > 0 {
        lemma_gradient_last_is_end(pal.back_start, pal.back_end, m.len() as int);
    }
}

/// Rendering is a pure function of its inputs: two runs over identical
/// revision lists, blame lines, listings and palette index produce
/// identical output, byte for byte.
pub proof fn lemma_output_deterministic(
    rev1: Seq<Option<Seq<char>>>,
    blame1: Seq<Option<Seq<char>>>,
    bat1: Seq<Seq<char>>,
    pidx1: int,
    rev2: Seq<Option<Seq<char>>>,
    blame2: Seq<Option<Seq<char>>>,
    bat2: Seq<Seq<char>>,
    pidx2: int,
)
    requires
        rev1 == rev2,
        blame1 == blame2,
        bat1 == bat2,
        pidx1 == pidx2,
    ensures
        spec_output(rev1, blame1, bat1, pidx1) == spec_output(rev2, blame2, bat2, pidx2),
{
}

} // verus!

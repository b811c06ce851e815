//! The width engine: visible-width measurement and escape-preserving
//! truncation of styled terminal text.
//!
//! An escape sequence begins at the ESC control character and ends at the
//! first alphabetic character encountered while inside it, inclusive.
//! Characters inside an escape sequence occupy no columns; characters
//! outside occupy one column, or two for code points above U+00FF.

use crate::chars::{char_is_alphabetic, is_alphabetic_char, push_char};
use vstd::prelude::*;
use vstd::string::{StrSliceExecFns, StringExecFns};

verus! {

/// Columns one character occupies outside an escape sequence: two for code
/// points above U+00FF, one otherwise.
pub open spec fn char_width(c: char) -> nat {
    if c as u32 > 0xFF {
        2
    } else {
        1
    }
}

/// Visible width of `s` when the scan starts with the in-escape flag `esc`.
pub open spec fn vw_from(s: Seq<char>, esc: bool) -> nat
    decreases s.len(),
{
    if s.len() == 0 {
        0
    } else if s.first() == '\x1b' {
        vw_from(s.drop_first(), true)
    } else if esc {
        vw_from(s.drop_first(), !is_alphabetic_char(s.first()))
    } else {
        char_width(s.first()) + vw_from(s.drop_first(), false)
    }
}

/// Visible width of `s`: columns occupied when displayed, with escape
/// sequences contributing nothing.
pub open spec fn visible_width_spec(s: Seq<char>) -> nat {
    vw_from(s, false)
}

/// The in-escape flag after scanning all of `s`, starting from flag `esc`.
/// A string scanned from the ordinary state that ends back in the ordinary
/// state has every escape sequence it opened terminated.
pub open spec fn esc_after(s: Seq<char>, esc: bool) -> bool
    decreases s.len(),
{
    if s.len() == 0 {
        esc
    } else if s.first() == '\x1b' {
        esc_after(s.drop_first(), true)
    } else if esc {
        esc_after(s.drop_first(), !is_alphabetic_char(s.first()))
    } else {
        esc_after(s.drop_first(), false)
    }
}

/// Column count of `text` when displayed: characters inside escape
/// sequences count zero, others one, or two above U+00FF.
pub fn visible_width(text: &str) -> (w: usize)
    requires
        text@.len() * 2 <= usize::MAX,
    ensures
        w == visible_width_spec(text@),
{
    let n = text.unicode_len();
    let mut i: usize = 0;
    let mut w: usize = 0;
    let mut in_esc = false;
    proof {
        assert(text@.skip(0) =~= text@);
    }
    while i < n
        invariant
            n == text@.len(),
            text@.len() * 2 <= usize::MAX,
            i <= n,
            w <= 2 * i,
            w + vw_from(text@.skip(i as int), in_esc) == vw_from(text@, false),
        decreases n - i,
    {
        let c = text.get_char(i);
        proof {
            assert(text@.skip(i as int)[0] == text@[i as int]);
            assert(text@.skip(i as int).drop_first() =~= text@.skip(i as int + 1));
        }
        if c == '\x1b' {
            in_esc = true;
        } else if in_esc {
            if char_is_alphabetic(c) {
                in_esc = false;
            }
        } else {
            let cw: usize = if (c as u32) > 0xFF {
                2
            } else {
                1
            };
            w = w + cw;
        }
        i = i + 1;
    }
    proof {
        assert(text@.skip(n as int) =~= Seq::<char>::empty());
    }
    w
}

/// The fixed tail appended when a cut happens: a three-character ellipsis
/// followed by the reset escape sequence, which closes any open styling.
pub open spec fn ellipsis_suffix() -> Seq<char> {
    seq!['.', '.', '.', '\x1b', '[', '0', 'm']
}

/// Columns available for copied visible characters under budget
/// `max_width`: three are reserved for the ellipsis.
pub open spec fn trunc_limit(max_width: nat) -> nat {
    if max_width >= 3 {
        (max_width - 3) as nat
    } else {
        0
    }
}

/// The cut scan: escape sequences are copied whole and never counted;
/// visible characters are copied while the accumulated width stays within
/// `limit`; at the first visible character that would pass it, the ellipsis
/// suffix replaces the rest of the text.
pub open spec fn trunc_rec(s: Seq<char>, esc: bool, used: nat, limit: nat) -> Seq<char>
    decreases s.len(),
{
    if s.len() == 0 {
        Seq::empty()
    } else if s.first() == '\x1b' {
        seq![s.first()] + trunc_rec(s.drop_first(), true, used, limit)
    } else if esc {
        seq![s.first()] + trunc_rec(s.drop_first(), !is_alphabetic_char(s.first()), used, limit)
    } else if used + char_width(s.first()) > limit {
        ellipsis_suffix()
    } else {
        seq![s.first()] + trunc_rec(s.drop_first(), false, used + char_width(s.first()), limit)
    }
}

/// What truncation returns: the text itself when it already fits, else the
/// cut scan of it.
pub open spec fn truncate_spec(s: Seq<char>, max_width: nat) -> Seq<char> {
    if visible_width_spec(s) <= max_width {
        s
    } else {
        trunc_rec(s, false, 0, trunc_limit(max_width))
    }
}

/// Scanned from the ordinary state, the ellipsis suffix occupies three
/// columns and ends outside any escape sequence.
proof fn lemma_suffix_props()
    requires
        is_alphabetic_char('m'),
        !is_alphabetic_char('['),
        !is_alphabetic_char('0'),
    ensures
        vw_from(ellipsis_suffix(), false) == 3,
        !esc_after(ellipsis_suffix(), false),
{
    reveal_with_fuel(vw_from, 10);
    reveal_with_fuel(esc_after, 10);
    let s6: Seq<char> = seq!['m'];
    let s5: Seq<char> = seq!['0', 'm'];
    let s4: Seq<char> = seq!['[', '0', 'm'];
    let s3: Seq<char> = seq!['\x1b', '[', '0', 'm'];
    let s2: Seq<char> = seq!['.', '\x1b', '[', '0', 'm'];
    let s1: Seq<char> = seq!['.', '.', '\x1b', '[', '0', 'm'];
    let s0 = ellipsis_suffix();
    assert(s6.drop_first() =~= Seq::<char>::empty());
    assert(s5.drop_first() =~= s6);
    assert(s4.drop_first() =~= s5);
    assert(s3.drop_first() =~= s4);
    assert(s2.drop_first() =~= s3);
    assert(s1.drop_first() =~= s2);
    assert(s0.drop_first() =~= s1);
    assert(vw_from(s6, true) == 0);
    assert(vw_from(s5, true) == 0);
    assert(vw_from(s4, true) == 0);
    assert(vw_from(s3, false) == 0);
    assert(vw_from(s2, false) == 1);
    assert(vw_from(s1, false) == 2);
    assert(vw_from(s0, false) == 3);
    assert(!esc_after(s6, true));
    assert(!esc_after(s5, true));
    assert(!esc_after(s4, true));
    assert(!esc_after(s3, false));
    assert(!esc_after(s2, false));
    assert(!esc_after(s1, false));
    assert(!esc_after(s0, false));
}

/// Once the cut is sure to happen (the remaining width passes the limit),
/// the cut scan yields a sequence that stays within three columns of the
/// limit, ends outside any escape sequence, and ends with the ellipsis
/// suffix.
proof fn lemma_trunc_rec_props(s: Seq<char>, esc: bool, used: nat, limit: nat)
    requires
        is_alphabetic_char('m'),
        !is_alphabetic_char('['),
        !is_alphabetic_char('0'),
        used <= limit,
        used + vw_from(s, esc) > limit,
    ensures
        used + vw_from(trunc_rec(s, esc, used, limit), esc) <= limit + 3,
        !esc_after(trunc_rec(s, esc, used, limit), esc),
        trunc_rec(s, esc, used, limit).len() >= 7,
        trunc_rec(s, esc, used, limit).skip(trunc_rec(s, esc, used, limit).len() - 7)
            == ellipsis_suffix(),
    decreases s.len(),
{
    let res = trunc_rec(s, esc, used, limit);
    if s.len() == 0 {
        assert(false);
    } else {
        let c = s.first();
        let rest = s.drop_first();
        if c == '\x1b' {
            lemma_trunc_rec_props(rest, true, used, limit);
            let rr = trunc_rec(rest, true, used, limit);
            assert(res == seq![c] + rr);
            assert(res.first() == c);
            assert(res.drop_first() =~= rr);
            assert(res.skip(res.len() - 7) =~= rr.skip(rr.len() - 7));
        } else if esc {
            let esc2 = !is_alphabetic_char(c);
            lemma_trunc_rec_props(rest, esc2, used, limit);
            let rr = trunc_rec(rest, esc2, used, limit);
            assert(res == seq![c] + rr);
            assert(res.first() == c);
            assert(res.drop_first() =~= rr);
            assert(res.skip(res.len() - 7) =~= rr.skip(rr.len() - 7));
        } else if used + char_width(c) > limit {
            lemma_suffix_props();
            assert(res == ellipsis_suffix());
            assert(res.skip(0) =~= res);
        } else {
            lemma_trunc_rec_props(rest, false, used + char_width(c), limit);
            let rr = trunc_rec(rest, false, used + char_width(c), limit);
            assert(res == seq![c] + rr);
            assert(res.first() == c);
            assert(res.drop_first() =~= rr);
            assert(res.skip(res.len() - 7) =~= rr.skip(rr.len() - 7));
        }
    }
}

/// Law: truncating to a budget equal to the current visible width is a
/// no-op, and in particular keeps the visible width unchanged.
pub proof fn lemma_truncate_to_own_width(t: Seq<char>)
    ensures
        truncate_spec(t, visible_width_spec(t)) == t,
        visible_width_spec(truncate_spec(t, visible_width_spec(t))) == visible_width_spec(t),
{
}

/// Fits `text` into at most `max_width` visible columns. Text that already
/// fits is returned unchanged. Otherwise characters are copied until the
/// next visible character would pass `max_width` minus the three columns
/// reserved for the ellipsis; escape sequences are copied whole and never
/// cut, and the result ends with an ellipsis and the reset sequence, so no
/// styling is left open (the in-escape scan of the result ends closed).
pub fn truncate_to_width(text: &str, max_width: usize) -> (r: String)
    requires
        text@.len() * 2 <= usize::MAX,
    ensures
        r@ == truncate_spec(text@, max_width as nat),
        visible_width_spec(text@) <= max_width ==> r@ == text@,
        max_width >= 4 ==> visible_width_spec(r@) <= max_width,
        visible_width_spec(text@) > max_width ==> !esc_after(r@, false),
        visible_width_spec(text@) > max_width ==> (r@.len() >= 7 && r@.skip(r@.len() - 7)
            == ellipsis_suffix()),
{
    let total = visible_width(text);
    if total <= max_width {
        return text.to_owned();
    }
    // These calls record what `char::is_alphabetic` says of the characters
    // of the appended suffix, which the proofs below depend on.
    let alpha_m = char_is_alphabetic('m');
    let alpha_bracket = char_is_alphabetic('[');
    let alpha_zero = char_is_alphabetic('0');
    proof {
        assert(alpha_m && !alpha_bracket && !alpha_zero);
        assert(is_alphabetic_char('m'));
        assert(!is_alphabetic_char('['));
        assert(!is_alphabetic_char('0'));
    }
    let limit: usize = if max_width >= 3 {
        max_width - 3
    } else {
        0
    };
    let n = text.unicode_len();
    let mut result = String::new();
    let mut w: usize = 0;
    let mut in_esc = false;
    let mut i: usize = 0;
    proof {
        assert(text@.skip(0) =~= text@);
    }
    loop
        invariant_except_break
            n == text@.len(),
            i <= n,
            w <= limit,
            limit <= usize::MAX - 3,
            is_alphabetic_char('m'),
            !is_alphabetic_char('['),
            !is_alphabetic_char('0'),
            trunc_rec(text@, false, 0, limit as nat) == result@ + trunc_rec(
                text@.skip(i as int),
                in_esc,
                w as nat,
                limit as nat,
            ),
        ensures
            result@ == trunc_rec(text@, false, 0, limit as nat),
            is_alphabetic_char('m'),
            !is_alphabetic_char('['),
            !is_alphabetic_char('0'),
        decreases n - i,
    {
        if i >= n {
            proof {
                assert(text@.skip(i as int) =~= Seq::<char>::empty());
                assert(trunc_rec(Seq::<char>::empty(), in_esc, w as nat, limit as nat)
                    =~= Seq::<char>::empty());
                assert(result@ + Seq::<char>::empty() =~= result@);
            }
            break;
        }
        let c = text.get_char(i);
        let ghost pre = result@;
        let ghost tail = text@.skip(i as int);
        proof {
            assert(tail[0] == text@[i as int]);
            assert(tail.drop_first() =~= text@.skip(i as int + 1));
        }
        if c == '\x1b' {
            push_char(&mut result, c);
            in_esc = true;
            proof {
                assert(result@ =~= pre + seq![c]);
                assert(pre + trunc_rec(tail, false, w as nat, limit as nat) =~= result@
                    + trunc_rec(tail.drop_first(), true, w as nat, limit as nat));
                assert(pre + trunc_rec(tail, true, w as nat, limit as nat) =~= result@
                    + trunc_rec(tail.drop_first(), true, w as nat, limit as nat));
            }
        } else if in_esc {
            push_char(&mut result, c);
            let alpha = char_is_alphabetic(c);
            if alpha {
                in_esc = false;
            }
            proof {
                assert(result@ =~= pre + seq![c]);
                assert(pre + trunc_rec(tail, true, w as nat, limit as nat) =~= result@
                    + trunc_rec(tail.drop_first(), !is_alphabetic_char(c), w as nat, limit as nat));
            }
        } else {
            let cw: usize = if (c as u32) > 0xFF {
                2
            } else {
                1
            };
            if w + cw > limit {
                result.append("...\x1b[0m");
                proof {
                    reveal_strlit("...\x1b[0m");
                    assert("...\x1b[0m"@ =~= ellipsis_suffix());
                    assert(trunc_rec(tail, false, w as nat, limit as nat) == ellipsis_suffix());
                    assert(result@ =~= pre + ellipsis_suffix());
                }
                break;
            }
            push_char(&mut result, c);
            w = w + cw;
            proof {
                assert(result@ =~= pre + seq![c]);
                assert(pre + trunc_rec(tail, false, (w - cw) as nat, limit as nat) =~= result@
                    + trunc_rec(tail.drop_first(), false, w as nat, limit as nat));
            }
        }
        i = i + 1;
    }
    proof {
        assert(visible_width_spec(text@) > max_width);
        assert(limit as nat == trunc_limit(max_width as nat));
        lemma_trunc_rec_props(text@, false, 0, limit as nat);
    }
    result
}

/// Law: text containing no escape characters and only code points at most
/// U+00FF has visible width equal to its character count.
pub proof fn lemma_plain_text_width(t: Seq<char>)
    requires
        forall|i: int| 0 <= i < t.len() ==> t[i] != '\x1b' && (t[i] as u32) <= 0xFF,
    ensures
        visible_width_spec(t) == t.len(),
    decreases t.len(),
{
    if t.len() > 0 {
        assert(t.first() == t[0]);
        assert(forall|i: int|
            0 <= i < t.drop_first().len() ==> t.drop_first()[i] == t[i + 1]);
        lemma_plain_text_width(t.drop_first());
    }
}

} // verus!

//! Terminal-width resolution: the fallback chain over the detected stream
//! widths and the environment-provided column count, and the budget a
//! detected width yields for the status line.
//!
//! The queries themselves (stream liveness, device size, environment) are
//! outside work; their plain results are handed in and the selection and
//! parsing are done here.

use vstd::prelude::*;
use vstd::string::StrSliceExecFns;

verus! {

/// Whether `c` is an ASCII decimal digit.
pub open spec fn is_digit(c: char) -> bool {
    48 <= c as u32 && c as u32 <= 57
}

/// The numeric value of an ASCII decimal digit.
pub open spec fn digit_val(c: char) -> nat {
    (c as u32 - 48) as nat
}

/// Whether every character of `s` is an ASCII decimal digit.
pub open spec fn all_digits(s: Seq<char>) -> bool {
    forall|i: int| 0 <= i < s.len() ==> is_digit(s[i])
}

/// The value of `s` read as a decimal numeral.
pub open spec fn dec_value(s: Seq<char>) -> nat
    decreases s.len(),
{
    if s.len() == 0 {
        0
    } else {
        dec_value(s.drop_last()) * 10 + digit_val(s.last())
    }
}

/// What parsing `s` as an unsigned column count yields: an optional
/// leading plus sign followed by at least one digit, with a value that
/// fits the machine word; anything else is ignored.
pub open spec fn parse_columns_spec(s: Seq<char>) -> Option<usize> {
    let body = if s.len() > 0 && s[0] == '+' {
        s.drop_first()
    } else {
        s
    };
    if body.len() > 0 && all_digits(body) && dec_value(body) <= usize::MAX {
        Some(dec_value(body) as usize)
    } else {
        None
    }
}

/// A numeral is at least as large as any of its prefixes.
proof fn lemma_dec_value_prefix(s: Seq<char>, j: int)
    requires
        0 <= j <= s.len(),
    ensures
        dec_value(s.take(j)) <= dec_value(s),
    decreases s.len() - j,
{
    if j < s.len() {
        assert(s.take(j + 1).drop_last() =~= s.take(j));
        assert(s.take(j + 1).last() == s[j]);
        lemma_dec_value_prefix(s, j + 1);
    } else {
        assert(s.take(j) =~= s);
    }
}

/// Parses an environment-provided column count: an unsigned decimal
/// numeral (an optional leading plus sign allowed); anything else, or a
/// value too large for the machine word, yields nothing.
pub fn parse_columns(s: &str) -> (r: Option<usize>)
    ensures
        r == parse_columns_spec(s@),
{
    let n = s.unicode_len();
    let mut start: usize = 0;
    if n > 0 {
        let c0 = s.get_char(0);
        if c0 == '+' {
            start = 1;
        }
    }
    let ghost body: Seq<char> = if s@.len() > 0 && s@[0] == '+' {
        s@.drop_first()
    } else {
        s@
    };
    proof {
        assert(body =~= s@.skip(start as int));
    }
    if start == n {
        return None;
    }
    let mut acc: usize = 0;
    let mut i = start;
    while i < n
        invariant
            start <= i <= n,
            n == s@.len(),
            body == s@.skip(start as int),
            body == (if s@.len() > 0 && s@[0] == '+' {
                s@.drop_first()
            } else {
                s@
            }),
            body.len() == n - start,
            all_digits(body.take(i as int - start as int)),
            acc as nat == dec_value(body.take(i as int - start as int)),
        decreases n - i,
    {
        let c = s.get_char(i);
        proof {
            assert(body[i as int - start as int] == s@[i as int]);
        }
        let cu = c as u32;
        if cu < 48 || cu > 57 {
            proof {
                assert(!is_digit(body[i as int - start as int]));
            }
            return None;
        }
        let d = (cu - 48) as usize;
        let wide: u128 = (acc as u128) * 10 + (d as u128);
        proof {
            assert(body.take(i as int - start as int + 1).drop_last() =~= body.take(
                i as int - start as int,
            ));
            assert(body.take(i as int - start as int + 1).last() == body[i as int - start as int]);
        }
        if wide > (usize::MAX as u128) {
            proof {
                lemma_dec_value_prefix(body, i as int - start as int + 1);
            }
            return None;
        }
        acc = wide as usize;
        i = i + 1;
    }
    proof {
        assert(body.take(n as int - start as int) =~= body);
    }
    Some(acc)
}

/// What the fallback chain yields: the error stream's width when that
/// stream is live and its width is known; else the environment-provided
/// column count when present and parseable; else the standard output
/// stream's width when known; else nothing.
pub open spec fn resolve_spec(
    stderr_is_tty: bool,
    stderr_width: Option<u16>,
    env_columns: Option<Seq<char>>,
    stdout_width: Option<u16>,
) -> Option<usize> {
    if stderr_is_tty && stderr_width is Some {
        Some(stderr_width.unwrap() as usize)
    } else if env_columns is Some && parse_columns_spec(env_columns.unwrap()) is Some {
        parse_columns_spec(env_columns.unwrap())
    } else if stdout_width is Some {
        Some(stdout_width.unwrap() as usize)
    } else {
        None
    }
}

/// Picks the terminal width from the detection results, first success
/// first: the error stream's width counts only when that stream is live,
/// the environment value counts whenever it parses, the standard output
/// stream's width counts unconditionally.
pub fn resolve_terminal_width(
    stderr_is_tty: bool,
    stderr_width: Option<u16>,
    env_columns: Option<&str>,
    stdout_width: Option<u16>,
) -> (r: Option<usize>)
    ensures
        r == resolve_spec(
            stderr_is_tty,
            stderr_width,
            (match env_columns {
                Some(e) => Some(e@),
                None => None,
            }),
            stdout_width,
        ),
{
    if stderr_is_tty {
        if let Some(w) = stderr_width {
            return Some(w as usize);
        }
    }
    if let Some(e) = env_columns {
        let parsed = parse_columns(e);
        if let Some(v) = parsed {
            return Some(v);
        }
    }
    match stdout_width {
        Some(w) => Some(w as usize),
        None => None,
    }
}

/// The budget a detected width `w` and a target percentage yield: the
/// scaled share of the width, capped by what remains after the forty
/// columns reserved for the host's adjacent indicator.
pub open spec fn budget_spec(w: nat, percent: nat) -> nat {
    let available = if w >= 40 {
        (w - 40) as nat
    } else {
        0
    };
    let scaled = (w * percent) / 100;
    if scaled <= available {
        scaled
    } else {
        available
    }
}

/// Computes the visible-column budget for the status line: the smaller of
/// the percentage share of the terminal width and the width minus the
/// forty reserved columns; seventy-two columns when no width was detected
/// (a 120-column terminal assumed, sixty percent of it used).
pub fn compute_budget(term_width: Option<usize>, percent: usize) -> (r: usize)
    requires
        term_width matches Some(w) ==> w * percent <= usize::MAX,
    ensures
        term_width matches Some(w) ==> r == budget_spec(w as nat, percent as nat),
        term_width is None ==> r == 72,
{
    match term_width {
        Some(w) => {
            let available = if w >= 40 {
                w - 40
            } else {
                0
            };
            let scaled = (w * percent) / 100;
            if scaled <= available {
                scaled
            } else {
                available
            }
        },
        None => 72,
    }
}

} // verus!

//! Terminal capability helpers: the terminal's dimensions (with a fixed
//! fallback when they cannot be queried) and the test a `COLORTERM` value
//! must pass to announce truecolor support.

use vstd::prelude::*;
use vstd::string::StrSliceExecFns;

verus! {

/// Relies on `crossterm::terminal::size`: queries the terminal for its
/// (columns, rows); the query can fail, and nothing is assumed of the values.
#[verifier::external_body]
fn query_terminal_size() -> (r: Option<(u16, u16)>) {
    match crossterm::terminal::size() {
        Ok(s) => Some(s),
        Err(_) => None,
    }
}

/// The dimensions a size probe resolves to: the probed value when there is
/// one, else the 80x24 fallback.
pub fn terminal_size_or_default(probe: Option<(u16, u16)>) -> (r: (u16, u16))
    ensures
        probe is Some ==> r == probe.unwrap(),
        probe is None ==> r == (80u16, 24u16),
{
    match probe {
        Some(s) => s,
        None => (80, 24),
    }
}

/// Try to get the terminal size; falls back to constant dimensions when the
/// query fails. The result depends on the terminal the process runs in.
pub fn terminal_size() -> (u16, u16) {
    terminal_size_or_default(query_terminal_size())
}

/// Whether `p` occurs as a contiguous run inside `s`.
pub open spec fn has_substring(s: Seq<char>, p: Seq<char>) -> bool {
    exists|i: int| 0 <= i && i + p.len() <= s.len() && #[trigger] s.subrange(i, i + p.len()) == p
}

/// Whether `pat` starts at character position `i` of `s`.
fn match_at(s: &str, i: usize, pat: &str) -> (b: bool)
    requires
        i + pat@.len() <= s@.len(),
        s@.len() <= usize::MAX,
    ensures
        b == (s@.subrange(i as int, i as int + pat@.len()) == pat@),
{
    let m = pat.unicode_len();
    let mut j: usize = 0;
    let mut ok = true;
    while j < m
        invariant
            j <= m,
            m == pat@.len(),
            i + m <= s@.len(),
            s@.len() <= usize::MAX,
            ok ==> s@.subrange(i as int, i as int + j as int) == pat@.subrange(0, j as int),
            !ok ==> s@.subrange(i as int, i as int + m as int) != pat@,
        decreases m - j,
    {
        if ok {
            let cs = s.get_char(i + j);
            let cp = pat.get_char(j);
            if cs != cp {
                ok = false;
                proof {
                    assert(s@.subrange(i as int, i as int + m as int)[j as int] == s@[i as int
                        + j as int]);
                }
            } else {
                proof {
                    assert(s@.subrange(i as int, i as int + j as int + 1) =~= s@.subrange(
                        i as int,
                        i as int + j as int,
                    ).push(s@[i as int + j as int]));
                    assert(pat@.subrange(0, j as int + 1) =~= pat@.subrange(0, j as int).push(
                        pat@[j as int],
                    ));
                }
            }
        }
        j = j + 1;
    }
    proof {
        if ok {
            assert(pat@.subrange(0, m as int) =~= pat@);
        }
    }
    ok
}

/// Whether `pat` occurs anywhere in `s`.
pub fn str_contains(s: &str, pat: &str) -> (b: bool)
    ensures
        b == has_substring(s@, pat@),
{
    let n = s.unicode_len();
    let m = pat.unicode_len();
    if m == 0 {
        proof {
            assert(s@.subrange(0, 0 + pat@.len() as int) =~= pat@);
        }
        return true;
    }
    if m > n {
        proof {
            if has_substring(s@, pat@) {
                let k = choose|k: int|
                    0 <= k && k + pat@.len() <= s@.len() && #[trigger] s@.subrange(
                        k,
                        k + pat@.len(),
                    ) == pat@;
                assert(false);
            }
        }
        return false;
    }
    let mut i: usize = 0;
    while i <= n - m
        invariant
            1 <= m <= n,
            n == s@.len(),
            m == pat@.len(),
            i <= n - m + 1,
            forall|k: int| 0 <= k < i as int ==> #[trigger] s@.subrange(k, k + m as int) != pat@,
        decreases n + 1 - i,
    {
        if match_at(s, i, pat) {
            proof {
                assert(0 <= i as int && i as int + pat@.len() <= s@.len() && s@.subrange(
                    i as int,
                    i as int + pat@.len(),
                ) == pat@);
            }
            return true;
        }
        i = i + 1;
    }
    proof {
        if has_substring(s@, pat@) {
            let k = choose|k: int|
                0 <= k && k + pat@.len() <= s@.len() && #[trigger] s@.subrange(
                    k,
                    k + pat@.len(),
                ) == pat@;
            assert(k < i as int);
            assert(false);
        }
    }
    false
}

/// Whether a `COLORTERM` value announces truecolor support: it mentions
/// either "truecolor" or "24bit". Reading the variable itself is the
/// caller's business.
pub fn truecolor_env_value(value: &str) -> (b: bool)
    ensures
        b == (has_substring(value@, "truecolor"@) || has_substring(value@, "24bit"@)),
{
    str_contains(value, "truecolor") || str_contains(value, "24bit")
}

} // verus!

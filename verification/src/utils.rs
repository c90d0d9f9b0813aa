//! String helpers: stripping the working-file suffix from a path, and
//! reading the decimal byte count a `content-length` header carries.

use vstd::prelude::*;

verus! {

/// Whether `c` is a decimal digit.
pub open spec fn is_digit(c: char) -> bool {
    '0' <= c <= '9'
}

/// The value of a decimal digit.
pub open spec fn digit_val(c: char) -> int {
    c as int - '0' as int
}

/// Whether `s` consists of decimal digits only.
pub open spec fn all_digits(s: Seq<char>) -> bool {
    forall|i: int| 0 <= i < s.len() ==> is_digit(#[trigger] s[i])
}

/// The number a sequence of decimal digits denotes, most significant first.
pub open spec fn digits_value(s: Seq<char>) -> int
    decreases s.len(),
{
    if s.len() == 0 {
        0
    } else {
        digits_value(s.drop_last()) * 10 + digit_val(s.last())
    }
}

proof fn lemma_digits_value_nonneg(s: Seq<char>)
    requires
        all_digits(s),
    ensures
        digits_value(s) >= 0,
    decreases s.len(),
{
    if s.len() > 0 {
        assert forall|i: int| 0 <= i < s.drop_last().len() implies is_digit(
            #[trigger] s.drop_last()[i],
        ) by {
            assert(s.drop_last()[i] == s[i]);
        }
        lemma_digits_value_nonneg(s.drop_last());
    }
}

/// A longer digit prefix never denotes a smaller number.
proof fn lemma_digits_value_prefix_le(s: Seq<char>, i: int, j: int)
    requires
        all_digits(s),
        0 <= i <= j <= s.len(),
    ensures
        digits_value(s.subrange(0, i)) <= digits_value(s.subrange(0, j)),
    decreases j - i,
{
    if i < j {
        let shorter = s.subrange(0, j - 1);
        let longer = s.subrange(0, j);
        assert(longer.drop_last() =~= shorter);
        assert(all_digits(shorter)) by {
            assert forall|m: int| 0 <= m < shorter.len() implies is_digit(#[trigger] shorter[m]) by {
                assert(shorter[m] == s[m]);
            }
        }
        lemma_digits_value_nonneg(shorter);
        assert(is_digit(longer.last())) by {
            assert(longer.last() == s[j - 1]);
        }
        assert(digits_value(shorter) <= digits_value(longer));
        lemma_digits_value_prefix_le(s, i, j - 1);
    }
}

/// Reads a base-ten number, as a `content-length` header carries one.
/// Returns the value exactly when `s` is one or more decimal digits whose
/// value fits; anything else — empty, a stray character, or a value too
/// large — is `None`.
pub fn parse_u64(s: &str) -> (r: Option<u64>)
    ensures
        r is Some <==> s@.len() > 0 && all_digits(s@) && digits_value(s@) <= u64::MAX,
        r matches Some(n) ==> n == digits_value(s@),
{
    let n = s.unicode_len();
    if n == 0 {
        return None;
    }
    let mut acc: u64 = 0;
    let mut i: usize = 0;
    while i < n
        invariant
            n == s@.len(),
            0 < n,
            i <= n,
            all_digits(s@.subrange(0, i as int)),
            acc == digits_value(s@.subrange(0, i as int)),
        decreases n - i,
    {
        let c = s.get_char(i);
        let code = c as u32;
        if code < 48 || code > 57 {
            assert(!all_digits(s@)) by {
                assert(s@[i as int] == c);
            }
            return None;
        }
        let digit = (code - 48) as u64;
        let wide: u128 = (acc as u128) * 10 + (digit as u128);
        proof {
            let pre = s@.subrange(0, i as int);
            let cur = s@.subrange(0, i + 1);
            assert(cur.drop_last() =~= pre);
            assert(cur.last() == s@[i as int]);
            assert(digit == digit_val(c));
            assert(all_digits(cur)) by {
                assert forall|m: int| 0 <= m < cur.len() implies is_digit(#[trigger] cur[m]) by {
                    if m < i {
                        assert(cur[m] == pre[m]);
                    }
                }
            }
            assert(wide == digits_value(cur));
        }
        if wide > u64::MAX as u128 {
            proof {
                if all_digits(s@) {
                    lemma_digits_value_prefix_le(s@, i + 1, n as int);
                    assert(s@.subrange(0, n as int) =~= s@);
                }
            }
            return None;
        }
        acc = wide as u64;
        i = i + 1;
    }
    proof {
        assert(s@.subrange(0, n as int) =~= s@);
    }
    Some(acc)
}

/// Whether `s` ends with `sfx`.
pub open spec fn ends_with(s: Seq<char>, sfx: Seq<char>) -> bool {
    sfx.len() <= s.len() && s.subrange(s.len() - sfx.len(), s.len() as int) == sfx
}

/// `s` with a trailing `sfx` removed; `s` unchanged when it does not end with
/// `sfx`.
pub open spec fn strip_suffix_spec(s: Seq<char>, sfx: Seq<char>) -> Seq<char> {
    if ends_with(s, sfx) {
        s.subrange(0, s.len() - sfx.len())
    } else {
        s
    }
}

/// Removes `suffix` from the end of `s` if present; otherwise returns `s`
/// unchanged.
pub fn remove_suffix<'a>(s: &'a str, suffix: &str) -> (r: &'a str)
    ensures
        r@ == strip_suffix_spec(s@, suffix@),
{
    let n = s.unicode_len();
    let m = suffix.unicode_len();
    if m > n {
        return s;
    }
    let mut i: usize = 0;
    let mut matching = true;
    while i < m
        invariant
            m <= n,
            n == s@.len(),
            m == suffix@.len(),
            i <= m,
            matching ==> forall|j: int| 0 <= j < i ==> s@[n - m + j] == suffix@[j],
            !matching ==> !ends_with(s@, suffix@),
        decreases m - i,
    {
        if s.get_char(n - m + i) != suffix.get_char(i) {
            proof {
                let j = i as int;
                assert(!(s@.subrange(n - m, n as int) == suffix@)) by {
                    assert(s@.subrange(n - m, n as int)[j] == s@[n - m + j]);
                }
            }
            matching = false;
            i = m;
        } else {
            i = i + 1;
        }
    }
    if matching {
        proof {
            assert(s@.subrange(n - m, n as int) =~= suffix@);
        }
        let r = s.substring_char(0, n - m);
        r
    } else {
        s
    }
}

} // verus!

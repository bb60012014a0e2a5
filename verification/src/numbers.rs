//! Fixed-point quantities in tenths. The provider reports every metric as a
//! decimal number; the library stores each one as a signed count of tenths
//! and renders it back with exactly one digit after the decimal point.

use vstd::math::abs;
use vstd::prelude::*;
use vstd::string::StrSliceExecFns;
use vstd::string::StringExecFns;

verus! {

/// Whether a character is an ASCII decimal digit.
pub open spec fn is_digit(c: char) -> bool {
    48 <= c as int <= 57
}

/// The numeric value of an ASCII digit character.
pub open spec fn digit_val(c: char) -> int {
    c as int - 48
}

/// Whether every character of a sequence is an ASCII digit.
pub open spec fn all_digits(s: Seq<char>) -> bool {
    forall|i: int| 0 <= i < s.len() ==> is_digit(#[trigger] s[i])
}

/// The value of a digit sequence read in base ten.
pub open spec fn digits_value(s: Seq<char>) -> int
    decreases s.len(),
{
    if s.len() == 0 {
        0
    } else {
        digits_value(s.drop_last()) * 10 + digit_val(s.last())
    }
}

/// The position of the first '.' in a sequence, or its length if none occurs.
pub open spec fn dot_pos(s: Seq<char>) -> int
    decreases s.len(),
{
    if s.len() == 0 {
        0
    } else if s[0] == '.' {
        0
    } else {
        1 + dot_pos(s.skip(1))
    }
}

/// An accepted unsigned decimal body: one or more integer digits, optionally
/// followed by '.' and one or more fraction digits. Exponent forms are not
/// accepted.
pub open spec fn valid_decimal_body(b: Seq<char>) -> bool {
    let p = dot_pos(b);
    &&& 0 < p
    &&& all_digits(b.take(p))
    &&& (p == b.len() || (p + 1 < b.len() && all_digits(b.skip(p + 1))))
}

/// The magnitude of a decimal body in tenths: the integer part scaled by
/// ten plus the first fraction digit, rounded half away from zero on the
/// second fraction digit.
pub open spec fn body_tenths(b: Seq<char>) -> int {
    let p = dot_pos(b);
    let whole = digits_value(b.take(p));
    if p == b.len() {
        whole * 10
    } else {
        let f = b.skip(p + 1);
        whole * 10 + digit_val(f[0]) + if f.len() >= 2 && digit_val(f[1]) >= 5 {
            1int
        } else {
            0int
        }
    }
}

/// The value of a decimal text in tenths: an optional leading '-', then an
/// accepted decimal body; any other shape has no value.
pub open spec fn tenths_of(s: Seq<char>) -> Option<int> {
    let neg = s.len() > 0 && s[0] == '-';
    let b = if neg {
        s.skip(1)
    } else {
        s
    };
    if valid_decimal_body(b) {
        Some(
            if neg {
                -body_tenths(b)
            } else {
                body_tenths(b)
            },
        )
    } else {
        None
    }
}

/// `dot_pos` is exactly the position of the first '.', and is the length
/// when no '.' occurs.
proof fn lemma_dot_pos_at(s: Seq<char>, m: int)
    requires
        0 <= m <= s.len(),
        forall|j: int| 0 <= j < m ==> s[j] != '.',
        m < s.len() ==> s[m] == '.',
    ensures
        dot_pos(s) == m,
    decreases s.len(),
{
    if s.len() == 0 {
    } else if s[0] == '.' {
        assert(m == 0);
    } else {
        assert(m >= 1);
        let t = s.skip(1);
        assert forall|j: int| 0 <= j < m - 1 implies t[j] != '.' by {
            assert(t[j] == s[j + 1]);
        }
        lemma_dot_pos_at(t, m - 1);
    }
}

/// The first '.' of a sequence lies between zero and its length.
proof fn lemma_dot_pos_bounds(s: Seq<char>)
    ensures
        0 <= dot_pos(s) <= s.len(),
    decreases s.len(),
{
    if s.len() > 0 && s[0] != '.' {
        lemma_dot_pos_bounds(s.skip(1));
    }
}

/// A sequence without a '.' among its first `m` characters has its first
/// '.' no earlier than `m`.
proof fn lemma_dot_pos_ge(s: Seq<char>, m: int)
    requires
        0 <= m <= s.len(),
        forall|j: int| 0 <= j < m ==> s[j] != '.',
    ensures
        dot_pos(s) >= m,
    decreases s.len(),
{
    lemma_dot_pos_bounds(s);
    if s.len() == 0 || s[0] == '.' || m == 0 {
        assert(m > 0 ==> s[0] != '.');
    } else {
        let t = s.skip(1);
        assert forall|j: int| 0 <= j < m - 1 implies t[j] != '.' by {
            assert(t[j] == s[j + 1]);
        }
        lemma_dot_pos_ge(t, m - 1);
    }
}

/// The value of a digit prefix one longer: the previous value times ten
/// plus the new digit.
proof fn lemma_digits_value_step(s: Seq<char>, k: int)
    requires
        0 <= k < s.len(),
    ensures
        digits_value(s.take(k + 1)) == digits_value(s.take(k)) * 10 + digit_val(s[k]),
{
    let u = s.take(k + 1);
    assert(u.drop_last() =~= s.take(k));
    assert(u.last() == s[k]);
}

/// Every rendered count is made of decimal digits, at least one of them.
proof fn lemma_spec_digits_wf(n: nat)
    ensures
        spec_digits(n).len() >= 1,
        all_digits(spec_digits(n)),
    decreases n,
{
    if n < 10 {
        assert(is_digit(spec_digit_char(n as int)));
        assert(all_digits(spec_digits(n)));
    } else {
        lemma_spec_digits_wf(n / 10);
        let w = spec_digits(n / 10);
        let s = spec_digits(n);
        assert(s == w + seq![spec_digit_char((n % 10) as int)]);
        assert forall|i: int| 0 <= i < s.len() implies is_digit(#[trigger] s[i]) by {
            if i < w.len() {
                assert(s[i] == w[i]);
            } else {
                assert(s[i] == spec_digit_char((n % 10) as int));
            }
        }
    }
}

/// Reading a rendered count back in base ten returns the count.
proof fn lemma_digits_value_inverse(n: nat)
    ensures
        digits_value(spec_digits(n)) == n,
    decreases n,
{
    if n < 10 {
        let s = spec_digits(n);
        assert(s.drop_last() =~= Seq::<char>::empty());
        assert(digits_value(Seq::<char>::empty()) == 0);
        assert(s.last() == spec_digit_char(n as int));
        assert(digits_value(s) == digit_val(spec_digit_char(n as int)));
    } else {
        lemma_digits_value_inverse(n / 10);
        let w = spec_digits(n / 10);
        let c = spec_digit_char((n % 10) as int);
        let s = spec_digits(n);
        assert(s == w + seq![c]);
        assert(s.drop_last() =~= w);
        assert(s.last() == c);
        assert(digit_val(c) == n % 10);
    }
}

/// Rendering a count of tenths and parsing the text back yields the same
/// count: the formatter and the parser agree on every value.
pub proof fn lemma_format_parse_round_trip(t: int)
    ensures
        tenths_of(spec_format_tenths(t)) == Some(t),
{
    reveal_strlit("-");
    reveal_strlit(".");
    let m = abs(t);
    let w = spec_digits(m / 10);
    let c = spec_digit_char((m % 10) as int);
    lemma_spec_digits_wf(m / 10);
    lemma_digits_value_inverse(m / 10);
    let s = spec_format_tenths(t);
    let b = w + "."@ + seq![c];
    assert(b.len() == w.len() + 2);
    if t < 0 {
        assert(s == "-"@ + w + "."@ + seq![c]);
        assert(s[0] == '-');
        assert(s.len() > 0);
        assert(s.skip(1) =~= b);
    } else {
        assert(s == Seq::<char>::empty() + w + "."@ + seq![c]);
        assert(s =~= b);
        assert(s[0] == w[0]);
        assert(is_digit(w[0]));
        assert(s[0] != '-');
    }
    // The first '.' stands right after the integer digits.
    assert forall|j: int| 0 <= j < w.len() implies (#[trigger] b[j]) != '.' by {
        assert(b[j] == w[j]);
        assert(is_digit(w[j]));
    }
    assert(b[w.len() as int] == '.');
    lemma_dot_pos_at(b, w.len() as int);
    assert(b.take(w.len() as int) =~= w);
    assert(valid_decimal_body(b));
    // One fraction digit, so no rounding applies.
    let f = b.skip(w.len() as int + 1);
    assert(f =~= seq![c]);
    assert(digit_val(c) == m % 10);
    assert(body_tenths(b) == (m / 10) * 10 + (m % 10));
    assert(body_tenths(b) == m);
    if t < 0 {
        assert(tenths_of(s) == Some(-(m as int)));
    } else {
        assert(tenths_of(s) == Some(m as int));
    }
}

/// Applies the sign to a magnitude of tenths and returns it as an i64 when
/// it fits, None when it does not.
fn clamp_signed(mag: u64, neg: bool) -> (r: Option<i64>)
    ensures
        ({
            let v: int = if neg {
                -(mag as int)
            } else {
                mag as int
            };
            if i64::MIN <= v <= i64::MAX {
                r == Some(v as i64)
            } else {
                r is None
            }
        }),
{
    if neg {
        if mag > 9223372036854775808u64 {
            None
        } else if mag == 9223372036854775808u64 {
            Some(i64::MIN)
        } else {
            Some(-(mag as i64))
        }
    } else {
        if mag > 9223372036854775807u64 {
            None
        } else {
            Some(mag as i64)
        }
    }
}

/// Parses a decimal text into a count of tenths, rounding half away from
/// zero on the second fraction digit. Returns Some exactly when the text is
/// an accepted decimal whose value in tenths fits in an i64.
pub fn parse_tenths(s: &str) -> (r: Option<i64>)
    ensures
        match tenths_of(s@) {
            Some(v) => if i64::MIN <= v <= i64::MAX {
                r == Some(v as i64)
            } else {
                r is None
            },
            None => r is None,
        },
{
    let n = s.unicode_len();
    let neg = n > 0 && s.get_char(0) == '-';
    let start: usize = if neg {
        1
    } else {
        0
    };
    let ghost b: Seq<char> = s@.skip(start as int);
    proof {
        assert(b =~= (if neg {
            s@.skip(1)
        } else {
            s@
        }));
        lemma_dot_pos_bounds(b);
    }
    let mut i: usize = start;
    let mut acc: u64 = 0;
    let mut big = false;
    loop
        invariant
            n == s@.len(),
            start <= i <= n,
            neg == (n > 0 && s@[0] == '-'),
            neg ==> start == 1 && n > 0,
            !neg ==> start == 0,
            b == s@.skip(start as int),
            forall|k: int| start <= k < i ==> (#[trigger] s@[k]) != '.' && is_digit(s@[k]),
            !big ==> acc <= 1000000000000000000 && acc == digits_value(
                b.take(i as int - start as int),
            ),
            big ==> digits_value(b.take(i as int - start as int)) > 1000000000000000000,
        ensures
            start <= i <= n,
            i == n || s@[i as int] == '.',
            forall|k: int| start <= k < i ==> (#[trigger] s@[k]) != '.' && is_digit(s@[k]),
            !big ==> acc <= 1000000000000000000 && acc == digits_value(
                b.take(i as int - start as int),
            ),
            big ==> digits_value(b.take(i as int - start as int)) > 1000000000000000000,
        decreases n - i,
    {
        if i == n {
            break ;
        }
        let c = s.get_char(i);
        if c == '.' {
            break ;
        }
        let cv = c as u32;
        if cv < 48 || cv > 57 {
            proof {
                assert(b =~= (if neg {
                    s@.skip(1)
                } else {
                    s@
                }));
                lemma_dot_pos_bounds(b);
                assert forall|k: int| 0 <= k < i - start + 1 implies (#[trigger] b[k]) != '.' by {
                    assert(b[k] == s@[k + start]);
                }
                lemma_dot_pos_ge(b, i as int - start as int + 1);
                let p = dot_pos(b);
                assert(b.take(p)[i - start] == b[i - start]);
                assert(b[i - start] == s@[i as int]);
                assert(!is_digit(b.take(p)[i - start]));
                assert(!valid_decimal_body(b));
            }
            return None;
        }
        let d: u64 = (cv - 48) as u64;
        proof {
            assert(b[i - start] == s@[i as int]);
            assert(is_digit(b[i - start]) && digit_val(b[i - start]) == d);
            lemma_digits_value_step(b, i as int - start as int);
        }
        if big {
            proof {
                let old_v = digits_value(b.take(i as int - start as int));
                assert(digits_value(b.take(i as int - start as int + 1)) == old_v * 10 + d);
            }
        } else {
            let next = acc * 10 + d;
            if next > 1000000000000000000 {
                big = true;
            } else {
                acc = next;
            }
        }
        i = i + 1;
    }
    // Here every character in s[start..i] is a digit, and either i == n or
    // s[i] is the first '.'.
    if i == start {
        proof {
            if start < n {
                assert(b[0] == s@[start as int]);
            }
            lemma_dot_pos_at(b, 0);
            assert(!valid_decimal_body(b));
        }
        return None;
    }
    let ghost p: int = i as int - start as int;
    if i == n {
        // No fraction: the whole body is the integer part.
        proof {
            assert forall|k: int| 0 <= k < b.len() implies (#[trigger] b[k]) != '.' by {
                assert(b[k] == s@[k + start]);
            }
            lemma_dot_pos_at(b, b.len() as int);
            assert(b.take(p) =~= b);
            assert forall|k: int| 0 <= k < b.take(p).len() implies is_digit(
                #[trigger] b.take(p)[k],
            ) by {
                assert(b.take(p)[k] == s@[k + start]);
            }
            assert(valid_decimal_body(b));
        }
        if big {
            proof {
                let whole = digits_value(b.take(p));
                assert(body_tenths(b) == whole * 10);
            }
            return None;
        }
        let mag = acc * 10;
        proof {
            assert(body_tenths(b) == mag);
        }
        return clamp_signed(mag, neg);
    }
    // A '.' stands at position i; the fraction must be one or more digits.
    proof {
        assert(b[p] == s@[i as int]);
        assert forall|k: int| 0 <= k < p implies (#[trigger] b[k]) != '.' by {
            assert(b[k] == s@[k + start]);
        }
        lemma_dot_pos_at(b, p);
        assert forall|k: int| 0 <= k < b.take(p).len() implies is_digit(
            #[trigger] b.take(p)[k],
        ) by {
            assert(b.take(p)[k] == s@[k + start]);
        }
        assert(all_digits(b.take(p)));
    }
    if i + 1 == n {
        proof {
            assert(p + 1 == b.len());
            assert(!valid_decimal_body(b));
        }
        return None;
    }
    let mut j = i + 1;
    let mut d0: u64 = 0;
    let mut round = false;
    loop
        invariant
            n == s@.len(),
            start <= i < n,
            i + 1 <= j <= n,
            i + 1 < n,
            neg == (n > 0 && s@[0] == '-'),
            neg ==> start == 1 && n > 0,
            !neg ==> start == 0,
            b == s@.skip(start as int),
            p == i as int - start as int,
            dot_pos(b) == p,
            0 < p,
            all_digits(b.take(p)),
            !big ==> acc <= 1000000000000000000 && acc == digits_value(b.take(p)),
            big ==> digits_value(b.take(p)) > 1000000000000000000,
            forall|k: int| i + 1 <= k < j ==> is_digit(#[trigger] s@[k]),
            j > i + 1 ==> d0 == digit_val(s@[i as int + 1]) && d0 < 10,
            j <= i + 1 ==> d0 == 0,
            j > i + 2 ==> round == (digit_val(s@[i as int + 2]) >= 5),
            j <= i + 2 ==> !round,
        ensures
            j == n,
            forall|k: int| i + 1 <= k < n ==> is_digit(#[trigger] s@[k]),
            d0 == digit_val(s@[i as int + 1]) && d0 < 10,
            n > i + 2 ==> round == (digit_val(s@[i as int + 2]) >= 5),
            n <= i + 2 ==> !round,
        decreases n - j,
    {
        if j == n {
            break ;
        }
        let c = s.get_char(j);
        let cv = c as u32;
        if cv < 48 || cv > 57 {
            proof {
                assert(b =~= (if neg {
                    s@.skip(1)
                } else {
                    s@
                }));
                let f = b.skip(p + 1);
                assert(f[j - start - p - 1] == s@[j as int]);
                assert(!is_digit(f[j - start - p - 1]));
                lemma_dot_pos_bounds(b);
                assert(!all_digits(f));
                assert(!valid_decimal_body(b));
            }
            return None;
        }
        if j == i + 1 {
            d0 = (cv - 48) as u64;
            proof {
                assert(is_digit(s@[j as int]) && digit_val(s@[j as int]) == d0);
            }
        }
        if j == i + 2 {
            round = cv >= 53;
        }
        j = j + 1;
    }
    // The fraction s[i+1..n] is all digits and non-empty.
    proof {
        let f = b.skip(p + 1);
        assert(f.len() == n - i - 1);
        assert(forall|k: int| 0 <= k < f.len() ==> #[trigger] f[k] == s@[i + 1 + k]);
        assert(all_digits(f));
        assert(valid_decimal_body(b));
        assert(f[0] == s@[i as int + 1]);
        assert(digit_val(f[0]) == d0);
        if f.len() >= 2 {
            assert(f[1] == s@[i as int + 2]);
        }
        assert((f.len() >= 2 && digit_val(f[1]) >= 5) == round);
    }
    if big {
        proof {
            let whole = digits_value(b.take(p));
            let f = b.skip(p + 1);
            assert(is_digit(f[0]));
            assert(body_tenths(b) >= whole * 10);
        }
        return None;
    }
    let mag = acc * 10 + d0 + (if round {
        1
    } else {
        0
    });
    proof {
        assert(body_tenths(b) == mag);
    }
    clamp_signed(mag, neg)
}

/// The ASCII digit character of a value below ten.
pub open spec fn spec_digit_char(d: int) -> char {
    if d == 0 {
        '0'
    } else if d == 1 {
        '1'
    } else if d == 2 {
        '2'
    } else if d == 3 {
        '3'
    } else if d == 4 {
        '4'
    } else if d == 5 {
        '5'
    } else if d == 6 {
        '6'
    } else if d == 7 {
        '7'
    } else if d == 8 {
        '8'
    } else {
        '9'
    }
}

/// The shortest base-ten rendering of a non-negative value.
pub open spec fn spec_digits(n: nat) -> Seq<char>
    decreases n,
{
    if n < 10 {
        seq![spec_digit_char(n as int)]
    } else {
        spec_digits(n / 10) + seq![spec_digit_char((n % 10) as int)]
    }
}

/// The rendering of a count of tenths as a decimal with exactly one digit
/// after the point, with a leading '-' for negative counts.
pub open spec fn spec_format_tenths(t: int) -> Seq<char> {
    let m = abs(t);
    (if t < 0 {
        "-"@
    } else {
        Seq::<char>::empty()
    }) + spec_digits(m / 10) + "."@ + seq![spec_digit_char((m % 10) as int)]
}

/// The one-character text of a digit value.
fn digit_str(d: u64) -> (r: &'static str)
    requires
        d < 10,
    ensures
        r@ =~= seq![spec_digit_char(d as int)],
{
    proof {
        reveal_strlit("0");
        reveal_strlit("1");
        reveal_strlit("2");
        reveal_strlit("3");
        reveal_strlit("4");
        reveal_strlit("5");
        reveal_strlit("6");
        reveal_strlit("7");
        reveal_strlit("8");
        reveal_strlit("9");
    }
    match d {
        0 => "0",
        1 => "1",
        2 => "2",
        3 => "3",
        4 => "4",
        5 => "5",
        6 => "6",
        7 => "7",
        8 => "8",
        _ => "9",
    }
}

/// The base-ten text of a non-negative value.
fn digits_string(n: u64) -> (s: String)
    ensures
        s@ == spec_digits(n as nat),
    decreases n,
{
    if n < 10 {
        String::from_str(digit_str(n))
    } else {
        let mut s = digits_string(n / 10);
        s.append(digit_str(n % 10));
        s
    }
}

/// Renders a count of tenths as a decimal text with one digit after the
/// point, e.g. 150 tenths as "15.0" and -5 tenths as "-0.5".
pub fn format_tenths(t: i64) -> (s: String)
    ensures
        s@ == spec_format_tenths(t as int),
{
    let mag: u64 = if t >= 0 {
        t as u64
    } else {
        ((-(t + 1)) as u64) + 1
    };
    proof {
        assert(mag == abs(t as int));
    }
    let whole = mag / 10;
    let tenth = mag % 10;
    let mut s = if t < 0 {
        String::from_str("-")
    } else {
        String::new()
    };
    let ds = digits_string(whole);
    s.append(ds.as_str());
    s.append(".");
    s.append(digit_str(tenth));
    proof {
        assert(s@ =~= spec_format_tenths(t as int));
    }
    s
}

} // verus!

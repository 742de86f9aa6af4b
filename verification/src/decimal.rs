use crate::math::mul_ratio_floor;
use vstd::arithmetic::div_mod::lemma_div_is_ordered;
use vstd::arithmetic::div_mod::lemma_div_multiples_vanish;
use vstd::arithmetic::div_mod::lemma_div_pos_is_pos;
use vstd::arithmetic::mul::lemma_mul_inequality;
use vstd::arithmetic::mul::lemma_mul_is_associative;
use vstd::arithmetic::mul::lemma_mul_is_commutative;
use vstd::arithmetic::mul::lemma_mul_left_inequality;
use vstd::arithmetic::mul::lemma_mul_nonnegative;
use vstd::prelude::*;

verus! {

/// One whole unit, in atomic units: decimals carry eighteen fractional
/// digits.
pub const DECIMAL_FRACTIONAL: u128 = 1_000_000_000_000_000_000;

/// The number of fractional digits a decimal carries.
pub const DECIMAL_PLACES: u32 = 18;

/// A fixed-point decimal: `atomics` counts units of one quintillionth.
/// Conversion-rate arithmetic is expected to carry bounded rounding error,
/// and test suites compare quantities of this type for approximate equality
/// under a caller-supplied maximum relative difference.
#[derive(Clone, Copy, Debug, PartialEq, Eq, Structural)]
pub struct Decimal {
    /// The count of atomic units; ten to the eighteenth of them make one.
    pub atomics: u128,
}

/// Ten to the `e`th power.
pub open spec fn pow10(e: nat) -> int
    decreases e,
{
    if e == 0 {
        1
    } else {
        10 * pow10((e - 1) as nat)
    }
}

/// Whether `c` is an ASCII digit (code points 48 through 57).
pub open spec fn is_ascii_digit(c: char) -> bool {
    48 <= c as u32 <= 57
}

/// The numeric value of the digit `c`.
pub open spec fn digit_val(c: char) -> int {
    c as u32 - 48
}

/// Whether every character of `s` is an ASCII digit.
pub open spec fn all_digits(s: Seq<char>) -> bool {
    forall|i: int| 0 <= i < s.len() ==> is_ascii_digit(s[i])
}

/// The value of the digit string `s`, read most significant first.
pub open spec fn digits_value(s: Seq<char>) -> int
    decreases s.len(),
{
    if s.len() == 0 {
        0
    } else {
        10 * digits_value(s.drop_last()) + digit_val(s.last())
    }
}

/// Whether `s` contains a dot.
pub open spec fn has_dot(s: Seq<char>) -> bool {
    exists|i: int| 0 <= i < s.len() && s[i] == '.'
}

/// The position of the dot of a decimal string. Meaningful when the string
/// is valid, which makes the dot unique.
pub open spec fn dot_index(s: Seq<char>) -> int {
    choose|i: int| 0 <= i < s.len() && s[i] == '.'
}

/// Whether `s` is a well-formed decimal string: a nonempty run of digits,
/// optionally followed by a dot and one to eighteen fractional digits.
/// Accepted: `"1.23"`, `"1"`, `"000012"`, `"1.123000000"`. Rejected: `""`,
/// `".23"`, `"1."`, more than one dot, more than eighteen fractional digits.
pub open spec fn valid_decimal(s: Seq<char>) -> bool {
    if has_dot(s) {
        let d = dot_index(s);
        &&& 0 < d
        &&& d + 1 < s.len()
        &&& s.len() - (d + 1) <= DECIMAL_PLACES
        &&& forall|i: int| 0 <= i < s.len() && i != d ==> is_ascii_digit(s[i])
    } else {
        &&& s.len() > 0
        &&& all_digits(s)
    }
}

/// The digits before the dot.
pub open spec fn whole_part(s: Seq<char>) -> Seq<char> {
    if has_dot(s) {
        s.subrange(0, dot_index(s))
    } else {
        s
    }
}

/// The digits after the dot.
pub open spec fn frac_part(s: Seq<char>) -> Seq<char> {
    if has_dot(s) {
        s.subrange(dot_index(s) + 1, s.len() as int)
    } else {
        Seq::empty()
    }
}

/// The atomic units that the decimal string `s` denotes: the whole part
/// scaled to atomics, plus the fractional digits padded to eighteen places.
/// Meaningful when `s` is valid.
pub open spec fn decimal_atomics(s: Seq<char>) -> int {
    digits_value(whole_part(s)) * pow10(DECIMAL_PLACES as nat) + digits_value(frac_part(s))
        * pow10((DECIMAL_PLACES - frac_part(s).len()) as nat)
}

/// Whether parsing `s` succeeds: the string is well formed and its value
/// fits the atomic range. Parsing never rounds.
pub open spec fn parses_as_decimal(s: Seq<char>) -> bool {
    valid_decimal(s) && decimal_atomics(s) <= u128::MAX
}

/// The relative difference of two atomic counts: their absolute difference
/// as a fraction of the larger, in atomic units, floored. Two zeroes differ
/// by nothing, rather than dividing by zero.
pub open spec fn spec_rel_diff(a: int, b: int) -> int {
    let diff = if a >= b {
        a - b
    } else {
        b - a
    };
    let largest = if a >= b {
        a
    } else {
        b
    };
    if largest == 0 {
        0
    } else {
        diff * pow10(DECIMAL_PLACES as nat) / largest
    }
}

proof fn lemma_pow10_pos(e: nat)
    ensures
        1 <= pow10(e),
    decreases e,
{
    if e > 0 {
        lemma_pow10_pos((e - 1) as nat);
    }
}

proof fn lemma_pow10_adds(a: nat, b: nat)
    ensures
        pow10(a + b) == pow10(a) * pow10(b),
    decreases a,
{
    if a == 0 {
        assert(pow10(b) == 1 * pow10(b));
    } else {
        lemma_pow10_adds((a - 1) as nat, b);
        assert(pow10((a - 1) as nat + b) == pow10((a - 1) as nat) * pow10(b));
        lemma_mul_is_associative(10, pow10((a - 1) as nat), pow10(b));
    }
}

proof fn lemma_pow10_mono(a: nat, b: nat)
    requires
        a <= b,
    ensures
        pow10(a) <= pow10(b),
{
    lemma_pow10_adds(a, (b - a) as nat);
    lemma_pow10_pos(a);
    lemma_pow10_pos((b - a) as nat);
    lemma_mul_left_inequality(pow10(a), 1, pow10((b - a) as nat));
}

proof fn lemma_pow10_places()
    ensures
        pow10(DECIMAL_PLACES as nat) == DECIMAL_FRACTIONAL as int,
{
    reveal_with_fuel(pow10, 19);
}

/// The value of a digit string is nonnegative and below ten to its length.
proof fn lemma_digits_value_bounds(s: Seq<char>)
    requires
        all_digits(s),
    ensures
        0 <= digits_value(s) < pow10(s.len()),
    decreases s.len(),
{
    if s.len() == 0 {
    } else {
        assert(all_digits(s.drop_last())) by {
            assert(forall|i: int|
                0 <= i < s.len() - 1 ==> s.drop_last()[i] == s[i] && is_ascii_digit(s[i]));
        }
        lemma_digits_value_bounds(s.drop_last());
        assert(is_ascii_digit(s.last()));
        assert(pow10(s.len()) == 10 * pow10((s.len() - 1) as nat));
    }
}

/// Reading further digits never shrinks the value.
proof fn lemma_digits_value_prefix(s: Seq<char>, m: int)
    requires
        all_digits(s),
        0 <= m <= s.len(),
    ensures
        digits_value(s.subrange(0, m)) <= digits_value(s),
    decreases s.len() - m,
{
    if m == s.len() {
        assert(s.subrange(0, m) =~= s);
    } else {
        lemma_digits_value_prefix(s, m + 1);
        let t = s.subrange(0, m + 1);
        assert(t.drop_last() =~= s.subrange(0, m));
        assert(t.last() == s[m]);
        assert(all_digits(s.subrange(0, m))) by {
            assert(forall|i: int|
                0 <= i < m ==> s.subrange(0, m)[i] == s[i] && is_ascii_digit(s[i]));
        }
        lemma_digits_value_bounds(s.subrange(0, m));
        assert(is_ascii_digit(s[m]));
    }
}

/// When one position holds a dot and every other position holds a digit,
/// that position is the dot the string splits at.
proof fn lemma_single_dot(s: Seq<char>, d: int)
    requires
        0 <= d < s.len(),
        s[d] == '.',
        forall|i: int| 0 <= i < s.len() && i != d ==> is_ascii_digit(s[i]),
    ensures
        has_dot(s),
        dot_index(s) == d,
{
    assert(has_dot(s));
    let d2 = dot_index(s);
    assert(0 <= d2 < s.len() && s[d2] == '.');
    if d2 != d {
        assert(is_ascii_digit(s[d2]));
        assert('.' as u32 == 46);
    }
}

/// Ten to the `e`th power, for exponents up to the decimal places.
fn pow10_u128(e: u32) -> (r: u128)
    requires
        e <= DECIMAL_PLACES,
    ensures
        r as int == pow10(e as nat),
{
    let mut f: u128 = 1;
    let mut i: u32 = 0;
    while i < e
        invariant
            i <= e <= DECIMAL_PLACES,
            f as int == pow10(i as nat),
        decreases e - i,
    {
        proof {
            lemma_pow10_mono((i + 1) as nat, DECIMAL_PLACES as nat);
            lemma_pow10_places();
        }
        f = f * 10;
        i = i + 1;
    }
    f
}

/// Reads the digits of `s` between `from` and `to` as a number. Fails
/// exactly when the value exceeds the 128-bit range.
fn digits_to_u128(s: &str, from: usize, to: usize) -> (r: Option<u128>)
    requires
        from <= to <= s@.len(),
        forall|k: int| from <= k < to ==> is_ascii_digit(s@[k]),
    ensures
        r is Some <==> digits_value(s@.subrange(from as int, to as int)) <= u128::MAX,
        r matches Some(v) ==> v == digits_value(s@.subrange(from as int, to as int)),
{
    let ghost whole = s@.subrange(from as int, to as int);
    proof {
        assert(all_digits(whole)) by {
            assert(forall|i: int|
                0 <= i < whole.len() ==> whole[i] == s@[from + i] && is_ascii_digit(s@[from + i]));
        }
    }
    let mut acc: u128 = 0;
    let mut i: usize = from;
    while i < to
        invariant
            from <= i <= to <= s@.len(),
            forall|k: int| from <= k < to ==> is_ascii_digit(s@[k]),
            whole == s@.subrange(from as int, to as int),
            all_digits(whole),
            acc as int == digits_value(s@.subrange(from as int, i as int)),
        decreases to - i,
    {
        let c = s.get_char(i);
        assert(is_ascii_digit(c));
        let d: u32 = (c as u32) - 48;
        let ghost prefix = s@.subrange(from as int, i as int);
        let ghost grown = s@.subrange(from as int, i + 1);
        proof {
            assert(grown.drop_last() =~= prefix);
            assert(grown.last() == s@[i as int]);
            assert(digits_value(grown) == 10 * (acc as int) + d);
            assert(grown =~= whole.subrange(0, i + 1 - from));
        }
        let acc10 = match acc.checked_mul(10) {
            Some(x) => x,
            None => {
                proof {
                    lemma_digits_value_prefix(whole, i + 1 - from);
                }
                return None;
            },
        };
        let next = match acc10.checked_add(d as u128) {
            Some(x) => x,
            None => {
                proof {
                    lemma_digits_value_prefix(whole, i + 1 - from);
                }
                return None;
            },
        };
        acc = next;
        i = i + 1;
    }
    proof {
        assert(s@.subrange(from as int, to as int) =~= whole);
    }
    Some(acc)
}

/// Parses a decimal string to atomic units, never rounding: `"1.23"`,
/// `"1"`, `"000012"` and `"1.123000000"` parse; the empty string, `".23"`,
/// `"1."`, a second dot, more than eighteen fractional digits, or a value
/// over the atomic range do not.
pub fn parse_decimal(s: &str) -> (r: Option<Decimal>)
    ensures
        r is Some <==> parses_as_decimal(s@),
        r matches Some(d) ==> d.atomics as int == decimal_atomics(s@),
{
    let n = s.unicode_len();
    let mut dot: usize = n;
    let mut j: usize = 0;
    while j < n
        invariant
            j <= n == s@.len(),
            dot <= n,
            dot == n ==> forall|k: int| 0 <= k < j ==> is_ascii_digit(s@[k]),
            dot < n ==> {
                &&& 0 < dot < j
                &&& s@[dot as int] == '.'
                &&& forall|k: int| 0 <= k < j && k != dot ==> is_ascii_digit(s@[k])
            },
        decreases n - j,
    {
        let c = s.get_char(j);
        let u = c as u32;
        if c == '.' {
            if dot < n {
                // A second dot: wherever the split were placed, some other
                // position would hold a dot where a digit must stand.
                proof {
                    assert('.' as u32 == 46);
                    if has_dot(s@) {
                        let d2 = dot_index(s@);
                        if d2 == dot {
                            assert(s@[j as int] == '.');
                        } else {
                            assert(s@[dot as int] == '.');
                        }
                    } else {
                        assert(s@[dot as int] == '.');
                    }
                }
                return None;
            }
            if j == 0 {
                // A leading dot leaves the whole part empty.
                proof {
                    assert('.' as u32 == 46);
                    if has_dot(s@) {
                        let d2 = dot_index(s@);
                        if d2 != 0 {
                            assert(s@[0] == '.');
                        }
                    } else {
                        assert(s@[0] == '.');
                    }
                }
                return None;
            }
            proof {
                assert(forall|k: int| 0 <= k < j ==> is_ascii_digit(s@[k]));
                assert(s@[j as int] == '.');
            }
            dot = j;
        } else if u < 48 || u > 57 {
            // Not a digit and not a dot: invalid wherever the split falls.
            proof {
                assert('.' as u32 == 46);
                if has_dot(s@) {
                    let d2 = dot_index(s@);
                    assert(s@[d2] == '.');
                    assert(j != d2);
                }
            }
            return None;
        } else {
            proof {
                assert(is_ascii_digit(s@[j as int]));
            }
        }
        j = j + 1;
    }
    if dot == n {
        // No dot: the whole string is the whole part.
        if n == 0 {
            return None;
        }
        assert(!has_dot(s@)) by {
            assert('.' as u32 == 46);
        }
        assert(valid_decimal(s@));
        let whole = match digits_to_u128(s, 0, n) {
            Some(w) => w,
            None => {
                proof {
                    assert(s@.subrange(0, n as int) =~= s@);
                    lemma_atomics_dominate_whole(s@);
                }
                return None;
            },
        };
        proof {
            assert(s@.subrange(0, n as int) =~= s@);
        }
        return scale_to_atomics(whole, 0, Ghost(s@));
    }
    proof {
        lemma_single_dot(s@, dot as int);
    }
    if dot + 1 == n {
        // A trailing dot leaves the fractional part empty.
        return None;
    }
    if n - (dot + 1) > 18 {
        return None;
    }
    assert(valid_decimal(s@));
    proof {
        assert(whole_part(s@) =~= s@.subrange(0, dot as int));
        assert(frac_part(s@) =~= s@.subrange(dot + 1, n as int));
    }
    let whole = match digits_to_u128(s, 0, dot) {
        Some(w) => w,
        None => {
            proof {
                lemma_atomics_dominate_whole(s@);
            }
            return None;
        },
    };
    let frac = match digits_to_u128(s, dot + 1, n) {
        Some(f) => f,
        None => {
            proof {
                lemma_parts_digits(s@);
                lemma_digits_value_bounds(frac_part(s@));
                lemma_pow10_mono(frac_part(s@).len() as nat, DECIMAL_PLACES as nat);
                lemma_pow10_places();
            }
            return None;
        },
    };
    let frac_places: u32 = (n - (dot + 1)) as u32;
    let factor = pow10_u128(DECIMAL_PLACES - frac_places);
    proof {
        lemma_parts_digits(s@);
        lemma_digits_value_bounds(frac_part(s@));
        lemma_pow10_adds(frac_places as nat, (DECIMAL_PLACES - frac_places) as nat);
        lemma_pow10_places();
        lemma_pow10_pos((DECIMAL_PLACES - frac_places) as nat);
        // frac * factor < 10^places * 10^(18 - places) == 10^18
        lemma_mul_inequality(
            frac as int,
            pow10(frac_places as nat) - 1,
            pow10((DECIMAL_PLACES - frac_places) as nat),
        );
        vstd::arithmetic::mul::lemma_mul_is_distributive_sub_other_way(
            pow10((DECIMAL_PLACES - frac_places) as nat),
            pow10(frac_places as nat),
            1,
        );
    }
    let scaled = frac * factor;
    scale_to_atomics(whole, scaled, Ghost(s@))
}

/// Both parts of a valid decimal string consist of digits.
proof fn lemma_parts_digits(s: Seq<char>)
    requires
        valid_decimal(s),
    ensures
        all_digits(whole_part(s)),
        all_digits(frac_part(s)),
{
    assert(all_digits(whole_part(s))) by {
        if has_dot(s) {
            let d = dot_index(s);
            assert(forall|i: int|
                0 <= i < d ==> whole_part(s)[i] == s[i] && is_ascii_digit(s[i]));
        }
    }
    assert(all_digits(frac_part(s))) by {
        if has_dot(s) {
            let d = dot_index(s);
            assert(forall|i: int|
                0 <= i < s.len() - d - 1 ==> frac_part(s)[i] == s[d + 1 + i] && is_ascii_digit(
                    s[d + 1 + i],
                ));
        }
    }
}

/// The atomic value of a valid decimal string is at least its whole part's
/// value, and at least its whole part scaled: the fraction only adds a
/// nonnegative rest.
proof fn lemma_atomics_dominate_whole(s: Seq<char>)
    requires
        valid_decimal(s),
    ensures
        digits_value(whole_part(s)) <= decimal_atomics(s),
        digits_value(whole_part(s)) * pow10(DECIMAL_PLACES as nat) <= decimal_atomics(s),
        0 <= digits_value(frac_part(s)) * pow10((DECIMAL_PLACES - frac_part(s).len()) as nat),
{
    lemma_parts_digits(s);
    let w = digits_value(whole_part(s));
    lemma_digits_value_bounds(whole_part(s));
    lemma_digits_value_bounds(frac_part(s));
    lemma_pow10_pos(DECIMAL_PLACES as nat);
    lemma_pow10_pos((DECIMAL_PLACES - frac_part(s).len()) as nat);
    if w > 0 {
        lemma_mul_left_inequality(w, 1, pow10(DECIMAL_PLACES as nat));
    } else {
        vstd::arithmetic::mul::lemma_mul_by_zero_is_zero(pow10(DECIMAL_PLACES as nat));
    }
    lemma_mul_nonnegative(
        digits_value(frac_part(s)),
        pow10((DECIMAL_PLACES - frac_part(s).len()) as nat),
    );
}

/// Combines a parsed whole part and an already scaled fractional part into
/// atomic units, failing exactly when the total exceeds the atomic range.
fn scale_to_atomics(whole: u128, scaled_frac: u128, s: Ghost<Seq<char>>) -> (r: Option<Decimal>)
    requires
        valid_decimal(s@),
        whole as int == digits_value(whole_part(s@)),
        scaled_frac as int == digits_value(frac_part(s@)) * pow10(
            (DECIMAL_PLACES - frac_part(s@).len()) as nat,
        ),
    ensures
        r is Some <==> decimal_atomics(s@) <= u128::MAX,
        r matches Some(d) ==> d.atomics as int == decimal_atomics(s@),
{
    proof {
        lemma_pow10_places();
        lemma_atomics_dominate_whole(s@);
    }
    let shifted = match whole.checked_mul(DECIMAL_FRACTIONAL) {
        Some(x) => x,
        None => {
            return None;
        },
    };
    match shifted.checked_add(scaled_frac) {
        Some(a) => Some(Decimal { atomics: a }),
        None => None,
    }
}

/// Whether `left` and `right` are approximately equal: their relative
/// difference — the absolute difference as a fraction of the larger value,
/// floored to atomic precision, zero when both are zero — is at most
/// `max_rel_diff`.
pub fn almost_eq(left: Decimal, right: Decimal, max_rel_diff: Decimal) -> (r: bool)
    ensures
        r == (spec_rel_diff(left.atomics as int, right.atomics as int) <= max_rel_diff.atomics),
{
    let diff = if left.atomics >= right.atomics {
        left.atomics - right.atomics
    } else {
        right.atomics - left.atomics
    };
    let largest = if left.atomics >= right.atomics {
        left.atomics
    } else {
        right.atomics
    };
    if largest == 0 {
        return true;
    }
    proof {
        lemma_pow10_places();
        lemma_mul_inequality(diff as int, largest as int, DECIMAL_FRACTIONAL as int);
        lemma_mul_is_commutative(largest as int, DECIMAL_FRACTIONAL as int);
        lemma_div_is_ordered(
            diff as int * DECIMAL_FRACTIONAL as int,
            largest as int * DECIMAL_FRACTIONAL as int,
            largest as int,
        );
        lemma_div_multiples_vanish(DECIMAL_FRACTIONAL as int, largest as int);
        lemma_mul_nonnegative(diff as int, DECIMAL_FRACTIONAL as int);
        lemma_div_pos_is_pos(diff as int * DECIMAL_FRACTIONAL as int, largest as int);
    }
    match mul_ratio_floor(diff, DECIMAL_FRACTIONAL, largest) {
        Some(rel) => rel <= max_rel_diff.atomics,
        None => vstd::pervasive::unreached(),
    }
}

} // verus!

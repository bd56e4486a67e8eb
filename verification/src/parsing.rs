//! Parsing of one "hh:mm" duration token into a minute count.

use vstd::prelude::*;
use vstd::string::StrSliceExecFns;

verus! {

/// A decimal digit `0`..=`9`.
pub open spec fn is_digit(c: char) -> bool {
    48 <= c as int && c as int <= 57
}

/// Numeric value of one digit character.
pub open spec fn digit_value(c: char) -> int {
    c as int - 48
}

/// Every character of `s` is a decimal digit.
pub open spec fn all_digits(s: Seq<char>) -> bool {
    forall|i: int| 0 <= i < s.len() ==> is_digit(#[trigger] s[i])
}

/// Value of a digit string read in base 10, most significant digit first.
pub open spec fn digits_value(s: Seq<char>) -> int
    decreases s.len(),
{
    if s.len() == 0 {
        0
    } else {
        digits_value(s.drop_last()) * 10 + digit_value(s.last())
    }
}

/// The integer that Rust's base-10 integer syntax reads from `s`: an optional
/// single `+` or `-` sign followed by one or more digits. `None` on any other
/// shape of text.
pub open spec fn int_of(s: Seq<char>) -> Option<int> {
    let body = if s.len() > 0 && (s[0] == '+' || s[0] == '-') {
        s.subrange(1, s.len() as int)
    } else {
        s
    };
    if body.len() > 0 && all_digits(body) {
        if s.len() > 0 && s[0] == '-' {
            Some(-digits_value(body))
        } else {
            Some(digits_value(body))
        }
    } else {
        None
    }
}

/// How many characters of `s` are colons.
pub open spec fn colon_count(s: Seq<char>) -> int
    decreases s.len(),
{
    if s.len() == 0 {
        0
    } else {
        colon_count(s.drop_last()) + (if s.last() == ':' { 1int } else { 0int })
    }
}

/// Index of the first colon of `s`, or `s.len()` where there is none.
pub open spec fn first_colon(s: Seq<char>) -> int
    decreases s.len(),
{
    if s.len() == 0 {
        0
    } else if s[0] == ':' {
        0
    } else {
        1 + first_colon(s.subrange(1, s.len() as int))
    }
}

/// What `parse_time` returns on the text `s`: the text must split on a single
/// colon into two base-10 integers h and m with h in 0..=24 and m in 0..=59;
/// the result is then h * 60 + m, and `None` in every other case.
pub open spec fn spec_parse_time(s: Seq<char>) -> Option<int> {
    if colon_count(s) == 1 {
        let h = int_of(s.subrange(0, first_colon(s)));
        let m = int_of(s.subrange(first_colon(s) + 1, s.len() as int));
        if h is Some && m is Some && 0 <= h->Some_0 <= 24 && 0 <= m->Some_0 <= 59 {
            Some(h->Some_0 * 60 + m->Some_0)
        } else {
            None
        }
    } else {
        None
    }
}

proof fn lemma_digits_value_nonneg(s: Seq<char>)
    requires
        all_digits(s),
    ensures
        digits_value(s) >= 0,
    decreases s.len(),
{
    if s.len() > 0 {
        assert forall|i: int| 0 <= i < s.drop_last().len() implies is_digit(
            #[trigger] s.drop_last()[i],
        ) by {
            assert(s.drop_last()[i] == s[i]);
        }
        lemma_digits_value_nonneg(s.drop_last());
        assert(is_digit(s.last()));
    }
}

proof fn lemma_digits_value_extend(s: Seq<char>, a: int, i: int)
    requires
        0 <= a <= i < s.len(),
    ensures
        digits_value(s.subrange(a, i + 1)) == digits_value(s.subrange(a, i)) * 10 + digit_value(
            s[i],
        ),
{
    let t = s.subrange(a, i + 1);
    assert(t.drop_last() =~= s.subrange(a, i));
    assert(t.last() == s[i]);
}

proof fn lemma_colon_count_extend(s: Seq<char>, i: int)
    requires
        0 <= i < s.len(),
    ensures
        colon_count(s.subrange(0, i + 1)) == colon_count(s.subrange(0, i)) + (if s[i] == ':' {
            1int
        } else {
            0int
        }),
{
    let t = s.subrange(0, i + 1);
    assert(t.drop_last() =~= s.subrange(0, i));
    assert(t.last() == s[i]);
}

proof fn lemma_first_colon_at(s: Seq<char>, i: int)
    requires
        0 <= i < s.len(),
        s[i] == ':',
        forall|j: int| 0 <= j < i ==> s[j] != ':',
    ensures
        first_colon(s) == i,
    decreases i,
{
    if i > 0 {
        let t = s.subrange(1, s.len() as int);
        assert(t[i - 1] == s[i]);
        assert forall|j: int| 0 <= j < i - 1 implies t[j] != ':' by {
            assert(t[j] == s[j + 1]);
        }
        lemma_first_colon_at(t, i - 1);
    }
}

proof fn lemma_colon_count_zero(s: Seq<char>)
    requires
        forall|j: int| 0 <= j < s.len() ==> s[j] != ':',
    ensures
        colon_count(s) == 0,
    decreases s.len(),
{
    if s.len() > 0 {
        assert forall|j: int| 0 <= j < s.drop_last().len() implies s.drop_last()[j] != ':' by {
            assert(s.drop_last()[j] == s[j]);
        }
        lemma_colon_count_zero(s.drop_last());
        assert(s.last() == s[s.len() - 1]);
    }
}

proof fn lemma_colon_count_single(s: Seq<char>, i: int)
    requires
        0 <= i < s.len(),
        s[i] == ':',
        forall|j: int| 0 <= j < s.len() && j != i ==> s[j] != ':',
    ensures
        colon_count(s) == 1,
    decreases s.len(),
{
    let t = s.drop_last();
    if i == s.len() - 1 {
        assert forall|j: int| 0 <= j < t.len() implies t[j] != ':' by {
            assert(t[j] == s[j]);
        }
        lemma_colon_count_zero(t);
    } else {
        assert(t[i] == s[i]);
        assert forall|j: int| 0 <= j < t.len() && j != i implies t[j] != ':' by {
            assert(t[j] == s[j]);
        }
        lemma_colon_count_single(t, i);
        assert(s.last() == s[s.len() - 1]);
    }
}

/// Reads `s[from..to]` as a base-10 integer in 0..=max, with Rust's integer
/// syntax; `None` where that text is not an integer or its value lies outside
/// the bounds.
#[verifier::loop_isolation(false)]
fn parse_component(s: &str, from: usize, to: usize, max: u32) -> (r: Option<u32>)
    requires
        from <= to <= s@.len(),
        max <= 59,
    ensures
        (match int_of(s@.subrange(from as int, to as int)) {
            Some(v) => if 0 <= v <= max {
                r == Some(v as u32)
            } else {
                r is None
            },
            None => r is None,
        }),
{
    let ghost whole = s@.subrange(from as int, to as int);
    if from == to {
        return None;
    }
    let c0 = s.get_char(from);
    proof {
        assert(c0 == whole[0]);
    }
    let has_sign = c0 == '+' || c0 == '-';
    let neg = c0 == '-';
    let start = if has_sign {
        from + 1
    } else {
        from
    };
    let ghost body = s@.subrange(start as int, to as int);
    proof {
        if has_sign {
            assert(whole.subrange(1, whole.len() as int) =~= body);
        } else {
            assert(whole =~= body);
        }
    }
    if start == to {
        assert(body.len() == 0);
        return None;
    }
    let mut i: usize = start;
    let mut acc: u32 = 0;
    let mut too_big = false;
    while i < to
        invariant
            start <= i <= to,
            to <= s@.len(),
            max <= 59,
            body == s@.subrange(start as int, to as int),
            forall|j: int| start <= j < i ==> is_digit(#[trigger] s@[j]),
            !too_big ==> acc <= max && acc == digits_value(s@.subrange(start as int, i as int)),
            too_big ==> digits_value(s@.subrange(start as int, i as int)) > max,
        decreases to - i,
    {
        let c = s.get_char(i);
        let cv = c as u32;
        if cv < 48 || cv > 57 {
            proof {
                assert(body[i - start] == s@[i as int]);
                assert(!is_digit(body[i - start]));
                assert(!all_digits(body));
            }
            return None;
        }
        proof {
            lemma_digits_value_extend(s@, start as int, i as int);
            if too_big {
                assert(digits_value(s@.subrange(start as int, i as int)) > max);
                assert(digit_value(s@[i as int]) >= 0);
            }
        }
        if !too_big {
            let d = cv - 48;
            acc = acc * 10 + d;
            if acc > max {
                too_big = true;
            }
        }
        i += 1;
    }
    proof {
        assert forall|j: int| 0 <= j < body.len() implies is_digit(#[trigger] body[j]) by {
            assert(body[j] == s@[j + start]);
        }
        assert(all_digits(body));
        lemma_digits_value_nonneg(body);
        assert(body =~= s@.subrange(start as int, to as int));
    }
    if too_big {
        return None;
    }
    if neg {
        if acc == 0 {
            return Some(0);
        } else {
            return None;
        }
    }
    Some(acc)
}

/// Parses one "hh:mm" token: exactly one colon, hours in 0..=24, minutes in
/// 0..=59; the result is hours * 60 + minutes. Any other text gives `None`.
#[verifier::loop_isolation(false)]
pub fn parse_time(input: &str) -> (r: Option<i32>)
    ensures
        r is Some <==> spec_parse_time(input@) is Some,
        r is Some ==> r->Some_0 as int == spec_parse_time(input@)->Some_0,
        r is Some ==> 0 <= r->Some_0 <= 1499,
{
    let n = input.unicode_len();
    let mut i: usize = 0;
    let mut count: usize = 0;
    let mut fc: usize = n;
    while i < n
        invariant
            0 <= i <= n,
            n == input@.len(),
            count <= i,
            count == colon_count(input@.subrange(0, i as int)),
            count == 0 ==> fc == n && (forall|j: int| 0 <= j < i ==> input@[j] != ':'),
            count > 0 ==> fc < i && input@[fc as int] == ':' && (forall|j: int|
                0 <= j < fc ==> input@[j] != ':'),
        decreases n - i,
    {
        let c = input.get_char(i);
        proof {
            lemma_colon_count_extend(input@, i as int);
        }
        if c == ':' {
            if count == 0 {
                fc = i;
            }
            count = count + 1;
        }
        i += 1;
    }
    proof {
        assert(input@.subrange(0, n as int) =~= input@);
    }
    if count != 1 {
        return None;
    }
    proof {
        lemma_first_colon_at(input@, fc as int);
    }
    let h = parse_component(input, 0, fc, 24);
    let m = parse_component(input, fc + 1, n, 59);
    match (h, m) {
        (Some(hv), Some(mv)) => {
            let total = hv * 60 + mv;
            Some(total as i32)
        },
        _ => None,
    }
}

/// No parse without exactly one colon: text that splits on ':' into fewer or
/// more than two parts is always rejected.
pub proof fn lemma_parse_time_needs_single_colon(s: Seq<char>)
    requires
        colon_count(s) != 1,
    ensures
        spec_parse_time(s) is None,
{
}

/// Decimal digit character for n in 0..=9.
pub open spec fn digit_char(n: int) -> char {
    ((48 + n) as u8) as char
}

/// Canonical decimal text of n in 0..=99, as Rust's formatter writes it.
pub open spec fn spec_decimal(n: int) -> Seq<char> {
    if n < 10 {
        seq![digit_char(n)]
    } else {
        seq![digit_char(n / 10), digit_char(n % 10)]
    }
}

proof fn lemma_int_of_decimal(n: int)
    requires
        0 <= n <= 99,
    ensures
        int_of(spec_decimal(n)) == Some(n),
        all_digits(spec_decimal(n)),
{
    let s = spec_decimal(n);
    if n < 10 {
        assert(s[0] == digit_char(n));
        assert(digit_char(n) as int == 48 + n);
        assert(all_digits(s));
        assert(s.drop_last() =~= Seq::<char>::empty());
        assert(digits_value(Seq::<char>::empty()) == 0);
        assert(digits_value(s) == digit_value(s[0]));
        assert(int_of(s) == Some(n));
    } else {
        vstd::arithmetic::div_mod::lemma_fundamental_div_mod(n, 10);
        assert(0 <= n / 10 <= 9) by (nonlinear_arith)
            requires
                10 <= n <= 99,
        ;
        assert(0 <= n % 10 <= 9);
        assert(s[0] == digit_char(n / 10) && s[1] == digit_char(n % 10));
        assert(digit_char(n / 10) as int == 48 + n / 10);
        assert(digit_char(n % 10) as int == 48 + n % 10);
        assert(all_digits(s));
        let t = s.drop_last();
        assert(t =~= seq![digit_char(n / 10)]);
        assert(t.drop_last() =~= Seq::<char>::empty());
        assert(digits_value(Seq::<char>::empty()) == 0);
        assert(digits_value(t) == digit_value(t[0]));
        assert(digits_value(s) == digits_value(t) * 10 + digit_value(s[1]));
        assert(digits_value(s) == n);
        assert(int_of(s) == Some(n));
    }
}

/// For hour and minute values written as plain decimal text "h:m", the parse
/// succeeds exactly when h lies in 0..=24 and m in 0..=59, and then returns
/// h * 60 + m; bounds up to 99 cover every one- or two-digit component.
pub proof fn lemma_parse_time_decimal(h: int, m: int)
    requires
        0 <= h <= 99,
        0 <= m <= 99,
    ensures
        spec_parse_time(spec_decimal(h) + seq![':'] + spec_decimal(m)) == (if h <= 24 && m <= 59 {
            Some(h * 60 + m)
        } else {
            None::<int>
        }),
{
    let hs = spec_decimal(h);
    let ms = spec_decimal(m);
    let s = hs + seq![':'] + ms;
    let i = hs.len() as int;
    assert(s[i] == ':');
    assert forall|j: int| 0 <= j < s.len() && j != i implies s[j] != ':' by {
        if j < i {
            assert(s[j] == hs[j]);
            assert(is_digit(hs[j])) by {
                lemma_int_of_decimal(h);
            }
        } else {
            assert(s[j] == ms[j - i - 1]);
            assert(is_digit(ms[j - i - 1])) by {
                lemma_int_of_decimal(m);
            }
        }
    }
    lemma_colon_count_single(s, i);
    lemma_first_colon_at(s, i);
    assert(s.subrange(0, i) =~= hs);
    assert(s.subrange(i + 1, s.len() as int) =~= ms);
    lemma_int_of_decimal(h);
    lemma_int_of_decimal(m);
}

/// A non-numeric component on either side of the colon is always rejected.
pub proof fn lemma_parse_time_non_numeric(s: Seq<char>)
    requires
        colon_count(s) == 1,
        int_of(s.subrange(0, first_colon(s))) is None || int_of(
            s.subrange(first_colon(s) + 1, s.len() as int),
        ) is None,
    ensures
        spec_parse_time(s) is None,
{
}

} // verus!

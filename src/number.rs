use crate::text::chars_of;
use vstd::prelude::*;

verus! {

pub open spec fn is_ascii_digit(c: char) -> bool {
    '0' <= c && c <= '9'
}

pub open spec fn all_digits(s: Seq<char>) -> bool {
    forall|k: int| 0 <= k < s.len() ==> is_ascii_digit(#[trigger] s[k])
}

/// The value of a string of decimal digits.
pub open spec fn digits_value(s: Seq<char>) -> int
    decreases s.len(),
{
    if s.len() == 0 {
        0
    } else {
        digits_value(s.drop_last()) * 10 + (s.last() as int - '0' as int)
    }
}

/// The value of `s` where it is one or more decimal digits and the value is at most `max`.
pub open spec fn bounded_number(s: Seq<char>, max: int) -> Option<int> {
    if s.len() > 0 && all_digits(s) && digits_value(s) <= max {
        Some(digits_value(s))
    } else {
        None
    }
}

proof fn lemma_digits_value_grows(s: Seq<char>)
    requires
        s.len() > 0,
        all_digits(s),
    ensures
        digits_value(s) >= digits_value(s.drop_last()),
        digits_value(s.drop_last()) >= 0,
    decreases s.len(),
{
    if s.len() > 1 {
        let t = s.drop_last();
        assert(forall|k: int| 0 <= k < t.len() ==> #[trigger] t[k] == s[k]);
        lemma_digits_value_grows(t);
    }
}

proof fn lemma_prefix_value_bound(d: Seq<char>, m: int, max: int)
    requires
        0 < m <= d.len(),
        digits_value(d.subrange(0, m)) > max,
    ensures
        !(all_digits(d) && digits_value(d) <= max),
    decreases d.len() - m,
{
    if all_digits(d) {
        if m == d.len() {
            assert(d.subrange(0, m) =~= d);
        } else {
            let p = d.subrange(0, m + 1);
            assert(forall|k: int| 0 <= k < p.len() ==> #[trigger] p[k] == d[k]);
            lemma_digits_value_grows(p);
            assert(p.drop_last() =~= d.subrange(0, m));
            lemma_prefix_value_bound(d, m + 1, max);
        }
    }
}

/// Reads one or more decimal digits whose value is at most `max`.
pub fn digits_number(cs: &[char], max: u64) -> (r: Option<u64>)
    ensures
        match bounded_number(cs@, max as int) {
            Some(v) => r == Some(v as u64) && 0 <= v <= max,
            None => r is None,
        },
        r matches Some(v) ==> v <= max,
{
    if cs.len() == 0 {
        return None;
    }
    let mut v: u64 = 0;
    let mut i: usize = 0;
    while i < cs.len()
        invariant
            i <= cs@.len(),
            forall|k: int| 0 <= k < i ==> is_ascii_digit(#[trigger] cs@[k]),
            v as int == digits_value(cs@.subrange(0, i as int)),
            v <= max,
        decreases cs@.len() - i,
    {
        let c = cs[i];
        if !('0' <= c && c <= '9') {
            assert(!is_ascii_digit(cs@[i as int]));
            return None;
        }
        let d = (c as u32 - '0' as u32) as u64;
        let ghost pre = cs@.subrange(0, i + 1);
        assert(pre.drop_last() =~= cs@.subrange(0, i as int));
        if d > max {
            proof {
                assert(v * 10 + d > max) by (nonlinear_arith)
                    requires
                        d > max,
                        v >= 0,
                ;
                lemma_prefix_value_bound(cs@, i + 1, max as int);
            }
            return None;
        }
        if v > (max - d) / 10 {
            proof {
                assert(v * 10 + d > max) by (nonlinear_arith)
                    requires
                        v > (max - d) / 10,
                        d <= max,
                ;
                lemma_prefix_value_bound(cs@, i + 1, max as int);
            }
            return None;
        }
        assert(v * 10 + d <= max) by (nonlinear_arith)
            requires
                v <= (max - d) / 10,
                d <= max,
        ;
        v = v * 10 + d;
        i = i + 1;
    }
    assert(cs@.subrange(0, i as int) =~= cs@);
    Some(v)
}

/// `s` without a leading `+`.
pub open spec fn unsigned_part(s: Seq<char>) -> Seq<char> {
    if s.len() > 0 && s[0] == '+' {
        s.drop_first()
    } else {
        s
    }
}

/// The number that `s` writes, as `str::parse` reads an unsigned integer no larger than
/// `max`: an optional `+`, then one or more decimal digits.
pub open spec fn unsigned_of(s: Seq<char>, max: int) -> Option<int> {
    bounded_number(unsigned_part(s), max)
}

/// The `u32` that `s` writes, as `str::parse::<u32>` reads it.
pub open spec fn u32_of(s: Seq<char>) -> Option<u32> {
    match unsigned_of(s, u32::MAX as int) {
        Some(v) => Some(v as u32),
        None => None,
    }
}

fn unsigned_number(cs: &[char], max: u64) -> (r: Option<u64>)
    ensures
        match unsigned_of(cs@, max as int) {
            Some(v) => r == Some(v as u64) && 0 <= v <= max,
            None => r is None,
        },
        r matches Some(v) ==> v <= max,
{
    if cs.len() > 0 && cs[0] == '+' {
        let rest = cs.split_at(1).1;
        assert(rest@ =~= cs@.drop_first());
        digits_number(rest, max)
    } else {
        digits_number(cs, max)
    }
}

/// Reads a decimal `u32` as `str::parse::<u32>` does.
pub fn parse_u32(s: &str) -> (r: Option<u32>)
    ensures
        r == u32_of(s@),
{
    let cs = chars_of(s);
    match unsigned_number(cs.as_slice(), u32::MAX as u64) {
        Some(v) => Some(v as u32),
        None => None,
    }
}

/// Reads a decimal `usize` as `str::parse::<usize>` does.
pub fn parse_usize(cs: &[char]) -> (r: Option<usize>)
    ensures
        match unsigned_of(cs@, usize::MAX as int) {
            Some(v) => r == Some(v as usize),
            None => r is None,
        },
{
    match unsigned_number(cs, usize::MAX as u64) {
        Some(v) => Some(v as usize),
        None => None,
    }
}

/// A non-negative decimal number: `digits` divided by ten to the power `scale`. Numbers that
/// are read come without trailing zeros after the point, so that equal numbers are equal
/// values.
#[derive(Clone, Copy, Debug, PartialEq, Eq, Hash, Structural)]
pub struct Decimal {
    pub digits: u64,
    pub scale: u32,
}

/// The position of the first `.` in `s` at or after `i`, or the length of `s`.
pub open spec fn first_dot(s: Seq<char>, i: int) -> int
    decreases s.len() - i,
{
    if 0 <= i < s.len() && s[i] != '.' {
        first_dot(s, i + 1)
    } else {
        i
    }
}

/// The number that `s` writes: decimal digits, with at most one `.` among or around them,
/// and at least one digit. The digits, read as one integer, must fit in a `u64`.
pub open spec fn decimal_of(s: Seq<char>) -> Option<Decimal> {
    let k = first_dot(s, 0);
    let frac = if k < s.len() {
        s.subrange(k + 1, s.len() as int)
    } else {
        Seq::empty()
    };
    let all = s.subrange(0, k) + frac;
    match bounded_number(all, u64::MAX as int) {
        Some(v) => if frac.len() <= u32::MAX {
            Some(normalized(Decimal { digits: v as u64, scale: frac.len() as u32 }))
        } else {
            None
        },
        None => None,
    }
}

/// Whether a decimal is written without trailing zeros after its point.
pub open spec fn is_normal(d: Decimal) -> bool {
    d.scale == 0 || d.digits % 10 != 0
}

/// The same number without trailing zeros after its point.
pub open spec fn normalized(d: Decimal) -> Decimal
    decreases d.scale,
{
    if d.scale > 0 && d.digits % 10 == 0 {
        normalized(Decimal { digits: d.digits / 10, scale: (d.scale - 1) as u32 })
    } else {
        d
    }
}

/// The same number without trailing zeros after its point.
pub fn normalize(d: Decimal) -> (r: Decimal)
    ensures
        r == normalized(d),
        is_normal(r),
{
    let mut x = d;
    while x.scale > 0 && x.digits % 10 == 0
        invariant
            normalized(x) == normalized(d),
        decreases x.scale,
    {
        x = Decimal { digits: x.digits / 10, scale: x.scale - 1 };
    }
    x
}

/// Reads a decimal number: digits with at most one `.`.
pub fn parse_decimal(cs: &[char]) -> (r: Option<Decimal>)
    ensures
        r == decimal_of(cs@),
        r matches Some(d) ==> is_normal(d),
{
    let mut k: usize = 0;
    while k < cs.len() && cs[k] != '.'
        invariant
            k <= cs@.len(),
            first_dot(cs@, 0) == first_dot(cs@, k as int),
        decreases cs@.len() - k,
    {
        k = k + 1;
    }
    let mut all: Vec<char> = Vec::new();
    let mut i: usize = 0;
    while i < cs.len()
        invariant
            k == first_dot(cs@, 0),
            k <= cs@.len(),
            i <= cs@.len(),
            i <= k ==> all@ == cs@.subrange(0, i as int),
            i > k ==> all@ == cs@.subrange(0, k as int) + cs@.subrange(k + 1, i as int),
        decreases cs@.len() - i,
    {
        if i != k {
            let ghost before = all@;
            all.push(cs[i]);
            proof {
                if i < k {
                    assert(all@ =~= cs@.subrange(0, i + 1));
                } else {
                    assert(all@ =~= cs@.subrange(0, k as int) + cs@.subrange(k + 1, i + 1));
                }
            }
        } else {
            assert(cs@.subrange(k + 1, i + 1) =~= Seq::<char>::empty());
            assert(all@ =~= cs@.subrange(0, k as int) + cs@.subrange(k + 1, i + 1));
        }
        i = i + 1;
    }
    let scale: usize = if k < cs.len() {
        cs.len() - k - 1
    } else {
        0
    };
    proof {
        if k < cs@.len() {
            assert(all@ == cs@.subrange(0, k as int) + cs@.subrange(k + 1, cs@.len() as int));
        } else {
            assert(all@ =~= cs@.subrange(0, k as int) + Seq::<char>::empty());
        }
    }
    if scale > u32::MAX as usize {
        return None;
    }
    match digits_number(all.as_slice(), u64::MAX) {
        Some(v) => Some(normalize(Decimal { digits: v, scale: scale as u32 })),
        None => None,
    }
}

/// The character of a decimal digit.
pub open spec fn digit_char(d: int) -> char {
    if d == 0 {
        '0'
    } else if d == 1 {
        '1'
    } else if d == 2 {
        '2'
    } else if d == 3 {
        '3'
    } else if d == 4 {
        '4'
    } else if d == 5 {
        '5'
    } else if d == 6 {
        '6'
    } else if d == 7 {
        '7'
    } else if d == 8 {
        '8'
    } else {
        '9'
    }
}

/// The decimal digits of `n`, without leading zeros.
pub open spec fn to_digits(n: nat) -> Seq<char>
    decreases n,
{
    if n < 10 {
        seq![digit_char(n as int)]
    } else {
        to_digits(n / 10).push(digit_char((n % 10) as int))
    }
}

/// `k` zeros.
pub open spec fn zeros(k: nat) -> Seq<char> {
    Seq::new(k, |i: int| '0')
}

proof fn lemma_digit_char(d: int)
    requires
        0 <= d < 10,
    ensures
        is_ascii_digit(digit_char(d)),
        digit_char(d) as int - '0' as int == d,
{
}

/// The digits of a number read back give the number.
pub proof fn lemma_to_digits(n: nat)
    ensures
        to_digits(n).len() >= 1,
        all_digits(to_digits(n)),
        digits_value(to_digits(n)) == n,
    decreases n,
{
    if n < 10 {
        lemma_digit_char(n as int);
        assert(to_digits(n).drop_last() =~= Seq::<char>::empty());
        assert(digits_value(Seq::<char>::empty()) == 0);
    } else {
        lemma_to_digits(n / 10);
        lemma_digit_char((n % 10) as int);
        let s = to_digits(n);
        assert(s.drop_last() =~= to_digits(n / 10));
        assert(s.last() == digit_char((n % 10) as int));
        assert((n / 10) * 10 + n % 10 == n);
        assert forall|k: int| 0 <= k < s.len() implies is_ascii_digit(#[trigger] s[k]) by {
            if k < s.len() - 1 {
                assert(s[k] == to_digits(n / 10)[k]);
            }
        }
    }
}

/// Leading zeros do not change the value of a string of digits.
pub proof fn lemma_leading_zeros(k: nat, t: Seq<char>)
    ensures
        digits_value(zeros(k) + t) == digits_value(t),
    decreases t.len(), k,
{
    if t.len() == 0 {
        assert(zeros(k) + t =~= zeros(k));
        if k > 0 {
            assert(zeros(k).drop_last() =~= zeros((k - 1) as nat));
            lemma_leading_zeros((k - 1) as nat, t);
            assert(zeros((k - 1) as nat) + t =~= zeros((k - 1) as nat));
        }
    } else {
        assert((zeros(k) + t).drop_last() =~= zeros(k) + t.drop_last());
        lemma_leading_zeros(k, t.drop_last());
    }
}

proof fn lemma_first_dot_skips_digits(s: Seq<char>, i: int, e: int)
    requires
        0 <= i <= e <= s.len(),
        forall|k: int| i <= k < e ==> is_ascii_digit(#[trigger] s[k]),
        e == s.len() || s[e] == '.',
    ensures
        first_dot(s, i) == e,
    decreases e - i,
{
    if i < e {
        lemma_first_dot_skips_digits(s, i + 1, e);
    }
}

/// How a decimal is written: its digits, with a `.` before the last `scale` of them, padded
/// with zeros so that at least one digit stands before the `.`.
pub open spec fn decimal_text(d: Decimal) -> Seq<char> {
    let raw = to_digits(d.digits as nat);
    if d.scale == 0 {
        raw
    } else {
        let padded = if raw.len() <= d.scale {
            zeros((d.scale + 1 - raw.len()) as nat) + raw
        } else {
            raw
        };
        let cut = padded.len() - d.scale;
        padded.subrange(0, cut) + seq!['.'] + padded.subrange(cut, padded.len() as int)
    }
}

/// Writing a decimal without trailing zeros after its point and reading it back gives the
/// same decimal.
pub proof fn lemma_decimal_round_trip(d: Decimal)
    requires
        is_normal(d),
    ensures
        decimal_of(decimal_text(d)) == Some(d),
{
    let raw = to_digits(d.digits as nat);
    lemma_to_digits(d.digits as nat);
    let s = decimal_text(d);
    if d.scale == 0 {
        lemma_first_dot_skips_digits(s, 0, s.len() as int);
        assert(s.subrange(0, s.len() as int) + Seq::<char>::empty() =~= s);
    } else {
        let padded = if raw.len() <= d.scale {
            zeros((d.scale + 1 - raw.len()) as nat) + raw
        } else {
            raw
        };
        assert(all_digits(padded) && digits_value(padded) == d.digits) by {
            if raw.len() <= d.scale {
                let z = zeros((d.scale + 1 - raw.len()) as nat);
                lemma_leading_zeros((d.scale + 1 - raw.len()) as nat, raw);
                assert forall|k: int| 0 <= k < padded.len() implies is_ascii_digit(
                    #[trigger] padded[k],
                ) by {
                    if k < z.len() {
                        assert(padded[k] == '0');
                    } else {
                        assert(padded[k] == raw[k - z.len()]);
                    }
                }
            }
        }
        let cut = padded.len() - d.scale;
        let a = padded.subrange(0, cut);
        let b = padded.subrange(cut, padded.len() as int);
        assert(s == a + seq!['.'] + b);
        assert(s[a.len() as int] == '.');
        assert forall|k: int| 0 <= k < a.len() implies is_ascii_digit(#[trigger] s[k]) by {
            assert(s[k] == padded[k]);
        }
        lemma_first_dot_skips_digits(s, 0, a.len() as int);
        assert(s.subrange(0, a.len() as int) =~= a);
        assert(s.subrange(a.len() as int + 1, s.len() as int) =~= b);
        assert(a + b =~= padded);
    }
}

/// The decimal digits of `n`.
pub fn digits_of(n: u64) -> (r: Vec<char>)
    ensures
        r@ == to_digits(n as nat),
{
    let mut q = n;
    let mut low: Vec<char> = Vec::new();
    while q >= 10
        invariant
            to_digits(n as nat) == to_digits(q as nat) + low@,
        decreases q,
    {
        let d = digit(q % 10);
        let ghost before = low@;
        low.insert(0, d);
        assert(to_digits(q as nat) =~= to_digits((q / 10) as nat).push(d));
        assert(to_digits((q / 10) as nat).push(d) + before =~= to_digits((q / 10) as nat) + low@);
        q = q / 10;
    }
    let mut out: Vec<char> = Vec::new();
    out.push(digit(q));
    out.append(&mut low);
    out
}

fn digit(d: u64) -> (r: char)
    requires
        d < 10,
    ensures
        r == digit_char(d as int),
{
    if d == 0 {
        '0'
    } else if d == 1 {
        '1'
    } else if d == 2 {
        '2'
    } else if d == 3 {
        '3'
    } else if d == 4 {
        '4'
    } else if d == 5 {
        '5'
    } else if d == 6 {
        '6'
    } else if d == 7 {
        '7'
    } else if d == 8 {
        '8'
    } else {
        '9'
    }
}

impl Decimal {
    /// How the decimal is written: digits, with a `.` before the last `scale` of them.
    pub fn text(&self) -> (r: Vec<char>)
        ensures
            r@ == decimal_text(*self),
    {
        let raw = digits_of(self.digits);
        if self.scale == 0 {
            return raw;
        }
        let scale = self.scale as usize;
        let mut padded: Vec<char> = Vec::new();
        if raw.len() <= scale {
            let k = scale - raw.len() + 1;
            let mut i: usize = 0;
            while i < k
                invariant
                    i <= k,
                    padded@ == zeros(i as nat),
                decreases k - i,
            {
                padded.push('0');
                assert(padded@ =~= zeros((i + 1) as nat));
                i = i + 1;
            }
        }
        let mut j: usize = 0;
        let ghost pad = padded@;
        while j < raw.len()
            invariant
                j <= raw@.len(),
                padded@ == pad + raw@.subrange(0, j as int),
            decreases raw@.len() - j,
        {
            padded.push(raw[j]);
            assert(raw@.subrange(0, j + 1) =~= raw@.subrange(0, j as int).push(raw@[j as int]));
            j = j + 1;
        }
        assert(raw@.subrange(0, j as int) =~= raw@);
        assert(padded@ =~= if raw@.len() <= self.scale {
            zeros((self.scale + 1 - raw@.len()) as nat) + raw@
        } else {
            raw@
        });
        let cut = padded.len() - scale;
        let mut out: Vec<char> = Vec::new();
        let mut i: usize = 0;
        while i < padded.len()
            invariant
                cut <= padded@.len(),
                i <= padded@.len(),
                i <= cut ==> out@ == padded@.subrange(0, i as int),
                i > cut ==> out@ == padded@.subrange(0, cut as int) + seq!['.'] + padded@.subrange(
                    cut as int,
                    i as int,
                ),
            decreases padded@.len() - i,
        {
            if i == cut {
                out.push('.');
                assert(out@ =~= padded@.subrange(0, cut as int) + seq!['.'] + padded@.subrange(
                    cut as int,
                    i as int,
                ));
            }
            out.push(padded[i]);
            proof {
                if i < cut {
                    assert(out@ =~= padded@.subrange(0, i + 1));
                } else {
                    assert(out@ =~= padded@.subrange(0, cut as int) + seq!['.'] + padded@.subrange(
                        cut as int,
                        i + 1,
                    ));
                }
            }
            i = i + 1;
        }
        proof {
            if cut == padded@.len() {
                assert(false);
            }
        }
        out
    }
}

} // verus!

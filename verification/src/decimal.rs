//! Decimal formatting (`format!("{}", n)`) and parsing (`str::parse`) of integers.
use vstd::prelude::*;

verus! {

/// The ASCII digit for `d`, for `0 <= d < 10`.
pub open spec fn digit_char(d: int) -> char {
    if d == 0 {
        '0'
    } else if d == 1 {
        '1'
    } else if d == 2 {
        '2'
    } else if d == 3 {
        '3'
    } else if d == 4 {
        '4'
    } else if d == 5 {
        '5'
    } else if d == 6 {
        '6'
    } else if d == 7 {
        '7'
    } else if d == 8 {
        '8'
    } else {
        '9'
    }
}

/// The value of an ASCII digit, if `c` is one.
pub open spec fn digit_value(c: char) -> Option<int> {
    if c == '0' {
        Some(0)
    } else if c == '1' {
        Some(1)
    } else if c == '2' {
        Some(2)
    } else if c == '3' {
        Some(3)
    } else if c == '4' {
        Some(4)
    } else if c == '5' {
        Some(5)
    } else if c == '6' {
        Some(6)
    } else if c == '7' {
        Some(7)
    } else if c == '8' {
        Some(8)
    } else if c == '9' {
        Some(9)
    } else {
        None
    }
}

/// The decimal digits of `n`, without leading zeros (`"0"` for zero).
pub open spec fn nat_to_dec(n: nat) -> Seq<char>
    decreases n,
{
    if n < 10 {
        seq![digit_char(n as int)]
    } else {
        nat_to_dec(n / 10).push(digit_char((n % 10) as int))
    }
}

/// The decimal representation of `n`, as `Display` writes an integer.
pub open spec fn int_to_dec(n: int) -> Seq<char> {
    if n < 0 {
        seq!['-'] + nat_to_dec((-n) as nat)
    } else {
        nat_to_dec(n as nat)
    }
}

fn digit_to_char(d: u64) -> (c: char)
    requires
        d < 10,
    ensures
        c == digit_char(d as int),
{
    if d == 0 {
        '0'
    } else if d == 1 {
        '1'
    } else if d == 2 {
        '2'
    } else if d == 3 {
        '3'
    } else if d == 4 {
        '4'
    } else if d == 5 {
        '5'
    } else if d == 6 {
        '6'
    } else if d == 7 {
        '7'
    } else if d == 8 {
        '8'
    } else {
        '9'
    }
}

/// The decimal digits of `n`.
pub fn u64_to_dec(n: u64) -> (r: Vec<char>)
    ensures
        r@ == nat_to_dec(n as nat),
    decreases n,
{
    if n < 10 {
        let mut v: Vec<char> = Vec::new();
        v.push(digit_to_char(n));
        assert(v@ =~= seq![digit_char(n as int)]);
        v
    } else {
        let mut v = u64_to_dec(n / 10);
        v.push(digit_to_char(n % 10));
        v
    }
}

/// The decimal representation of `n`.
pub fn i64_to_dec(n: i64) -> (r: Vec<char>)
    ensures
        r@ == int_to_dec(n as int),
{
    if n < 0 {
        let m: u64 = ((-(n + 1)) as u64) + 1;
        let digits = u64_to_dec(m);
        let mut v: Vec<char> = Vec::new();
        v.push('-');
        let mut i: usize = 0;
        while i < digits.len()
            invariant
                i <= digits.len(),
                v@ == seq!['-'] + digits@.take(i as int),
            decreases digits.len() - i,
        {
            v.push(digits[i]);
            i = i + 1;
            assert(v@ =~= seq!['-'] + digits@.take(i as int));
        }
        assert(digits@.take(digits.len() as int) =~= digits@);
        v
    } else {
        u64_to_dec(n as u64)
    }
}

/// The decimal representation of `n`.
pub fn i32_to_dec(n: i32) -> (r: Vec<char>)
    ensures
        r@ == int_to_dec(n as int),
{
    i64_to_dec(n as i64)
}

/// The decimal representation of `n`.
pub fn usize_to_dec(n: usize) -> (r: Vec<char>)
    ensures
        r@ == int_to_dec(n as int),
{
    u64_to_dec(n as u64)
}

// ---------------------------------------------------------------------------
// Parsing
// ---------------------------------------------------------------------------

/// Every character of `ds` is an ASCII digit.
pub open spec fn all_digits(ds: Seq<char>) -> bool {
    forall|i: int| 0 <= i < ds.len() ==> (#[trigger] digit_value(ds[i])) is Some
}

/// The number that the decimal digits `ds` denote.
pub open spec fn digits_value(ds: Seq<char>) -> int
    decreases ds.len(),
{
    if ds.len() == 0 {
        0
    } else {
        digits_value(ds.drop_last()) * 10 + digit_value(ds.last()).unwrap_or(0)
    }
}

/// What `str::parse` reads from `s` for an integer type, before the range check:
/// an optional `+` (or `-` when `signed`), then one or more ASCII digits, nothing else.
pub open spec fn parse_int_spec(s: Seq<char>, signed: bool) -> Option<int> {
    if s.len() == 0 {
        None
    } else if (s[0] == '+' || s[0] == '-') && s.len() == 1 {
        None
    } else {
        let neg = signed && s[0] == '-';
        let ds = if s[0] == '+' || neg {
            s.drop_first()
        } else {
            s
        };
        if all_digits(ds) {
            Some(
                if neg {
                    -digits_value(ds)
                } else {
                    digits_value(ds)
                },
            )
        } else {
            None
        }
    }
}

/// What `str::parse` gives for an integer type whose values run from `lo` to `hi`.
pub open spec fn parse_in_range(s: Seq<char>, signed: bool, lo: int, hi: int) -> Option<int> {
    match parse_int_spec(s, signed) {
        Some(v) => if lo <= v <= hi {
            Some(v)
        } else {
            None
        },
        None => None,
    }
}

proof fn lemma_digits_value_nonneg(ds: Seq<char>)
    ensures
        digits_value(ds) >= 0,
    decreases ds.len(),
{
    if ds.len() > 0 {
        lemma_digits_value_nonneg(ds.drop_last());
    }
}

/// The digits written for `n` are decimal digits and read back as `n`.
pub proof fn lemma_nat_to_dec_reads_back(n: nat)
    ensures
        nat_to_dec(n).len() >= 1,
        all_digits(nat_to_dec(n)),
        digits_value(nat_to_dec(n)) == n,
    decreases n,
{
    if n >= 10 {
        lemma_nat_to_dec_reads_back(n / 10);
        lemma_digit_char_value((n % 10) as int);
        let s = nat_to_dec(n / 10);
        let t = s.push(digit_char((n % 10) as int));
        assert(t.drop_last() =~= s);
        assert(nat_to_dec(n) == t);
        assert(t.last() == digit_char((n % 10) as int));
        assert(digits_value(t) == digits_value(s) * 10 + digit_value(t.last()).unwrap_or(0));
        assert(digits_value(t) == (n / 10) * 10 + n % 10);
        assert(n == (n / 10) * 10 + n % 10);
        assert forall|i: int| 0 <= i < t.len() implies (#[trigger] digit_value(t[i])) is Some by {
            if i < s.len() {
                assert(t[i] == s[i]);
            }
        }
    } else {
        lemma_digit_char_value(n as int);
        let t = seq![digit_char(n as int)];
        assert(t.drop_last() =~= Seq::<char>::empty());
        assert(nat_to_dec(n) == t);
        assert(digits_value(t) == digits_value(t.drop_last()) * 10 + digit_value(t.last()).unwrap_or(0));
    }
}

/// The digit written for `d` reads back as `d`.
proof fn lemma_digit_char_value(d: int)
    requires
        0 <= d < 10,
    ensures
        digit_value(digit_char(d)) == Some(d),
{
}

/// What `Display` writes for an integer, `str::parse` reads back.
pub proof fn lemma_int_to_dec_parses(n: int)
    ensures
        parse_int_spec(int_to_dec(n), true) == Some(n),
{
    if n < 0 {
        let m = (-n) as nat;
        lemma_nat_to_dec_reads_back(m);
        let s = int_to_dec(n);
        assert(s.drop_first() =~= nat_to_dec(m));
        assert(s[0] == '-');
    } else {
        lemma_nat_to_dec_reads_back(n as nat);
        let s = nat_to_dec(n as nat);
        assert(digit_value(s[0]) is Some);
    }
}

/// `Display` writes an integer with digits and, before a negative one, a `-`: never the
/// character `c` when it is neither.
pub proof fn lemma_int_to_dec_avoids(n: int, c: char)
    requires
        digit_value(c) is None,
        c != '-',
    ensures
        !int_to_dec(n).contains(c),
{
    if n < 0 {
        let m = (-n) as nat;
        lemma_nat_to_dec_reads_back(m);
        let s = int_to_dec(n);
        assert forall|i: int| 0 <= i < s.len() implies s[i] != c by {
            if i > 0 {
                assert(s[i] == nat_to_dec(m)[i - 1]);
                assert(digit_value(nat_to_dec(m)[i - 1]) is Some);
            }
        }
    } else {
        lemma_nat_to_dec_reads_back(n as nat);
        let s = nat_to_dec(n as nat);
        assert forall|i: int| 0 <= i < s.len() implies s[i] != c by {
            assert(digit_value(s[i]) is Some);
        }
    }
}

fn char_digit(c: char) -> (r: Option<u64>)
    ensures
        r is Some <==> digit_value(c) is Some,
        r matches Some(d) ==> d < 10 && digit_value(c) == Some(d as int),
{
    if c == '0' {
        Some(0)
    } else if c == '1' {
        Some(1)
    } else if c == '2' {
        Some(2)
    } else if c == '3' {
        Some(3)
    } else if c == '4' {
        Some(4)
    } else if c == '5' {
        Some(5)
    } else if c == '6' {
        Some(6)
    } else if c == '7' {
        Some(7)
    } else if c == '8' {
        Some(8)
    } else if c == '9' {
        Some(9)
    } else {
        None
    }
}

/// Reads the magnitude of a decimal number: `Ok(Some(v))` for the value of an all-digit
/// sequence up to `bound`, `Ok(None)` when the digits denote more than `bound`,
/// `Err(())` when a character is not a digit.
fn read_digits(ds: &Vec<char>, start: usize, bound: u64) -> (r: Result<Option<u64>, ()>)
    requires
        start <= ds.len(),
    ensures
        ({
            let t = ds@.skip(start as int);
            match r {
                Ok(Some(v)) => all_digits(t) && digits_value(t) == v && v <= bound,
                Ok(None) => (!all_digits(t)) || digits_value(t) > bound,
                Err(()) => !all_digits(t),
            }
        }),
{
    let ghost t = ds@.skip(start as int);
    let mut acc: u64 = 0;
    let mut i: usize = start;
    let mut over = false;
    while i < ds.len()
        invariant
            start <= i <= ds.len(),
            t == ds@.skip(start as int),
            acc <= bound,
            all_digits(t.take(i - start)),
            !over ==> digits_value(t.take(i - start)) == acc,
            over ==> digits_value(t.take(i - start)) > bound,
        decreases ds.len() - i,
    {
        let k: Ghost<int> = Ghost(i - start);
        assert(t.take(k@ + 1).drop_last() =~= t.take(k@));
        assert(t.take(k@ + 1).last() == ds@[i as int]);
        match char_digit(ds[i]) {
            None => {
                assert(!all_digits(t)) by {
                    assert(digit_value(t[k@]) is None);
                }
                return Err(());
            },
            Some(d) => {
                assert forall|j: int| 0 <= j < t.take(k@ + 1).len() implies (#[trigger] digit_value(
                    t.take(k@ + 1)[j],
                )) is Some by {
                    if j < k@ {
                        assert(t.take(k@ + 1)[j] == t.take(k@)[j]);
                    }
                }
                if !over {
                    if d > bound || acc > (bound - d) / 10 {
                        over = true;
                        assert(digits_value(t.take(k@ + 1)) == acc * 10 + d);
                        if d <= bound {
                            assert(acc * 10 + d > bound) by (nonlinear_arith)
                                requires
                                    acc > (bound - d) / 10,
                                    d <= bound,
                            ;
                        }
                    } else {
                        assert(acc * 10 + d <= bound) by (nonlinear_arith)
                            requires
                                acc <= (bound - d) / 10,
                                d <= bound,
                        ;
                        acc = acc * 10 + d;
                    }
                } else {
                    proof { lemma_digits_value_nonneg(t.take(k@)); }
                    assert(digits_value(t.take(k@ + 1)) >= digits_value(t.take(k@))) by (
                    nonlinear_arith)
                        requires
                            digits_value(t.take(k@ + 1)) == digits_value(t.take(k@)) * 10 + d,
                            digits_value(t.take(k@)) >= 0,
                            d >= 0,
                    ;
                }
            },
        }
        i = i + 1;
    }
    assert(t.take(i - start) =~= t);
    if over {
        Ok(None)
    } else {
        Ok(Some(acc))
    }
}

/// `str::parse` for an integer type with values from `lo` to `hi`; `signed` says whether
/// the type accepts a leading `-`.
pub fn parse_int(s: &Vec<char>, signed: bool, lo: i128, hi: i128) -> (r: Option<i128>)
    requires
        lo <= 0 <= hi,
        hi <= u64::MAX,
        -lo <= u64::MAX,
    ensures
        match r {
            Some(v) => parse_in_range(s@, signed, lo as int, hi as int) == Some(v as int),
            None => parse_in_range(s@, signed, lo as int, hi as int) is None,
        },
{
    if s.len() == 0 {
        return None;
    }
    let c0 = s[0];
    if (c0 == '+' || c0 == '-') && s.len() == 1 {
        return None;
    }
    let neg = signed && c0 == '-';
    let start: usize = if c0 == '+' || neg {
        1
    } else {
        0
    };
    assert(s@.skip(1) =~= s@.drop_first());
    assert(s@.skip(0) =~= s@);
    let bound: u64 = if neg {
        (-lo) as u64
    } else {
        hi as u64
    };
    match read_digits(s, start, bound) {
        Err(()) => None,
        Ok(None) => None,
        Ok(Some(v)) => {
            if neg {
                Some(-(v as i128))
            } else {
                Some(v as i128)
            }
        },
    }
}

/// `str::parse::<i64>`.
pub fn parse_i64(s: &Vec<char>) -> (r: Option<i64>)
    ensures
        match r {
            Some(v) => parse_in_range(s@, true, i64::MIN as int, i64::MAX as int) == Some(v as int),
            None => parse_in_range(s@, true, i64::MIN as int, i64::MAX as int) is None,
        },
{
    match parse_int(s, true, i64::MIN as i128, i64::MAX as i128) {
        Some(v) => Some(v as i64),
        None => None,
    }
}

/// `str::parse::<i32>`.
pub fn parse_i32(s: &Vec<char>) -> (r: Option<i32>)
    ensures
        match r {
            Some(v) => parse_in_range(s@, true, i32::MIN as int, i32::MAX as int) == Some(v as int),
            None => parse_in_range(s@, true, i32::MIN as int, i32::MAX as int) is None,
        },
{
    match parse_int(s, true, i32::MIN as i128, i32::MAX as i128) {
        Some(v) => Some(v as i32),
        None => None,
    }
}

/// `str::parse::<u64>`.
pub fn parse_u64(s: &Vec<char>) -> (r: Option<u64>)
    ensures
        match r {
            Some(v) => parse_in_range(s@, false, 0, u64::MAX as int) == Some(v as int),
            None => parse_in_range(s@, false, 0, u64::MAX as int) is None,
        },
{
    match parse_int(s, false, 0, u64::MAX as i128) {
        Some(v) => Some(v as u64),
        None => None,
    }
}

/// `str::parse::<usize>`.
pub fn parse_usize(s: &Vec<char>) -> (r: Option<usize>)
    ensures
        match r {
            Some(v) => parse_in_range(s@, false, 0, usize::MAX as int) == Some(v as int),
            None => parse_in_range(s@, false, 0, usize::MAX as int) is None,
        },
{
    match parse_int(s, false, 0, usize::MAX as i128) {
        Some(v) => Some(v as usize),
        None => None,
    }
}

} // verus!

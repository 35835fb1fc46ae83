use vstd::prelude::*;

verus! {

/// The character of a decimal digit `d < 10`.
pub open spec fn digit_char(d: nat) -> char {
    (48 + d) as char
}

/// Decimal rendering of a natural number, without leading zeros.
pub open spec fn decimal(n: nat) -> Seq<char>
    decreases n,
{
    if n < 10 {
        seq![digit_char(n)]
    } else {
        decimal(n / 10).push(digit_char(n % 10))
    }
}

/// Exactly three decimal digits of `n < 1000`, zero padded on the left.
pub open spec fn three_digits(n: nat) -> Seq<char> {
    seq![digit_char(n / 100), digit_char((n / 10) % 10), digit_char(n % 10)]
}

/// Every character of `s` is a decimal digit.
pub open spec fn all_digits(s: Seq<char>) -> bool {
    forall|i: int| 0 <= i < s.len() ==> '0' <= #[trigger] s[i] && s[i] <= '9'
}

/// The number a string of decimal digits reads as (0 for the empty string).
pub open spec fn digits_value(s: Seq<char>) -> int
    decreases s.len(),
{
    if s.len() == 0 { 0 } else { digits_value(s.drop_last()) * 10 + (s.last() as int - '0' as int) }
}

proof fn lemma_digit_char_value(d: nat)
    requires
        d < 10,
    ensures
        digit_char(d) as int - '0' as int == d,
        '0' <= digit_char(d) && digit_char(d) <= '9',
{
    assert('0' as int == 48);
    assert(digit_char(d) as int == 48 + d);
}

/// The decimal rendering of `n` is a non-empty string of digits that reads as `n`.
pub proof fn lemma_decimal_reads_back(n: nat)
    ensures
        decimal(n).len() > 0,
        all_digits(decimal(n)),
        digits_value(decimal(n)) == n,
    decreases n,
{
    lemma_digit_char_value(n % 10);
    if n < 10 {
        lemma_digit_char_value(n);
        assert(decimal(n).drop_last() =~= Seq::<char>::empty());
        assert(digits_value(Seq::<char>::empty()) == 0);
        assert(digits_value(decimal(n)) == digits_value(decimal(n).drop_last()) * 10 + (decimal(n).last() as int - '0' as int));
    } else {
        lemma_decimal_reads_back(n / 10);
        let d = decimal(n);
        assert(d.drop_last() =~= decimal(n / 10));
        assert(d.last() == digit_char(n % 10));
        assert(digits_value(d) == digits_value(d.drop_last()) * 10 + (d.last() as int - '0' as int));
        assert(digits_value(d) == (n / 10) * 10 + n % 10);
        assert forall|i: int| 0 <= i < d.len() implies '0' <= #[trigger] d[i] && d[i] <= '9' by {
            if i < d.len() - 1 {
                assert(d[i] == decimal(n / 10)[i]);
            }
        }
    }
}

/// Three zero-padded digits of `n < 1000` read as `n`.
pub proof fn lemma_three_digits_reads_back(n: nat)
    requires
        n < 1000,
    ensures
        three_digits(n).len() == 3,
        all_digits(three_digits(n)),
        digits_value(three_digits(n)) == n,
{
    let t = three_digits(n);
    lemma_digit_char_value(n / 100);
    lemma_digit_char_value((n / 10) % 10);
    lemma_digit_char_value(n % 10);
    assert(t.drop_last().drop_last().drop_last() =~= Seq::<char>::empty());
    assert(t.drop_last().drop_last() =~= seq![digit_char(n / 100)]);
    assert(t.drop_last() =~= seq![digit_char(n / 100), digit_char((n / 10) % 10)]);
    let a = n / 100;
    let b = (n / 10) % 10;
    let c = n % 10;
    assert(digits_value(Seq::<char>::empty()) == 0);
    assert(digits_value(t.drop_last().drop_last()) == a);
    assert(digits_value(t.drop_last()) == a * 10 + b);
    assert(digits_value(t) == (a * 10 + b) * 10 + c);
    assert((a * 10 + b) * 10 + c == n) by (nonlinear_arith)
        requires a == n / 100, b == (n / 10) % 10, c == n % 10, n < 1000;
}

/// A one-character string literal for a decimal digit.
fn digit_str(d: u64) -> (s: &'static str)
    requires
        d < 10,
    ensures
        s@ == seq![digit_char(d as nat)],
{
    proof {
        reveal_strlit("0");
        reveal_strlit("1");
        reveal_strlit("2");
        reveal_strlit("3");
        reveal_strlit("4");
        reveal_strlit("5");
        reveal_strlit("6");
        reveal_strlit("7");
        reveal_strlit("8");
        reveal_strlit("9");
    }
    match d {
        0 => "0",
        1 => "1",
        2 => "2",
        3 => "3",
        4 => "4",
        5 => "5",
        6 => "6",
        7 => "7",
        8 => "8",
        _ => "9",
    }
}

/// Appends the decimal rendering of `n` to `out`.
pub fn push_decimal(out: &mut String, n: u64)
    ensures
        final(out)@ == old(out)@ + decimal(n as nat),
    decreases n,
{
    if n >= 10 {
        push_decimal(out, n / 10);
    }
    out.append(digit_str(n % 10));
    proof {
        assert(old(out)@ + decimal(n as nat) =~= final(out)@) by {
            if n >= 10 {
                assert(decimal(n as nat) == decimal((n / 10) as nat).push(digit_char((n % 10) as nat)));
            }
        }
    }
}

/// The decimal rendering of `n` as a new string.
pub fn decimal_string(n: u64) -> (s: String)
    ensures
        s@ == decimal(n as nat),
{
    let mut s = String::new();
    push_decimal(&mut s, n);
    assert(s@ =~= decimal(n as nat));
    s
}

/// Appends exactly three digits of `n < 1000` to `out`.
pub fn push_three_digits(out: &mut String, n: u64)
    requires
        n < 1000,
    ensures
        final(out)@ == old(out)@ + three_digits(n as nat),
{
    out.append(digit_str(n / 100));
    out.append(digit_str((n / 10) % 10));
    out.append(digit_str(n % 10));
    assert(final(out)@ =~= old(out)@ + three_digits(n as nat));
}

/// Whether `s` begins with `prefix`.
pub open spec fn starts_with(s: Seq<char>, prefix: Seq<char>) -> bool {
    prefix.len() <= s.len() && s.subrange(0, prefix.len() as int) == prefix
}

/// Whether `s` ends with `suffix`.
pub open spec fn ends_with(s: Seq<char>, suffix: Seq<char>) -> bool {
    suffix.len() <= s.len() && s.subrange(s.len() - suffix.len(), s.len() as int) == suffix
}

/// Whether `pattern` occurs somewhere in `s` as a contiguous run.
pub open spec fn contains_seq<A>(s: Seq<A>, pattern: Seq<A>) -> bool {
    exists|i: int| 0 <= i <= s.len() - pattern.len() && #[trigger] s.subrange(i, i + pattern.len()) == pattern
}

/// Character-wise equality of two strings.
pub fn str_eq(a: &str, b: &str) -> (res: bool)
    ensures
        res == (a@ == b@),
{
    let sa = String::from_str(a);
    let sb = String::from_str(b);
    sa == sb
}

/// Whether `s` begins with `prefix`.
pub fn str_starts_with(s: &str, prefix: &str) -> (res: bool)
    ensures
        res == starts_with(s@, prefix@),
{
    let n = s.unicode_len();
    let m = prefix.unicode_len();
    if m > n {
        return false;
    }
    let mut i: usize = 0;
    while i < m
        invariant
            m <= n,
            n == s@.len(),
            m == prefix@.len(),
            i <= m,
            forall|j: int| 0 <= j < i ==> s@[j] == prefix@[j],
        decreases m - i,
    {
        if s.get_char(i) != prefix.get_char(i) {
            assert(s@.subrange(0, m as int)[i as int] != prefix@[i as int]);
            return false;
        }
        i = i + 1;
    }
    assert(s@.subrange(0, m as int) =~= prefix@);
    true
}

/// Whether `s` ends with `suffix`.
pub fn str_ends_with(s: &str, suffix: &str) -> (res: bool)
    ensures
        res == ends_with(s@, suffix@),
{
    let n = s.unicode_len();
    let m = suffix.unicode_len();
    if m > n {
        return false;
    }
    let tail = s.substring_char(n - m, n);
    let r = str_eq(tail, suffix);
    r
}

/// Whether `pattern` occurs in the byte sequence `data`.
pub fn bytes_contain(data: &[u8], pattern: &[u8]) -> (res: bool)
    ensures
        res == contains_seq(data@, pattern@),
{
    let n = data.len();
    let m = pattern.len();
    if m > n {
        assert forall|i: int| 0 <= i <= data@.len() - pattern@.len() implies
            #[trigger] data@.subrange(i, i + pattern@.len()) != pattern@ by {}
        return false;
    }
    let mut i: usize = 0;
    while i <= n - m
        invariant
            m <= n,
            n == data@.len(),
            m == pattern@.len(),
            forall|k: int| 0 <= k < i ==> #[trigger] data@.subrange(k, k + m) != pattern@,
        decreases n - m + 1 - i,
    {
        let mut j: usize = 0;
        let mut matched = true;
        while j < m
            invariant
                m <= n,
                i <= n - m,
                n == data@.len(),
                m == pattern@.len(),
                j <= m,
                matched ==> forall|t: int| 0 <= t < j ==> data@[i + t] == pattern@[t],
                !matched ==> data@.subrange(i as int, i + m) != pattern@,
            decreases m - j,
        {
            if matched && data[i + j] != pattern[j] {
                assert(data@.subrange(i as int, i + m)[j as int] != pattern@[j as int]);
                matched = false;
            }
            j = j + 1;
        }
        if matched {
            assert(data@.subrange(i as int, i + m) =~= pattern@);
            return true;
        }
        if i == n - m {
            return false;
        }
        i = i + 1;
    }
    false
}

/// Whether `pattern` occurs in `s`.
pub fn str_contains(s: &str, pattern: &str) -> (res: bool)
    ensures
        res == contains_seq(s@, pattern@),
{
    let n = s.unicode_len();
    let m = pattern.unicode_len();
    if m > n {
        assert forall|i: int| 0 <= i <= s@.len() - pattern@.len() implies
            #[trigger] s@.subrange(i, i + pattern@.len()) != pattern@ by {}
        return false;
    }
    let mut i: usize = 0;
    while i <= n - m
        invariant
            m <= n,
            n == s@.len(),
            m == pattern@.len(),
            forall|k: int| 0 <= k < i ==> #[trigger] s@.subrange(k, k + m) != pattern@,
        decreases n - m + 1 - i,
    {
        let mut j: usize = 0;
        let mut matched = true;
        while j < m
            invariant
                m <= n,
                i <= n - m,
                n == s@.len(),
                m == pattern@.len(),
                j <= m,
                matched ==> forall|t: int| 0 <= t < j ==> s@[i + t] == pattern@[t],
                !matched ==> s@.subrange(i as int, i + m) != pattern@,
            decreases m - j,
        {
            if matched && s.get_char(i + j) != pattern.get_char(j) {
                assert(s@.subrange(i as int, i + m)[j as int] != pattern@[j as int]);
                matched = false;
            }
            j = j + 1;
        }
        if matched {
            assert(s@.subrange(i as int, i + m) =~= pattern@);
            return true;
        }
        if i == n - m {
            return false;
        }
        i = i + 1;
    }
    false
}

} // verus!

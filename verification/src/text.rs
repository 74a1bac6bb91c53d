//! Decimal numbers and separated fields, on sequences of characters.
use vstd::prelude::*;

verus! {

/// The character for the decimal digit `d`.
pub open spec fn digit_char(d: int) -> char {
    if d == 0 {
        '0'
    } else if d == 1 {
        '1'
    } else if d == 2 {
        '2'
    } else if d == 3 {
        '3'
    } else if d == 4 {
        '4'
    } else if d == 5 {
        '5'
    } else if d == 6 {
        '6'
    } else if d == 7 {
        '7'
    } else if d == 8 {
        '8'
    } else {
        '9'
    }
}

pub open spec fn is_digit(c: char) -> bool {
    '0' <= c && c <= '9'
}

pub open spec fn digit_value(c: char) -> int {
    c as int - '0' as int
}

pub open spec fn all_digits(s: Seq<char>) -> bool {
    forall|i: int| 0 <= i < s.len() ==> is_digit(#[trigger] s[i])
}

/// The number that a sequence of decimal digits stands for.
pub open spec fn digits_value(s: Seq<char>) -> int
    decreases s.len(),
{
    if s.len() == 0 {
        0
    } else {
        digits_value(s.drop_last()) * 10 + digit_value(s.last())
    }
}

/// The decimal text of `n`, without leading zeros (`0` is written `"0"`).
pub open spec fn decimal(n: nat) -> Seq<char>
    decreases n,
{
    if n < 10 {
        seq![digit_char(n as int)]
    } else {
        decimal(n / 10).push(digit_char((n % 10) as int))
    }
}

/// The digits that the standard library reads for an unsigned integer: an optional
/// leading `+` is dropped.
pub open spec fn unsigned_digits(s: Seq<char>) -> Seq<char> {
    if s.len() > 0 && s[0] == '+' {
        s.drop_first()
    } else {
        s
    }
}

/// What parsing `s` as an unsigned integer whose largest value is `max` gives:
/// one or more decimal digits after an optional `+`, of value at most `max`.
pub open spec fn parse_unsigned(s: Seq<char>, max: int) -> Option<int> {
    let d = unsigned_digits(s);
    if d.len() > 0 && all_digits(d) && digits_value(d) <= max {
        Some(digits_value(d))
    } else {
        None
    }
}

/// The fields of `s` between the occurrences of `sep`, as `str::split` with a one-character
/// pattern yields them: one more field than there are separators, empty fields included.
pub open spec fn split(s: Seq<char>, sep: char) -> Seq<Seq<char>>
    decreases s.len(),
{
    if s.len() == 0 {
        seq![Seq::<char>::empty()]
    } else {
        let fields = split(s.drop_last(), sep);
        if s.last() == sep {
            fields.push(Seq::<char>::empty())
        } else {
            fields.update(fields.len() - 1, fields.last().push(s.last()))
        }
    }
}

pub proof fn lemma_split_len(s: Seq<char>, sep: char)
    ensures
        split(s, sep).len() >= 1,
    decreases s.len(),
{
    if s.len() > 0 {
        lemma_split_len(s.drop_last(), sep);
    }
}

/// A text without the separator is one field.
pub proof fn lemma_split_single(s: Seq<char>, sep: char)
    requires
        !s.contains(sep),
    ensures
        split(s, sep) == seq![s],
    decreases s.len(),
{
    if s.len() > 0 {
        let t = s.drop_last();
        assert(!t.contains(sep)) by {
            if t.contains(sep) {
                let k = choose|k: int| 0 <= k < t.len() && t[k] == sep;
                assert(s[k] == sep);
            }
        }
        lemma_split_single(t, sep);
        assert(s[s.len() - 1] != sep);
        assert(t.push(s.last()) =~= s);
        assert(split(s, sep) == seq![t].update(0, t.push(s.last())));
        assert(split(s, sep) =~= seq![s]);
    } else {
        assert(s =~= Seq::<char>::empty());
    }
}

/// Appending a separator and a field without separators adds that field.
pub proof fn lemma_split_append(x: Seq<char>, y: Seq<char>, sep: char)
    requires
        !y.contains(sep),
    ensures
        split(x + seq![sep] + y, sep) == split(x, sep).push(y),
    decreases y.len(),
{
    lemma_split_len(x, sep);
    if y.len() == 0 {
        assert(x + seq![sep] + y =~= x.push(sep));
        assert((x.push(sep)).drop_last() =~= x);
        assert(y =~= Seq::<char>::empty());
    } else {
        let t = y.drop_last();
        assert(!t.contains(sep)) by {
            if t.contains(sep) {
                let k = choose|k: int| 0 <= k < t.len() && t[k] == sep;
                assert(y[k] == sep);
            }
        }
        lemma_split_append(x, t, sep);
        let whole = x + seq![sep] + y;
        assert(whole.drop_last() =~= x + seq![sep] + t);
        assert(y[y.len() - 1] != sep);
        assert(whole.last() == y.last());
        assert(t.push(y.last()) =~= y);
        let f = split(x, sep).push(t);
        assert(split(whole, sep) == f.update(f.len() - 1, f.last().push(y.last())));
        assert(split(whole, sep) =~= split(x, sep).push(y));
    }
}

pub proof fn lemma_digits_prefix(d: Seq<char>, k: int)
    requires
        all_digits(d),
        0 <= k <= d.len(),
    ensures
        0 <= digits_value(d.take(k)) <= digits_value(d),
    decreases d.len(),
{
    if d.len() > 0 {
        let t = d.drop_last();
        assert(all_digits(t)) by {
            assert forall|i: int| 0 <= i < t.len() implies is_digit(#[trigger] t[i]) by {
                assert(d[i] == t[i]);
            }
        }
        assert(is_digit(d[d.len() - 1]));
        if k == d.len() {
            assert(d.take(k) =~= d);
            lemma_digits_prefix(t, t.len() as int);
            assert(t.take(t.len() as int) =~= t);
        } else {
            assert(d.take(k) =~= t.take(k));
            lemma_digits_prefix(t, k);
        }
    }
}

pub proof fn lemma_decimal(n: nat)
    ensures
        decimal(n).len() > 0,
        all_digits(decimal(n)),
        digits_value(decimal(n)) == n,
    decreases n,
{
    if n >= 10 {
        lemma_decimal(n / 10);
        let d = decimal(n);
        assert(d.drop_last() =~= decimal(n / 10));
        assert(d.last() == digit_char((n % 10) as int));
        assert(digit_value(digit_char((n % 10) as int)) == n % 10);
        assert(digits_value(d) == digits_value(decimal(n / 10)) * 10 + n % 10);
        assert(n == (n / 10) * 10 + n % 10);
        assert(all_digits(d)) by {
            assert forall|i: int| 0 <= i < d.len() implies is_digit(#[trigger] d[i]) by {
                if i < d.len() - 1 {
                    assert(d[i] == decimal(n / 10)[i]);
                }
            }
        }
    } else {
        assert(decimal(n).drop_last() =~= Seq::<char>::empty());
        assert(digits_value(Seq::<char>::empty()) == 0);
        assert(digit_value(digit_char(n as int)) == n);
    }
}

/// Decimal text read back as an unsigned integer gives the number.
pub proof fn lemma_parse_decimal(n: nat, max: int)
    requires
        n <= max,
    ensures
        parse_unsigned(decimal(n), max) == Some(n as int),
        !decimal(n).contains('.'),
        !decimal(n).contains(':'),
{
    lemma_decimal(n);
    let d = decimal(n);
    assert(is_digit(d[0]));
    assert(unsigned_digits(d) == d);
    assert(!d.contains('.')) by {
        if d.contains('.') {
            let k = choose|k: int| 0 <= k < d.len() && d[k] == '.';
            assert(is_digit(d[k]));
        }
    }
    assert(!d.contains(':')) by {
        if d.contains(':') {
            let k = choose|k: int| 0 <= k < d.len() && d[k] == ':';
            assert(is_digit(d[k]));
        }
    }
}

/// The decimal texts of the bytes of `s`, joined by `sep`.
pub open spec fn join_decimal(s: Seq<u8>, sep: char) -> Seq<char>
    decreases s.len(),
{
    if s.len() == 0 {
        Seq::<char>::empty()
    } else if s.len() == 1 {
        decimal(s[0] as nat)
    } else {
        join_decimal(s.drop_last(), sep) + seq![sep] + decimal(s.last() as nat)
    }
}

/// Neither a digit nor the separator occurs in the joined text.
pub proof fn lemma_join_lacks(s: Seq<u8>, sep: char, c: char)
    requires
        !is_digit(c),
        c != sep,
    ensures
        !join_decimal(s, sep).contains(c),
    decreases s.len(),
{
    if s.len() == 1 {
        lemma_decimal(s[0] as nat);
        let d = decimal(s[0] as nat);
        if d.contains(c) {
            let k = choose|k: int| 0 <= k < d.len() && d[k] == c;
            assert(is_digit(d[k]));
        }
    } else if s.len() > 1 {
        lemma_join_lacks(s.drop_last(), sep, c);
        lemma_decimal(s.last() as nat);
        let a = join_decimal(s.drop_last(), sep);
        let d = decimal(s.last() as nat);
        let whole = a + seq![sep] + d;
        if whole.contains(c) {
            let k = choose|k: int| 0 <= k < whole.len() && whole[k] == c;
            if k < a.len() {
                assert(a[k] == c);
            } else if k > a.len() {
                assert(d[k - a.len() - 1] == c);
                assert(is_digit(d[k - a.len() - 1]));
            }
        }
    }
}

/// Splitting joined decimal texts at their separator gives back the texts.
pub proof fn lemma_split_join(s: Seq<u8>, sep: char)
    requires
        s.len() >= 1,
        !is_digit(sep),
    ensures
        split(join_decimal(s, sep), sep) == s.map_values(|b: u8| decimal(b as nat)),
    decreases s.len(),
{
    if s.len() == 1 {
        lemma_parse_decimal_lacks(s[0] as nat, sep);
        lemma_split_single(decimal(s[0] as nat), sep);
        assert(split(join_decimal(s, sep), sep) =~= s.map_values(|b: u8| decimal(b as nat)));
    } else {
        lemma_split_join(s.drop_last(), sep);
        lemma_parse_decimal_lacks(s.last() as nat, sep);
        lemma_split_append(join_decimal(s.drop_last(), sep), decimal(s.last() as nat), sep);
        assert(split(join_decimal(s, sep), sep) =~= s.map_values(|b: u8| decimal(b as nat)));
    }
}

/// Decimal text holds no character other than digits.
pub proof fn lemma_parse_decimal_lacks(n: nat, c: char)
    requires
        !is_digit(c),
    ensures
        !decimal(n).contains(c),
{
    lemma_decimal(n);
    let d = decimal(n);
    if d.contains(c) {
        let k = choose|k: int| 0 <= k < d.len() && d[k] == c;
        assert(is_digit(d[k]));
    }
}

/// Appends the decimal texts of `bytes`, separated by `sep`, to `out`.
pub fn push_joined<const N: usize>(out: &mut String, bytes: &[u8; N], sep: &str, Ghost(sep_char): Ghost<char>)
    requires
        sep@ == seq![sep_char],
    ensures
        final(out)@ == old(out)@ + join_decimal(bytes@, sep_char),
{
    let mut i: usize = 0;
    assert(bytes@.take(0) =~= Seq::<u8>::empty());
    assert(out@ =~= old(out)@ + join_decimal(bytes@.take(0), sep_char));
    while i < N
        invariant
            i <= N,
            bytes@.len() == N,
            sep@ == seq![sep_char],
            out@ == old(out)@ + join_decimal(bytes@.take(i as int), sep_char),
        decreases N - i,
    {
        let ghost before = out@;
        if i != 0 {
            push_text(out, sep);
        }
        push_decimal(out, bytes[i] as u16);
        assert(bytes@.take(i + 1).drop_last() =~= bytes@.take(i as int));
        assert(bytes@.take(i + 1).last() == bytes@[i as int]);
        if i == 0 {
            assert(join_decimal(bytes@.take(1), sep_char) == decimal(bytes@[0] as nat));
        } else {
            assert(join_decimal(bytes@.take(i + 1), sep_char) == join_decimal(bytes@.take(i as int), sep_char)
                + seq![sep_char] + decimal(bytes@[i as int] as nat));
        }
        assert(out@ =~= old(out)@ + join_decimal(bytes@.take(i + 1), sep_char));
        i = i + 1;
    }
    assert(bytes@.take(N as int) =~= bytes@);
}

fn digit_text(d: u16) -> (r: &'static str)
    requires
        d < 10,
    ensures
        r@ == seq![digit_char(d as int)],
{
    proof {
        reveal_strlit("0");
        reveal_strlit("1");
        reveal_strlit("2");
        reveal_strlit("3");
        reveal_strlit("4");
        reveal_strlit("5");
        reveal_strlit("6");
        reveal_strlit("7");
        reveal_strlit("8");
        reveal_strlit("9");
    }
    if d == 0 {
        "0"
    } else if d == 1 {
        "1"
    } else if d == 2 {
        "2"
    } else if d == 3 {
        "3"
    } else if d == 4 {
        "4"
    } else if d == 5 {
        "5"
    } else if d == 6 {
        "6"
    } else if d == 7 {
        "7"
    } else if d == 8 {
        "8"
    } else {
        "9"
    }
}

/// Appends the decimal text of `n` to `s`.
pub fn push_decimal(s: &mut String, n: u16)
    ensures
        final(s)@ == old(s)@ + decimal(n as nat),
    decreases n,
{
    if n >= 10 {
        push_decimal(s, n / 10);
    }
    s.append(digit_text(n % 10));
    proof {
        if n >= 10 {
            assert(decimal(n as nat) == decimal((n / 10) as nat).push(digit_char((n % 10) as int)));
        }
    }
    assert(s@ =~= old(s)@ + decimal(n as nat));
}

/// Appends a string to `s`.
pub fn push_text(s: &mut String, t: &str)
    ensures
        final(s)@ == old(s)@ + t@,
{
    s.append(t);
}

/// The characters of `s`, in order.
pub fn chars_of(s: &str) -> (r: Vec<char>)
    ensures
        r@ == s@,
{
    let n = s.unicode_len();
    let mut r: Vec<char> = Vec::new();
    let mut i: usize = 0;
    while i < n
        invariant
            n == s@.len(),
            i <= n,
            r@ =~= s@.take(i as int),
        decreases n - i,
    {
        let c = s.get_char(i);
        r.push(c);
        i = i + 1;
    }
    assert(s@.take(n as int) =~= s@);
    r
}

/// The texts held in a sequence of character vectors.
pub open spec fn fields_view(v: Seq<Vec<char>>) -> Seq<Seq<char>> {
    v.map_values(|f: Vec<char>| f@)
}

/// The fields of `s` between occurrences of `sep`.
pub fn split_chars(s: &Vec<char>, sep: char) -> (r: Vec<Vec<char>>)
    ensures
        fields_view(r@) == split(s@, sep),
{
    let n = s.len();
    let mut fields: Vec<Vec<char>> = Vec::new();
    let mut cur: Vec<char> = Vec::new();
    let mut i: usize = 0;
    assert(s@.take(0) =~= Seq::<char>::empty());
    assert(fields_view(fields@).push(cur@) =~= split(s@.take(0), sep));
    while i < n
        invariant
            n == s@.len(),
            i <= n,
            fields_view(fields@).push(cur@) =~= split(s@.take(i as int), sep),
        decreases n - i,
    {
        let c = s[i];
        let ghost before = fields_view(fields@);
        let ghost cur_before = cur@;
        assert(s@.take(i + 1).drop_last() =~= s@.take(i as int));
        assert(s@.take(i + 1).last() == c);
        if c == sep {
            fields.push(cur);
            cur = Vec::new();
            assert(fields_view(fields@) =~= before.push(cur_before));
        } else {
            cur.push(c);
            assert(fields_view(fields@) =~= before);
        }
        i = i + 1;
    }
    assert(s@.take(n as int) =~= s@);
    fields.push(cur);
    fields
}

/// Reads `s` as an unsigned integer of value at most `max`, as the standard library's
/// `FromStr` for unsigned integers does.
pub fn parse_unsigned_chars(s: &Vec<char>, max: u32) -> (r: Option<u32>)
    requires
        max <= 65535,
    ensures
        match r {
            Some(v) => parse_unsigned(s@, max as int) == Some(v as int),
            None => parse_unsigned(s@, max as int) is None,
        },
{
    let n = s.len();
    let mut start: usize = 0;
    if n > 0 && s[0] == '+' {
        start = 1;
    }
    let ghost d = unsigned_digits(s@);
    assert(d =~= s@.subrange(start as int, n as int));
    if start == n {
        return None;
    }
    let mut v: u32 = 0;
    let mut i: usize = start;
    assert(d.take(0) =~= Seq::<char>::empty());
    while i < n
        invariant
            n == s@.len(),
            start <= i <= n,
            start < n,
            max <= 65535,
            d =~= s@.subrange(start as int, n as int),
            d == unsigned_digits(s@),
            all_digits(d.take(i - start)),
            v as int == digits_value(d.take(i - start)),
            v <= max,
        decreases n - i,
    {
        let c = s[i];
        let k: usize = i - start;
        assert(d[k as int] == c);
        if !('0' <= c && c <= '9') {
            return None;
        }
        let digit: u32 = (c as u32) - ('0' as u32);
        let next: u32 = v * 10 + digit;
        assert(d.take(k + 1).drop_last() =~= d.take(k as int));
        assert(d.take(k + 1).last() == c);
        assert(all_digits(d.take(k + 1))) by {
            assert forall|j: int| 0 <= j < k + 1 implies is_digit(#[trigger] d.take(k + 1)[j]) by {
                if j < k {
                    assert(d.take(k + 1)[j] == d.take(k as int)[j]);
                }
            }
        }
        if next > max {
            proof {
                if all_digits(d) {
                    lemma_digits_prefix(d, k + 1);
                }
            }
            return None;
        }
        v = next;
        i = i + 1;
    }
    assert(d.take(n - start) =~= d);
    Some(v)
}

} // verus!

//! Text helpers shared by the wire protocol: decimal numbers, field splitting
//! and joining.

use vstd::prelude::*;

verus! {

/// `String::push` appends one character at the end of the string.
pub assume_specification[ String::push ](s: &mut String, ch: char)
    ensures
        final(s)@ == old(s)@.push(ch),
;

/// The character of a decimal digit.
pub open spec fn digit_char(d: int) -> char {
    (d + 48) as char
}

/// Decimal digits of a natural number, most significant first, no leading zeros.
pub open spec fn nat_digits(n: nat) -> Seq<char>
    decreases n,
{
    if n < 10 {
        seq![digit_char(n as int)]
    } else {
        nat_digits(n / 10).push(digit_char((n % 10) as int))
    }
}

/// Decimal rendering of an integer, with a leading `-` for negatives.
pub open spec fn int_text(n: int) -> Seq<char> {
    if n < 0 {
        seq!['-'] + nat_digits((-n) as nat)
    } else {
        nat_digits(n as nat)
    }
}

fn digit(d: u64) -> (c: char)
    requires
        d < 10,
    ensures
        c == digit_char(d as int),
{
    let b: u8 = (d as u8) + 48u8;
    b as char
}

/// Appends the decimal digits of `n` to `out`.
pub fn push_nat_digits(out: &mut String, n: u64)
    ensures
        final(out)@ == old(out)@ + nat_digits(n as nat),
    decreases n,
{
    if n < 10 {
        out.push(digit(n));
    } else {
        push_nat_digits(out, n / 10);
        out.push(digit(n % 10));
    }
}

/// Appends the decimal rendering of `n` to `out`.
pub fn push_int_text(out: &mut String, n: i64)
    ensures
        final(out)@ == old(out)@ + int_text(n as int),
{
    if n < 0 {
        out.push('-');
        let m: u64 = ((-(n + 1)) as u64) + 1;
        push_nat_digits(out, m);
    } else {
        push_nat_digits(out, n as u64);
    }
}

/// The fields of `s` between occurrences of `sep`, as `str::split` with a
/// character pattern gives them: one more field than there are separators.
pub open spec fn split_on(s: Seq<char>, sep: char) -> Seq<Seq<char>>
    decreases s.len(),
{
    if s.len() == 0 {
        seq![Seq::<char>::empty()]
    } else {
        let p = split_on(s.drop_last(), sep);
        if s.last() == sep {
            p.push(Seq::<char>::empty())
        } else {
            p.update(p.len() - 1, p.last().push(s.last()))
        }
    }
}

pub proof fn lemma_split_nonempty(s: Seq<char>, sep: char)
    ensures
        split_on(s, sep).len() >= 1,
    decreases s.len(),
{
    if s.len() > 0 {
        lemma_split_nonempty(s.drop_last(), sep);
    }
}

pub open spec fn strings_view(v: Seq<String>) -> Seq<Seq<char>> {
    v.map_values(|x: String| x@)
}

/// Splits `s` at every `sep`.
pub fn split_fields(s: &str, sep: char) -> (r: Vec<String>)
    ensures
        strings_view(r@) == split_on(s@, sep),
{
    let n = s.unicode_len();
    let mut parts: Vec<String> = Vec::new();
    let mut cur = String::new();
    assert(s@.take(0) =~= Seq::<char>::empty());
    for i in 0..n
        invariant
            n == s@.len(),
            strings_view(parts@).push(cur@) == split_on(s@.take(i as int), sep),
    {
        let c = s.get_char(i);
        proof {
            lemma_split_nonempty(s@.take(i as int), sep);
            assert(s@.take(i + 1).drop_last() =~= s@.take(i as int));
            assert(s@.take(i + 1).last() == c);
        }
        if c == sep {
            let done = cur;
            parts.push(done);
            cur = String::new();
            assert(strings_view(parts@).push(cur@) =~= split_on(s@.take(i + 1), sep));
        } else {
            cur.push(c);
            assert(strings_view(parts@).push(cur@) =~= split_on(s@.take(i + 1), sep));
        }
    }
    assert(s@.take(n as int) =~= s@);
    parts.push(cur);
    assert(strings_view(parts@) =~= split_on(s@, sep));
    parts
}

/// The fields joined with `sep` between them, as `join` gives them.
pub open spec fn join_with(fields: Seq<Seq<char>>, sep: char) -> Seq<char>
    decreases fields.len(),
{
    if fields.len() == 0 {
        Seq::empty()
    } else if fields.len() == 1 {
        fields[0]
    } else {
        join_with(fields.drop_last(), sep).push(sep) + fields.last()
    }
}

/// Joins `fields` with `sep` between them.
pub fn join_fields(fields: &Vec<String>, sep: char) -> (r: String)
    ensures
        r@ == join_with(strings_view(fields@), sep),
{
    let mut out = String::new();
    let n = fields.len();
    let ghost v = strings_view(fields@);
    for i in 0..n
        invariant
            n == fields@.len(),
            v == strings_view(fields@),
            out@ == join_with(v.take(i as int), sep),
    {
        if i > 0 {
            out.push(sep);
        }
        out.append(fields[i].as_str());
        proof {
            assert(v.take(i + 1).drop_last() =~= v.take(i as int));
            assert(v.take(i + 1).last() == fields@[i as int]@);
            if i == 0 {
                assert(v.take(1).len() == 1);
            }
        }
    }
    assert(v.take(n as int) =~= v);
    out
}

pub open spec fn is_digit(c: char) -> bool {
    '0' <= c && c <= '9'
}

pub open spec fn all_digits(s: Seq<char>) -> bool {
    forall|i: int| 0 <= i < s.len() ==> is_digit(#[trigger] s[i])
}

/// The number that a string of decimal digits denotes.
pub open spec fn digits_value(s: Seq<char>) -> int
    decreases s.len(),
{
    if s.len() == 0 {
        0
    } else {
        digits_value(s.drop_last()) * 10 + (s.last() as int - 48)
    }
}

/// What `str::parse::<i32>` gives: an optional `+` or `-` sign followed by at
/// least one decimal digit and nothing else, denoting a number in the range of `i32`.
pub open spec fn parse_i32_text(s: Seq<char>) -> Option<i32> {
    let neg = s.len() > 0 && s[0] == '-';
    let signed = s.len() > 0 && (s[0] == '-' || s[0] == '+');
    signed_digits_value(neg, if signed { s.drop_first() } else { s })
}

/// The `i32` that the digits `body` denote, negated when `neg`; none when
/// `body` is empty, holds another character or denotes a number out of range.
pub open spec fn signed_digits_value(neg: bool, body: Seq<char>) -> Option<i32> {
    if body.len() > 0 && all_digits(body) {
        let v = if neg { -digits_value(body) } else { digits_value(body) };
        if i32::MIN <= v <= i32::MAX {
            Some(v as i32)
        } else {
            None
        }
    } else {
        None
    }
}

proof fn lemma_digits_value_nonneg(s: Seq<char>)
    requires
        all_digits(s),
    ensures
        digits_value(s) >= 0,
    decreases s.len(),
{
    if s.len() > 0 {
        lemma_digits_value_nonneg(s.drop_last());
    }
}

proof fn lemma_digits_prefix_le(s: Seq<char>, k: int)
    requires
        all_digits(s),
        0 <= k <= s.len(),
    ensures
        digits_value(s.take(k)) <= digits_value(s),
    decreases s.len(),
{
    if k < s.len() {
        assert(s.drop_last().take(k) =~= s.take(k));
        lemma_digits_prefix_le(s.drop_last(), k);
        lemma_digits_value_nonneg(s.drop_last());
    } else {
        assert(s.take(k) =~= s);
    }
}

/// Reads a decimal `i32` as `str::parse` does.
pub fn parse_i32(s: &str) -> (r: Option<i32>)
    ensures
        r == parse_i32_text(s@),
{
    let n = s.unicode_len();
    if n == 0 {
        return None;
    }
    let first = s.get_char(0);
    let neg = first == '-';
    let start: usize = if first == '-' || first == '+' { 1 } else { 0 };
    let ghost body = if start == 1 { s@.drop_first() } else { s@ };
    assert(body =~= s@.subrange(start as int, n as int));
    if start == n {
        return None;
    }
    let mut acc: i64 = 0;
    assert(body.take(0) =~= Seq::<char>::empty());
    for i in start..n
        invariant
            n == s@.len(),
            start <= n,
            body == s@.subrange(start as int, n as int),
            parse_i32_text(s@) == signed_digits_value(neg, body),
            acc == digits_value(body.take(i - start)),
            all_digits(body.take(i - start)),
            0 <= acc <= 0x8000_0000,
    {
        let c = s.get_char(i);
        proof {
            assert(body[i - start] == c);
            assert(body.take(i - start + 1).drop_last() =~= body.take(i - start));
        }
        if !('0' <= c && c <= '9') {
            proof {
                assert(!is_digit(body[i - start]));
            }
            return None;
        }
        let d: i64 = (c as u32 - 48) as i64;
        acc = acc * 10 + d;
        proof {
            assert(all_digits(body.take(i - start + 1)));
        }
        if acc > 0x8000_0000 {
            proof {
                if all_digits(body) {
                    lemma_digits_prefix_le(body, i - start + 1);
                }
            }
            return None;
        }
    }
    assert(body.take(n - start) =~= body);
    if neg {
        Some((-acc) as i32)
    } else if acc <= 0x7fff_ffff {
        Some(acc as i32)
    } else {
        None
    }
}

/// `s` without its trailing `'0'` characters.
pub open spec fn trim_trailing_zeros(s: Seq<char>) -> Seq<char>
    decreases s.len(),
{
    if s.len() > 0 && s.last() == '0' {
        trim_trailing_zeros(s.drop_last())
    } else {
        s
    }
}

/// The six decimal digits of `f`, zero-padded on the left.
pub open spec fn six_digits(f: nat) -> Seq<char> {
    seq![
        digit_char(((f / 100_000) % 10) as int),
        digit_char(((f / 10_000) % 10) as int),
        digit_char(((f / 1_000) % 10) as int),
        digit_char(((f / 100) % 10) as int),
        digit_char(((f / 10) % 10) as int),
        digit_char((f % 10) as int),
    ]
}

/// The shortest decimal rendering of `a` millionths: the whole part, then,
/// when there is a fractional part, a point and its digits without trailing zeros.
pub open spec fn fixed_text(a: nat) -> Seq<char> {
    let whole = a / 1_000_000;
    let frac = a % 1_000_000;
    if frac == 0 {
        nat_digits(whole)
    } else {
        nat_digits(whole) + seq!['.'] + trim_trailing_zeros(six_digits(frac))
    }
}

/// Appends the shortest decimal rendering of `a` millionths to `out`.
pub fn push_fixed_text(out: &mut String, a: u64)
    ensures
        final(out)@ == old(out)@ + fixed_text(a as nat),
{
    let whole = a / 1_000_000;
    let frac = a % 1_000_000;
    push_nat_digits(out, whole);
    if frac != 0 {
        out.push('.');
        let mut ds: Vec<char> = Vec::new();
        ds.push(digit((frac / 100_000) % 10));
        ds.push(digit((frac / 10_000) % 10));
        ds.push(digit((frac / 1_000) % 10));
        ds.push(digit((frac / 100) % 10));
        ds.push(digit((frac / 10) % 10));
        ds.push(digit(frac % 10));
        assert(ds@ =~= six_digits(frac as nat));
        while ds.len() > 0 && ds[ds.len() - 1] == '0'
            invariant
                trim_trailing_zeros(ds@) == trim_trailing_zeros(six_digits(frac as nat)),
            decreases ds.len(),
        {
            ds.pop();
        }
        let ghost pre = out@;
        let m = ds.len();
        for i in 0..m
            invariant
                m == ds@.len(),
                out@ == pre + ds@.take(i as int),
        {
            out.push(ds[i]);
            assert(ds@.take(i + 1) =~= ds@.take(i as int).push(ds@[i as int]));
        }
        assert(ds@.take(m as int) =~= ds@);
        assert(trim_trailing_zeros(ds@) == ds@);
    }
}

proof fn lemma_digit_char(d: int)
    requires
        0 <= d < 10,
    ensures
        digit_char(d) as int == d + 48,
        is_digit(digit_char(d)),
{
}

proof fn lemma_nat_digits(n: nat)
    ensures
        nat_digits(n).len() >= 1,
        all_digits(nat_digits(n)),
        digits_value(nat_digits(n)) == n,
    decreases n,
{
    if n < 10 {
        lemma_digit_char(n as int);
        let s = nat_digits(n);
        assert(s.drop_last() =~= Seq::<char>::empty());
        assert(digits_value(s.drop_last()) == 0);
        assert(s.last() == digit_char(n as int));
        assert(digits_value(s) == digits_value(s.drop_last()) * 10 + (s.last() as int - 48));
    } else {
        lemma_nat_digits(n / 10);
        lemma_digit_char((n % 10) as int);
        let s = nat_digits(n);
        assert(s.drop_last() =~= nat_digits(n / 10));
        assert(s.last() == digit_char((n % 10) as int));
        assert(digits_value(s) == digits_value(nat_digits(n / 10)) * 10 + (n % 10));
        assert(n == (n / 10) * 10 + n % 10);
        assert forall|i: int| 0 <= i < s.len() implies is_digit(#[trigger] s[i]) by {
            if i < s.len() - 1 {
                assert(s[i] == nat_digits(n / 10)[i]);
            }
        }
    }
}

/// A number written by `int_text` reads back as itself: the decimal text of
/// every `i32` parses to that `i32`.
pub proof fn law_int_text_reads_back(n: i32)
    ensures
        parse_i32_text(int_text(n as int)) == Some(n),
{
    let s = int_text(n as int);
    if n < 0 {
        lemma_nat_digits((-n) as nat);
        assert(s.drop_first() =~= nat_digits((-n) as nat));
    } else {
        lemma_nat_digits(n as nat);
        lemma_digit_char(0);
        assert(is_digit(s[0]));
    }
}

/// `s` holds no `c`.
pub open spec fn free_of(s: Seq<char>, c: char) -> bool {
    forall|i: int| 0 <= i < s.len() ==> s[i] != c
}

proof fn lemma_split_free(l: Seq<char>, sep: char)
    requires
        free_of(l, sep),
    ensures
        split_on(l, sep) == seq![l],
    decreases l.len(),
{
    if l.len() > 0 {
        lemma_split_free(l.drop_last(), sep);
        assert(l.drop_last().push(l.last()) =~= l);
        assert(seq![l.drop_last()].update(0, l.drop_last().push(l.last())) =~= seq![l]);
    } else {
        assert(l =~= Seq::<char>::empty());
    }
}

proof fn lemma_split_append(a: Seq<char>, l: Seq<char>, sep: char)
    requires
        free_of(l, sep),
    ensures
        split_on(a.push(sep) + l, sep) == split_on(a, sep).push(l),
    decreases l.len(),
{
    let x = a.push(sep) + l;
    if l.len() == 0 {
        assert(x =~= a.push(sep));
        assert(x.drop_last() =~= a);
        assert(l =~= Seq::<char>::empty());
    } else {
        lemma_split_append(a, l.drop_last(), sep);
        assert(x.drop_last() =~= a.push(sep) + l.drop_last());
        assert(x.last() == l.last());
        let p = split_on(a, sep).push(l.drop_last());
        assert(p.update(p.len() - 1, p.last().push(l.last())) =~= split_on(a, sep).push(l)) by {
            assert(l.drop_last().push(l.last()) =~= l);
        }
    }
}

/// Splitting fields joined with a separator that none of them holds gives
/// the fields back.
pub proof fn law_split_join(fields: Seq<Seq<char>>, sep: char)
    requires
        fields.len() >= 1,
        forall|i: int| 0 <= i < fields.len() ==> free_of(#[trigger] fields[i], sep),
    ensures
        split_on(join_with(fields, sep), sep) == fields,
    decreases fields.len(),
{
    if fields.len() == 1 {
        lemma_split_free(fields[0], sep);
        assert(seq![fields[0]] =~= fields);
    } else {
        let init = fields.drop_last();
        assert forall|i: int| 0 <= i < init.len() implies free_of(#[trigger] init[i], sep) by {
            assert(init[i] == fields[i]);
        }
        law_split_join(init, sep);
        lemma_split_append(join_with(init, sep), fields.last(), sep);
        assert(init.push(fields.last()) =~= fields);
    }
}

pub proof fn lemma_nat_digits_free(n: nat, c: char)
    requires
        !is_digit(c),
    ensures
        free_of(nat_digits(n), c),
{
    lemma_nat_digits(n);
}

pub proof fn lemma_int_text_free(n: int, c: char)
    requires
        !is_digit(c),
        c != '-',
    ensures
        free_of(int_text(n), c),
{
    if n < 0 {
        lemma_nat_digits_free((-n) as nat, c);
        let s = int_text(n);
        assert forall|i: int| 0 <= i < s.len() implies s[i] != c by {
            if i > 0 {
                assert(s[i] == nat_digits((-n) as nat)[i - 1]);
            }
        }
    } else {
        lemma_nat_digits_free(n as nat, c);
    }
}

proof fn lemma_trim_prefix(s: Seq<char>)
    ensures
        trim_trailing_zeros(s).len() <= s.len(),
        forall|i: int| 0 <= i < trim_trailing_zeros(s).len() ==> #[trigger] trim_trailing_zeros(s)[i] == s[i],
    decreases s.len(),
{
    if s.len() > 0 && s.last() == '0' {
        lemma_trim_prefix(s.drop_last());
    }
}

pub proof fn lemma_fixed_text_free(a: nat, c: char)
    requires
        !is_digit(c),
        c != '.',
    ensures
        free_of(fixed_text(a), c),
{
    let whole = a / 1_000_000;
    let frac = a % 1_000_000;
    lemma_nat_digits_free(whole, c);
    if frac != 0 {
        let six = six_digits(frac);
        lemma_digit_char(((frac / 100_000) % 10) as int);
        lemma_digit_char(((frac / 10_000) % 10) as int);
        lemma_digit_char(((frac / 1_000) % 10) as int);
        lemma_digit_char(((frac / 100) % 10) as int);
        lemma_digit_char(((frac / 10) % 10) as int);
        lemma_digit_char((frac % 10) as int);
        lemma_trim_prefix(six);
        let t = trim_trailing_zeros(six);
        let s = fixed_text(a);
        let w = nat_digits(whole);
        assert forall|i: int| 0 <= i < s.len() implies s[i] != c by {
            if i < w.len() {
                assert(s[i] == w[i]);
            } else if i == w.len() {
                assert(s[i] == '.');
            } else {
                assert(s[i] == t[i - w.len() - 1]);
                assert(t[i - w.len() - 1] == six[i - w.len() - 1]);
            }
        }
    }
}

} // verus!

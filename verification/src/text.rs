//! Character-level helpers on strings.

use vstd::prelude::*;

verus! {

/// Whether two string slices hold the same characters.
pub fn str_eq(a: &str, b: &str) -> (r: bool)
    ensures
        r == (a@ == b@),
{
    let x = String::from_str(a);
    let y = String::from_str(b);
    x == y
}

/// The characters of `s`, in order.
pub fn chars_of(s: &str) -> (v: Vec<char>)
    ensures
        v@ == s@,
{
    let mut v: Vec<char> = Vec::new();
    for c in it: s.chars()
        invariant
            v@ == it.seq().take(it.index()),
            it.seq() == s@,
    {
        v.push(c);
    }
    v
}

/// Whether `c` is white space in the Unicode sense that `char::is_whitespace`
/// uses.
pub open spec fn is_ws(c: char) -> bool {
    let x = c as u32;
    ||| x == 0x20
    ||| 0x09 <= x <= 0x0d
    ||| x == 0x85
    ||| x == 0xa0
    ||| x == 0x1680
    ||| 0x2000 <= x <= 0x200a
    ||| x == 0x2028
    ||| x == 0x2029
    ||| x == 0x202f
    ||| x == 0x205f
    ||| x == 0x3000
}

/// Whether `c` is white space, as `char::is_whitespace` decides.
pub fn is_whitespace(c: char) -> (r: bool)
    ensures
        r == is_ws(c),
{
    let x = c as u32;
    x == 0x20 || (0x09 <= x && x <= 0x0d) || x == 0x85 || x == 0xa0 || x == 0x1680 || (0x2000
        <= x && x <= 0x200a) || x == 0x2028 || x == 0x2029 || x == 0x202f || x == 0x205f || x
        == 0x3000
}

/// Whether `c` is an ASCII decimal digit.
pub open spec fn is_digit(c: char) -> bool {
    '0' <= c <= '9'
}

/// Value of a string of decimal digits, most significant first.
pub open spec fn digits_value(s: Seq<char>) -> nat
    decreases s.len(),
{
    if s.len() == 0 {
        0
    } else {
        digits_value(s.drop_last()) * 10 + ((s.last() as u32 - 48) as nat)
    }
}

/// The number that decimal text `s` spells: an optional `+`, then one or
/// more ASCII digits, as `str::parse` reads an unsigned integer.
pub open spec fn decimal_value(s: Seq<char>) -> Option<nat> {
    let d = unsigned_digits(s);
    if d.len() > 0 && all_digits(d) {
        Some(digits_value(d))
    } else {
        None
    }
}

/// `s` without one leading `+`.
pub open spec fn unsigned_digits(s: Seq<char>) -> Seq<char> {
    if s.len() > 0 && s[0] == '+' {
        s.drop_first()
    } else {
        s
    }
}

/// Whether every character of `s` is an ASCII digit.
pub open spec fn all_digits(s: Seq<char>) -> bool {
    forall|i: int| 0 <= i < s.len() ==> is_digit(#[trigger] s[i])
}

/// The `u64` that decimal text `s` spells, or `None` when `s` is not decimal
/// or the value does not fit.
pub open spec fn spec_parse_u64(s: Seq<char>) -> Option<u64> {
    match decimal_value(s) {
        Some(v) => if v <= u64::MAX {
            Some(v as u64)
        } else {
            None
        },
        None => None,
    }
}

proof fn lemma_digits_value_step(s: Seq<char>, k: int)
    requires
        0 <= k < s.len(),
    ensures
        digits_value(s.take(k + 1)) == digits_value(s.take(k)) * 10 + ((s[k] as u32 - 48) as nat),
{
    assert(s.take(k + 1).drop_last() =~= s.take(k));
}

/// Reads a `u64` in decimal from characters, the way `str::parse::<u64>`
/// does.
pub fn parse_u64_chars(s: &[char]) -> (r: Option<u64>)
    ensures
        r == spec_parse_u64(s@),
{
    let n = s.len();
    let start: usize = if n > 0 && s[0] == '+' { 1 } else { 0 };
    let ghost d = unsigned_digits(s@);
    assert(d =~= s@.skip(start as int));
    if start == n {
        return None;
    }
    let mut value: u64 = 0;
    let mut overflow = false;
    let mut i = start;
    while i < n
        invariant
            start <= i <= n,
            n == s@.len(),
            d == s@.skip(start as int),
            d == unsigned_digits(s@),
            forall|j: int| start <= j < i ==> is_digit(#[trigger] s@[j]),
            !overflow ==> value == digits_value(d.take(i - start)),
            overflow ==> digits_value(d.take(i - start)) > u64::MAX,
        decreases n - i,
    {
        let c = s[i];
        if !('0' <= c && c <= '9') {
            assert(d[i - start] == s@[i as int]);
            assert(!is_digit(d[i - start]));
            assert(!all_digits(d));
            return None;
        }
        proof {
            lemma_digits_value_step(d, i - start);
        }
        let digit = (c as u32 - 48) as u64;
        if !overflow {
            match value.checked_mul(10) {
                Some(t) => match t.checked_add(digit) {
                    Some(v) => {
                        value = v;
                    },
                    None => {
                        overflow = true;
                    },
                },
                None => {
                    overflow = true;
                },
            }
        } else {
            assert(digits_value(d.take(i - start)) * 10 >= digits_value(d.take(i - start)));
        }
        i = i + 1;
    }
    assert(d.take(n - start) =~= d);
    assert forall|j: int| 0 <= j < d.len() implies is_digit(#[trigger] d[j]) by {
        assert(d[j] == s@[j + start]);
    }
    if overflow {
        None
    } else {
        Some(value)
    }
}

/// Whether `needle` occurs in `hay` as a run of consecutive characters.
pub open spec fn contains_seq(hay: Seq<char>, needle: Seq<char>) -> bool {
    exists|i: int| 0 <= i <= hay.len() - needle.len() && #[trigger] hay.subrange(i, i + needle.len()) == needle
}

/// Whether `needle` occurs in `hay`.
pub fn contains_chars(hay: &[char], needle: &[char]) -> (r: bool)
    ensures
        r == contains_seq(hay@, needle@),
{
    let n = hay.len();
    let m = needle.len();
    if m > n {
        return false;
    }
    let mut i: usize = 0;
    while i <= n - m
        invariant
            n == hay@.len(),
            m == needle@.len(),
            m <= n,
            0 <= i <= n - m + 1,
            forall|k: int| 0 <= k < i ==> #[trigger] hay@.subrange(k, k + m) != needle@,
        decreases n - m + 1 - i,
    {
        let mut j: usize = 0;
        let mut same = true;
        while j < m
            invariant
                n == hay@.len(),
                m == needle@.len(),
                i + m <= n,
                0 <= j <= m,
                same == (forall|t: int| 0 <= t < j ==> hay@[i + t] == needle@[t]),
            decreases m - j,
        {
            if hay[i + j] != needle[j] {
                same = false;
            }
            j = j + 1;
        }
        if same {
            assert(hay@.subrange(i as int, i + m) =~= needle@);
            return true;
        }
        assert(hay@.subrange(i as int, i + m)[0] == hay@[i as int + 0]);
        assert(!(forall|t: int| 0 <= t < m ==> hay@[i + t] == needle@[t]));
        assert(hay@.subrange(i as int, i + m) != needle@) by {
            let t = choose|t: int| 0 <= t < m && hay@[i + t] != needle@[t];
            assert(hay@.subrange(i as int, i + m)[t] == hay@[i + t]);
        }
        i = i + 1;
    }
    false
}

/// Whether `needle` occurs in the string `hay`.
pub fn str_contains(hay: &str, needle: &str) -> (r: bool)
    ensures
        r == contains_seq(hay@, needle@),
{
    let h = chars_of(hay);
    let n = chars_of(needle);
    contains_chars(h.as_slice(), n.as_slice())
}

/// Number of white-space characters that `s` starts with.
pub open spec fn leading_ws(s: Seq<char>) -> nat
    decreases s.len(),
{
    if s.len() > 0 && is_ws(s[0]) {
        1 + leading_ws(s.drop_first())
    } else {
        0
    }
}

/// Number of characters before the first white space of `s`.
pub open spec fn token_len(s: Seq<char>) -> nat
    decreases s.len(),
{
    if s.len() > 0 && !is_ws(s[0]) {
        1 + token_len(s.drop_first())
    } else {
        0
    }
}

/// The first white-space separated token of `s` and what follows it, or
/// `None` when `s` is all white space.
pub open spec fn next_token(s: Seq<char>) -> Option<(Seq<char>, Seq<char>)> {
    let t = s.skip(leading_ws(s) as int);
    if t.len() == 0 {
        None
    } else {
        let k = token_len(t) as int;
        Some((t.take(k), t.skip(k)))
    }
}

proof fn lemma_subrange_first(s: Seq<char>, j: int, end: int)
    requires
        0 <= j < end <= s.len(),
    ensures
        s.subrange(j, end)[0] == s[j],
        s.subrange(j, end).drop_first() =~= s.subrange(j + 1, end),
{
}

/// Bounds of the first token of `chars[start..end]`.
pub fn token_at(chars: &Vec<char>, start: usize, end: usize) -> (r: Option<(usize, usize)>)
    requires
        start <= end <= chars@.len(),
    ensures
        match next_token(chars@.subrange(start as int, end as int)) {
            None => r is None,
            Some((tok, rest)) => r matches Some((ts, te)) && start <= ts < te <= end
                && chars@.subrange(ts as int, te as int) == tok && chars@.subrange(te as int, end as int)
                == rest,
        },
{
    let ghost whole = chars@.subrange(start as int, end as int);
    let mut j = start;
    while j < end && is_whitespace(chars[j])
        invariant
            start <= j <= end <= chars@.len(),
            whole == chars@.subrange(start as int, end as int),
            leading_ws(whole) == (j - start) + leading_ws(chars@.subrange(j as int, end as int)),
        decreases end - j,
    {
        proof {
            lemma_subrange_first(chars@, j as int, end as int);
        }
        j = j + 1;
    }
    proof {
        if j < end {
            lemma_subrange_first(chars@, j as int, end as int);
        }
        assert(leading_ws(chars@.subrange(j as int, end as int)) == 0);
        assert(whole.skip(j - start) =~= chars@.subrange(j as int, end as int));
    }
    if j == end {
        return None;
    }
    let ts = j;
    let ghost t = chars@.subrange(ts as int, end as int);
    while j < end && !is_whitespace(chars[j])
        invariant
            ts <= j <= end <= chars@.len(),
            t == chars@.subrange(ts as int, end as int),
            token_len(t) == (j - ts) + token_len(chars@.subrange(j as int, end as int)),
        decreases end - j,
    {
        proof {
            lemma_subrange_first(chars@, j as int, end as int);
        }
        j = j + 1;
    }
    proof {
        if j < end {
            lemma_subrange_first(chars@, j as int, end as int);
        }
        lemma_subrange_first(chars@, ts as int, end as int);
        assert(token_len(chars@.subrange(j as int, end as int)) == 0);
        assert(t.take(j - ts) =~= chars@.subrange(ts as int, j as int));
        assert(t.skip(j - ts) =~= chars@.subrange(j as int, end as int));
    }
    Some((ts, j))
}

/// `s` with its ASCII capitals lowered, as `str::to_ascii_lowercase` does.
pub open spec fn ascii_lower(s: Seq<char>) -> Seq<char> {
    s.map_values(|c: char| if 'A' <= c <= 'Z' { ((c as u32) + 32) as char } else { c })
}

/// Whether `chars[start..end]`, lowered, equals `target`.
pub fn lower_equals(chars: &Vec<char>, start: usize, end: usize, target: &Vec<char>) -> (r: bool)
    requires
        start <= end <= chars@.len(),
    ensures
        r == (ascii_lower(chars@.subrange(start as int, end as int)) == target@),
{
    let ghost low = ascii_lower(chars@.subrange(start as int, end as int));
    if end - start != target.len() {
        assert(low.len() != target@.len());
        return false;
    }
    let mut k: usize = 0;
    while k < target.len()
        invariant
            start <= end <= chars@.len(),
            end - start == target@.len(),
            0 <= k <= target@.len(),
            low == ascii_lower(chars@.subrange(start as int, end as int)),
            forall|t: int| 0 <= t < k ==> low[t] == target@[t],
        decreases target.len() - k,
    {
        let c = chars[start + k];
        let lc = if 'A' <= c && c <= 'Z' { ((c as u8) + 32) as char } else { c };
        assert(low[k as int] == lc);
        if lc != target[k] {
            return false;
        }
        k = k + 1;
    }
    assert(low =~= target@);
    true
}

/// The string of `chars`, by collecting them with `FromIterator`.
///
/// Trusted: collecting characters into a `String` keeps them, in order.
#[verifier::external_body]
pub fn string_from_chars(chars: &Vec<char>) -> (s: String)
    ensures
        s@ == chars@,
{
    chars.iter().collect()
}

/// The digit character of `d`, for `d` below ten.
pub open spec fn digit_char(d: int) -> char {
    (48 + d) as char
}

/// Decimal text of `n`, most significant digit first, without leading zeros.
pub open spec fn decimal_text(n: nat) -> Seq<char>
    decreases n,
{
    if n < 10 {
        seq![digit_char(n as int)]
    } else {
        decimal_text(n / 10).push(digit_char((n % 10) as int))
    }
}

/// Decimal text of `n`, as `u64`'s `Display` writes it.
pub fn decimal_string(n: u64) -> (s: String)
    ensures
        s@ == decimal_text(n as nat),
{
    let mut rev: Vec<char> = Vec::new();
    let mut m = n;
    loop
        invariant_except_break
            decimal_text(n as nat) == decimal_text(m as nat) + rev@.reverse(),
        ensures
            decimal_text(n as nat) == rev@.reverse(),
        decreases m,
    {
        let d = m % 10;
        let c = ((d as u8) + 48) as char;
        assert(c == digit_char(d as int));
        if m < 10 {
            proof {
                assert(decimal_text(m as nat) == seq![c]);
            }
            let ghost old_rev = rev@;
            rev.push(c);
            assert(rev@.reverse() =~= seq![c] + old_rev.reverse());
            break;
        }
        proof {
            assert(decimal_text(m as nat) == decimal_text((m / 10) as nat).push(c));
        }
        let ghost old_rev = rev@;
        rev.push(c);
        assert(rev@.reverse() =~= seq![c] + old_rev.reverse());
        m = m / 10;
    }
    let mut out: Vec<char> = Vec::new();
    let mut i = rev.len();
    while i > 0
        invariant
            0 <= i <= rev@.len(),
            out@ == rev@.subrange(i as int, rev@.len() as int).reverse(),
        decreases i,
    {
        i = i - 1;
        out.push(rev[i]);
        assert(out@ =~= rev@.subrange(i as int, rev@.len() as int).reverse());
    }
    assert(rev@.subrange(0, rev@.len() as int) =~= rev@);
    assert(decimal_text(n as nat) =~= out@);
    string_from_chars(&out)
}

/// Whether `a` comes strictly before `b` in lexicographic order of code
/// points, which for UTF-8 text is also the order of their bytes, the order
/// of `str`'s `Ord`.
pub open spec fn seq_lt(a: Seq<char>, b: Seq<char>) -> bool
    decreases a.len(),
{
    if a.len() == 0 {
        b.len() > 0
    } else if b.len() == 0 {
        false
    } else if a[0] != b[0] {
        a[0] < b[0]
    } else {
        seq_lt(a.skip(1), b.skip(1))
    }
}

/// No text comes before itself.
pub proof fn lemma_seq_lt_irreflexive(a: Seq<char>)
    ensures
        !seq_lt(a, a),
    decreases a.len(),
{
    if a.len() > 0 {
        lemma_seq_lt_irreflexive(a.skip(1));
    }
}

/// Lexicographic order is transitive.
pub proof fn lemma_seq_lt_transitive(a: Seq<char>, b: Seq<char>, c: Seq<char>)
    requires
        seq_lt(a, b),
        seq_lt(b, c),
    ensures
        seq_lt(a, c),
    decreases a.len(),
{
    if a.len() > 0 && b.len() > 0 && c.len() > 0 && a[0] == b[0] && b[0] == c[0] {
        lemma_seq_lt_transitive(a.skip(1), b.skip(1), c.skip(1));
    }
}

/// Of two different texts, one comes before the other.
pub proof fn lemma_seq_lt_total(a: Seq<char>, b: Seq<char>)
    requires
        a != b,
    ensures
        seq_lt(a, b) || seq_lt(b, a),
    decreases a.len(),
{
    if a.len() > 0 && b.len() > 0 {
        if a[0] == b[0] {
            if a.skip(1) =~= b.skip(1) {
                assert(a =~= seq![a[0]] + a.skip(1));
                assert(b =~= seq![b[0]] + b.skip(1));
                assert(false);
            }
            lemma_seq_lt_total(a.skip(1), b.skip(1));
            assert(seq_lt(a, b) == seq_lt(a.skip(1), b.skip(1)));
            assert(seq_lt(b, a) == seq_lt(b.skip(1), a.skip(1)));
        } else {
            assert(a[0] < b[0] || b[0] < a[0]);
        }
    } else if a.len() == 0 && b.len() == 0 {
        assert(a =~= b);
    }
}

/// No text comes both before and after another.
pub proof fn lemma_seq_lt_asymmetric(a: Seq<char>, b: Seq<char>)
    requires
        seq_lt(a, b),
    ensures
        !seq_lt(b, a),
{
    if seq_lt(b, a) {
        lemma_seq_lt_transitive(a, b, a);
        lemma_seq_lt_irreflexive(a);
    }
}

/// Texts that agree on their first `k` characters compare as their rests do.
proof fn lemma_seq_lt_skip(a: Seq<char>, b: Seq<char>, k: int)
    requires
        0 <= k <= a.len(),
        k <= b.len(),
        a.take(k) == b.take(k),
    ensures
        seq_lt(a, b) == seq_lt(a.skip(k), b.skip(k)),
    decreases k,
{
    if k == 0 {
        assert(a.skip(0) =~= a);
        assert(b.skip(0) =~= b);
    } else {
        assert(a[0] == a.take(k)[0]);
        assert(b[0] == b.take(k)[0]);
        assert(seq_lt(a, b) == seq_lt(a.skip(1), b.skip(1)));
        assert(a.skip(1).take(k - 1) =~= a.take(k).skip(1));
        assert(b.skip(1).take(k - 1) =~= b.take(k).skip(1));
        lemma_seq_lt_skip(a.skip(1), b.skip(1), k - 1);
        assert(a.skip(1).skip(k - 1) =~= a.skip(k));
        assert(b.skip(1).skip(k - 1) =~= b.skip(k));
    }
}

/// Whether `a` comes strictly before `b`, as `str`'s `<` decides.
pub fn str_lt(a: &str, b: &str) -> (r: bool)
    ensures
        r == seq_lt(a@, b@),
{
    let x = chars_of(a);
    let y = chars_of(b);
    let mut i: usize = 0;
    while i < x.len() && i < y.len() && x[i] == y[i]
        invariant
            0 <= i <= x@.len(),
            i <= y@.len(),
            x@ == a@,
            y@ == b@,
            x@.take(i as int) == y@.take(i as int),
        decreases x.len() - i,
    {
        assert(x@.take(i + 1) =~= x@.take(i as int).push(x@[i as int]));
        assert(y@.take(i + 1) =~= y@.take(i as int).push(y@[i as int]));
        i = i + 1;
    }
    proof {
        lemma_seq_lt_skip(x@, y@, i as int);
    }
    if i == x.len() {
        i < y.len()
    } else if i == y.len() {
        false
    } else {
        x[i] < y[i]
    }
}

} // verus!

//! Text as sequences of characters: searching, cutting, comparing, parsing and
//! printing, each stated over the characters of its argument.
use vstd::prelude::*;

verus! {

/// The views of a list of strings.
pub open spec fn texts(v: Seq<String>) -> Seq<Seq<char>> {
    Seq::new(v.len(), |i: int| v[i]@)
}

/// The characters of `s` as a vector.
pub fn chars(s: &str) -> (r: Vec<char>)
    ensures
        r@ == s@,
{
    let mut out: Vec<char> = Vec::new();
    for c in it: s.chars()
        invariant
            it.seq() == s@,
            out@ == s@.take(it.index() as int),
    {
        out.push(c);
    }
    out
}

/// Whether two texts hold the same characters.
pub fn text_eq(a: &str, b: &str) -> (r: bool)
    ensures
        r == (a@ == b@),
{
    let x = chars(a);
    let y = chars(b);
    if x.len() != y.len() {
        return false;
    }
    let n: usize = x.len();
    let mut i: usize = 0;
    while i < n
        invariant
            i <= n,
            n == x.len(),
            n == y.len(),
            x@ == a@,
            y@ == b@,
            forall|k: int| 0 <= k < i ==> x@[k] == y@[k],
        decreases n - i,
    {
        if x[i] != y[i] {
            return false;
        }
        i += 1;
    }
    assert(a@ =~= b@);
    true
}

/// Whether `name` is one of `names`.
pub fn listed(names: &Vec<String>, name: &str) -> (r: bool)
    ensures
        r == texts(names@).contains(name@),
{
    let n: usize = names.len();
    let mut i: usize = 0;
    while i < n
        invariant
            i <= n,
            n == names.len(),
            forall|k: int| 0 <= k < i ==> #[trigger] texts(names@)[k] != name@,
        decreases n - i,
    {
        assert(texts(names@)[i as int] == names@[i as int]@);
        if text_eq(names[i].as_str(), name) {
            return true;
        }
        i += 1;
    }
    false
}


/// The pieces of `s` between the occurrences of `sep`; never empty.
pub open spec fn split(s: Seq<char>, sep: char) -> Seq<Seq<char>>
    decreases s.len(),
{
    if s.len() == 0 {
        seq![Seq::<char>::empty()]
    } else {
        let front = split(s.drop_last(), sep);
        if s.last() == sep {
            front.push(Seq::<char>::empty())
        } else {
            front.update(front.len() - 1, front.last().push(s.last()))
        }
    }
}

/// The pieces put back together with `sep` between them.
pub open spec fn joined(pieces: Seq<Seq<char>>, sep: char) -> Seq<char>
    decreases pieces.len(),
{
    if pieces.len() == 0 {
        Seq::<char>::empty()
    } else if pieces.len() == 1 {
        pieces[0]
    } else {
        joined(pieces.drop_last(), sep).push(sep) + pieces.last()
    }
}

pub proof fn lemma_split_nonempty(s: Seq<char>, sep: char)
    ensures
        split(s, sep).len() >= 1,
    decreases s.len(),
{
    if s.len() > 0 {
        lemma_split_nonempty(s.drop_last(), sep);
    }
}

/// Splitting loses nothing: the pieces joined by the separator are the text, and
/// no piece holds the separator.
pub proof fn law_split_joins(s: Seq<char>, sep: char)
    ensures
        joined(split(s, sep), sep) == s,
        forall|i: int| 0 <= i < split(s, sep).len() ==> !(#[trigger] split(s, sep)[i]).contains(sep),
    decreases s.len(),
{
    lemma_split_nonempty(s, sep);
    if s.len() > 0 {
        let front = split(s.drop_last(), sep);
        let all = split(s, sep);
        lemma_split_nonempty(s.drop_last(), sep);
        law_split_joins(s.drop_last(), sep);
        assert(s =~= s.drop_last().push(s.last()));
        if s.last() == sep {
            assert(all.drop_last() =~= front);
            assert(joined(all, sep) =~= s);
            assert forall|i: int| 0 <= i < all.len() implies !(#[trigger] all[i]).contains(sep) by {
                if i < front.len() {
                    assert(all[i] == front[i]);
                }
            }
        } else {
            assert(all.drop_last() =~= front.drop_last());
            assert(joined(all, sep) =~= joined(front, sep).push(s.last()));
            assert(joined(all, sep) =~= s);
            assert forall|i: int| 0 <= i < all.len() implies !(#[trigger] all[i]).contains(sep) by {
                if i < front.len() - 1 {
                    assert(all[i] == front[i]);
                } else {
                    assert(!front[i].contains(sep));
                    assert forall|k: int| 0 <= k < all[i].len() implies all[i][k] != sep by {
                        if k < front[i].len() {
                            assert(all[i][k] == front[i][k]);
                            assert(front[i].contains(front[i][k]));
                        }
                    }
                }
            }
        }
    } else {
        assert(split(s, sep)[0] =~= Seq::<char>::empty());
        assert(s =~= Seq::<char>::empty());
    }
}

/// The pieces of `s` between the occurrences of `sep`.
pub fn split_text(s: &str, sep: char) -> (r: Vec<String>)
    ensures
        texts(r@) == split(s@, sep),
        r.len() >= 1,
{
    let cs = chars(s);
    let n: usize = cs.len();
    let mut out: Vec<String> = Vec::new();
    let mut start: usize = 0;
    let mut i: usize = 0;
    proof {
        assert(s@.take(0) =~= Seq::<char>::empty());
        assert(texts(out@).push(s@.subrange(0, 0)) =~= split(s@.take(0), sep));
    }
    while i < n
        invariant
            start <= i <= n,
            n == s@.len(),
            cs@ == s@,
            texts(out@).push(s@.subrange(start as int, i as int)) == split(s@.take(i as int), sep),
        decreases n - i,
    {
        let ghost front = split(s@.take(i as int), sep);
        let ghost before = texts(out@);
        proof {
            assert(s@.take(i as int + 1).drop_last() =~= s@.take(i as int));
        }
        if cs[i] == sep {
            out.push(s.substring_char(start, i).to_owned());
            start = i + 1;
            proof {
                assert(texts(out@) =~= front);
                assert(s@.subrange(start as int, i as int + 1) =~= Seq::<char>::empty());
                assert(texts(out@).push(s@.subrange(start as int, i as int + 1)) =~= split(
                    s@.take(i as int + 1),
                    sep,
                ));
            }
        } else {
            proof {
                assert(front.last() == s@.subrange(start as int, i as int));
                assert(s@.subrange(start as int, i as int + 1) =~= s@.subrange(start as int, i as int).push(s@[i as int]));
                assert(before.push(s@.subrange(start as int, i as int + 1)) =~= split(s@.take(i as int + 1), sep));
            }
        }
        i += 1;
    }
    proof {
        assert(s@.take(n as int) =~= s@);
    }
    let ghost before = texts(out@);
    out.push(s.substring_char(start, n).to_owned());
    proof {
        assert(texts(out@) =~= before.push(s@.subrange(start as int, n as int)));
    }
    out
}

/// Whether `c` has Unicode's `White_Space` property.
pub open spec fn is_space(c: char) -> bool {
    ||| '\u{9}' <= c <= '\u{d}'
    ||| c == ' '
    ||| c == '\u{85}'
    ||| c == '\u{a0}'
    ||| c == '\u{1680}'
    ||| '\u{2000}' <= c <= '\u{200a}'
    ||| c == '\u{2028}'
    ||| c == '\u{2029}'
    ||| c == '\u{202f}'
    ||| c == '\u{205f}'
    ||| c == '\u{3000}'
}

fn space(c: char) -> (r: bool)
    ensures
        r == is_space(c),
{
    ('\u{9}' <= c && c <= '\u{d}') || c == ' ' || c == '\u{85}' || c == '\u{a0}' || c == '\u{1680}' || ('\u{2000}'
        <= c && c <= '\u{200a}') || c == '\u{2028}' || c == '\u{2029}' || c == '\u{202f}' || c == '\u{205f}' || c
        == '\u{3000}'
}

/// `s` without the white space at its start.
pub open spec fn trim_start(s: Seq<char>) -> Seq<char>
    decreases s.len(),
{
    if s.len() > 0 && is_space(s[0]) {
        trim_start(s.drop_first())
    } else {
        s
    }
}

/// `s` without the white space at its end.
pub open spec fn trim_end(s: Seq<char>) -> Seq<char>
    decreases s.len(),
{
    if s.len() > 0 && is_space(s.last()) {
        trim_end(s.drop_last())
    } else {
        s
    }
}

/// `s` without the white space around it.
pub open spec fn trimmed(s: Seq<char>) -> Seq<char> {
    trim_end(trim_start(s))
}

/// `s` without the white space around it.
pub fn trim(s: &str) -> (r: &str)
    ensures
        r@ == trimmed(s@),
{
    let cs = chars(s);
    let n: usize = cs.len();
    let mut a: usize = 0;
    proof {
        assert(s@.skip(0) =~= s@);
    }
    while a < n && space(cs[a])
        invariant
            a <= n,
            n == s@.len(),
            cs@ == s@,
            trim_start(s@) == trim_start(s@.skip(a as int)),
        decreases n - a,
    {
        proof {
            assert(s@.skip(a as int).drop_first() =~= s@.skip(a as int + 1));
        }
        a += 1;
    }
    let mut b: usize = n;
    proof {
        assert(trim_start(s@) == s@.skip(a as int));
        assert(s@.subrange(a as int, b as int) =~= s@.skip(a as int));
    }
    while b > a && space(cs[b - 1])
        invariant
            a <= b <= n,
            n == s@.len(),
            cs@ == s@,
            trimmed(s@) == trim_end(s@.subrange(a as int, b as int)),
        decreases b,
    {
        proof {
            assert(s@.subrange(a as int, b as int).drop_last() =~= s@.subrange(a as int, b as int - 1));
        }
        b -= 1;
    }
    s.substring_char(a, b)
}

/// Whether `c` is an ASCII digit.
pub open spec fn is_digit(c: char) -> bool {
    '0' <= c <= '9'
}

/// Whether `s` holds ASCII digits and nothing else.
pub open spec fn all_digits(s: Seq<char>) -> bool {
    forall|i: int| 0 <= i < s.len() ==> is_digit(#[trigger] s[i])
}

/// The number that a row of decimal digits writes.
pub open spec fn digits_value(s: Seq<char>) -> nat
    decreases s.len(),
{
    if s.len() == 0 {
        0
    } else {
        (digits_value(s.drop_last()) * 10 + (s.last() as int - '0' as int)) as nat
    }
}

/// The longest front of `s` that holds only ASCII digits.
pub open spec fn leading_digits(s: Seq<char>) -> Seq<char>
    decreases s.len(),
{
    if s.len() > 0 && is_digit(s[0]) {
        seq![s[0]] + leading_digits(s.drop_first())
    } else {
        Seq::<char>::empty()
    }
}

/// `s` read as a signed decimal: an optional sign and at least one digit.
pub open spec fn signed_decimal(s: Seq<char>) -> Option<int> {
    let signed = s.len() > 0 && (s[0] == '-' || s[0] == '+');
    let body = if signed {
        s.skip(1)
    } else {
        s
    };
    if body.len() == 0 || !all_digits(body) {
        None
    } else if signed && s[0] == '-' {
        Some(-(digits_value(body) as int))
    } else {
        Some(digits_value(body) as int)
    }
}

/// `s` read as an unsigned decimal: an optional plus and at least one digit.
pub open spec fn unsigned_decimal(s: Seq<char>) -> Option<int> {
    if s.len() > 0 && s[0] == '-' {
        None
    } else {
        signed_decimal(s)
    }
}

/// `v` where it lies between the bounds.
pub open spec fn within(v: Option<int>, lo: int, hi: int) -> Option<int> {
    match v {
        Some(n) => if lo <= n <= hi {
            Some(n)
        } else {
            None
        },
        None => None,
    }
}

/// A front of a row of digits is worth no more than the whole row.
proof fn lemma_digits_grow(s: Seq<char>, k: int)
    requires
        0 <= k <= s.len(),
        all_digits(s),
    ensures
        digits_value(s.take(k)) <= digits_value(s),
    decreases s.len() - k,
{
    if k == s.len() {
        assert(s.take(k) =~= s);
    } else {
        lemma_digits_grow(s, k + 1);
        assert(s.take(k + 1).drop_last() =~= s.take(k));
        assert(is_digit(s[k]));
    }
}

/// The value of the digits of `cs` from `from` on, where it is at most `limit`.
fn bounded_digits(cs: &Vec<char>, from: usize, limit: u64) -> (r: Option<u64>)
    requires
        from <= cs.len(),
    ensures
        ({
            let body = cs@.skip(from as int);
            match r {
                Some(v) => body.len() > 0 && all_digits(body) && v == digits_value(body) && v <= limit,
                None => body.len() == 0 || !all_digits(body) || digits_value(body) > limit,
            }
        }),
{
    let n: usize = cs.len();
    let ghost body = cs@.skip(from as int);
    if from == n {
        return None;
    }
    // Digits first, so that a value beyond the limit is told from other text.
    let mut j: usize = from;
    while j < n
        invariant
            from <= j <= n,
            n == cs.len(),
            body == cs@.skip(from as int),
            forall|k: int| 0 <= k < j - from ==> is_digit(#[trigger] body[k]),
        decreases n - j,
    {
        if !('0' <= cs[j] && cs[j] <= '9') {
            assert(!is_digit(body[j - from]));
            return None;
        }
        assert(body[j - from] == cs@[j as int]);
        j += 1;
    }
    assert(all_digits(body));
    let mut i: usize = from;
    let mut v: u64 = 0;
    while i < n
        invariant
            from <= i <= n,
            n == cs.len(),
            body == cs@.skip(from as int),
            all_digits(body),
            v == digits_value(body.take(i - from)),
            v <= limit,
        decreases n - i,
    {
        let c: char = cs[i];
        proof {
            assert(body.take(i - from + 1).drop_last() =~= body.take(i - from));
            assert(c == body[i - from]);
            assert(is_digit(body[i - from]));
        }
        let d: u64 = (c as u32 - '0' as u32) as u64;
        assert(digits_value(body.take(i - from + 1)) == v * 10 + d);
        if d > limit || v > limit / 10 || v * 10 > limit - d {
            proof {
                lemma_digits_grow(body, i - from + 1);
            }
            return None;
        }
        v = v * 10 + d;
        i += 1;
    }
    assert(body.take(n - from) =~= body);
    Some(v)
}

/// `s` as an `i64`, where it writes one.
pub fn parse_i64(s: &str) -> (r: Option<i64>)
    ensures
        within(signed_decimal(s@), i64::MIN as int, i64::MAX as int) == (match r {
            Some(v) => Some(v as int),
            None => None,
        }),
{
    let cs = chars(s);
    if cs.len() > 0 && cs[0] == '-' {
        match bounded_digits(&cs, 1, 9_223_372_036_854_775_808) {
            Some(v) => {
                if v == 9_223_372_036_854_775_808 {
                    Some(i64::MIN)
                } else {
                    Some(-(v as i64))
                }
            },
            None => None,
        }
    } else {
        let from: usize = if cs.len() > 0 && cs[0] == '+' {
            1
        } else {
            0
        };
        proof {
            assert(s@.skip(0) =~= s@);
        }
        match bounded_digits(&cs, from, 9_223_372_036_854_775_807) {
            Some(v) => Some(v as i64),
            None => None,
        }
    }
}

/// `s` as an unsigned number of at most `limit`, where it writes one.
pub fn parse_unsigned(s: &str, limit: u64) -> (r: Option<u64>)
    ensures
        within(unsigned_decimal(s@), 0, limit as int) == (match r {
            Some(v) => Some(v as int),
            None => None,
        }),
{
    let cs = chars(s);
    if cs.len() > 0 && cs[0] == '-' {
        return None;
    }
    let from: usize = if cs.len() > 0 && cs[0] == '+' {
        1
    } else {
        0
    };
    proof {
        assert(s@.skip(0) =~= s@);
    }
    bounded_digits(&cs, from, limit)
}

/// The digit that stands for `d`.
pub open spec fn digit_char(d: int) -> char {
    (('0' as int) + d) as char
}

/// `n` in decimal, without leading zeros.
pub open spec fn decimal(n: nat) -> Seq<char>
    decreases n,
{
    if n < 10 {
        seq![digit_char(n as int)]
    } else {
        decimal(n / 10).push(digit_char((n % 10) as int))
    }
}

/// `n` in decimal, with a minus where it is negative.
pub open spec fn signed_text(n: int) -> Seq<char> {
    if n < 0 {
        seq!['-'] + decimal((-n) as nat)
    } else {
        decimal(n as nat)
    }
}

/// Printing and reading are inverse: the decimal digits of `n` read back as `n`.
pub proof fn law_decimal_reads_back(n: nat)
    ensures
        all_digits(decimal(n)),
        digits_value(decimal(n)) == n,
        decimal(n).len() > 0,
        unsigned_decimal(decimal(n)) == Some(n as int),
    decreases n,
{
    if n < 10 {
        let s = decimal(n);
        assert(s.drop_last() =~= Seq::<char>::empty());
        assert(s.last() == digit_char(n as int));
        assert(digits_value(s.drop_last()) == 0);
    } else {
        law_decimal_reads_back(n / 10);
        let s = decimal(n);
        assert(s.drop_last() =~= decimal(n / 10));
        assert(is_digit(s.last()));
        assert forall|i: int| 0 <= i < s.len() implies is_digit(#[trigger] s[i]) by {
            if i < s.len() - 1 {
                assert(s[i] == decimal(n / 10)[i]);
            }
        }
    }
    assert(is_digit(decimal(n)[0]));
}

/// One decimal digit.
fn digit_text(d: u64) -> (r: &'static str)
    requires
        d < 10,
    ensures
        r@ == seq![digit_char(d as int)],
{
    proof {
        reveal_strlit("0");
        reveal_strlit("1");
        reveal_strlit("2");
        reveal_strlit("3");
        reveal_strlit("4");
        reveal_strlit("5");
        reveal_strlit("6");
        reveal_strlit("7");
        reveal_strlit("8");
        reveal_strlit("9");
    }
    let r: &'static str = if d == 0 {
        "0"
    } else if d == 1 {
        "1"
    } else if d == 2 {
        "2"
    } else if d == 3 {
        "3"
    } else if d == 4 {
        "4"
    } else if d == 5 {
        "5"
    } else if d == 6 {
        "6"
    } else if d == 7 {
        "7"
    } else if d == 8 {
        "8"
    } else {
        "9"
    };
    assert(r@ =~= seq![digit_char(d as int)]);
    r
}

/// `n` in decimal.
pub fn print_unsigned(n: u64) -> (r: String)
    ensures
        r@ == decimal(n as nat),
    decreases n,
{
    if n < 10 {
        digit_text(n).to_owned()
    } else {
        let mut r = print_unsigned(n / 10);
        r.append(digit_text(n % 10));
        assert(r@ =~= decimal(n as nat));
        r
    }
}

/// `n` in decimal, with a minus where it is negative.
pub fn print_signed(n: i64) -> (r: String)
    ensures
        r@ == signed_text(n as int),
{
    if n < 0 {
        let magnitude: u64 = if n == i64::MIN {
            9_223_372_036_854_775_808
        } else {
            (-n) as u64
        };
        let mut r = "-".to_owned();
        proof {
            reveal_strlit("-");
        }
        r.append(print_unsigned(magnitude).as_str());
        assert(r@ =~= signed_text(n as int));
        r
    } else {
        print_unsigned(n as u64)
    }
}

/// The three texts one after the other.
pub fn cat3(a: &str, b: &str, c: &str) -> (r: String)
    ensures
        r@ == a@ + b@ + c@,
{
    let mut r = a.to_owned();
    r.append(b);
    r.append(c);
    r
}

/// Whether `s` begins with `front`.
pub open spec fn has_prefix(s: Seq<char>, front: Seq<char>) -> bool {
    front.len() <= s.len() && s.take(front.len() as int) == front
}

/// Whether `s` ends with `back`.
pub open spec fn has_suffix(s: Seq<char>, back: Seq<char>) -> bool {
    back.len() <= s.len() && s.skip(s.len() - back.len()) == back
}

/// What follows `front` in `s`, where `s` begins with it.
pub fn strip_prefix<'a>(s: &'a str, front: &str) -> (r: Option<&'a str>)
    ensures
        match r {
            Some(rest) => has_prefix(s@, front@) && rest@ == s@.skip(front@.len() as int),
            None => !has_prefix(s@, front@),
        },
{
    let n: usize = s.unicode_len();
    let k: usize = front.unicode_len();
    if k > n {
        return None;
    }
    if text_eq(s.substring_char(0, k), front) {
        assert(s@.take(k as int) =~= s@.subrange(0, k as int));
        let r = s.substring_char(k, n);
        assert(r@ =~= s@.skip(k as int));
        Some(r)
    } else {
        assert(s@.take(k as int) =~= s@.subrange(0, k as int));
        None
    }
}

/// Whether `s` begins with `front`.
pub fn starts_with(s: &str, front: &str) -> (r: bool)
    ensures
        r == has_prefix(s@, front@),
{
    strip_prefix(s, front).is_some()
}

/// Whether `s` ends with `back`.
pub fn ends_with(s: &str, back: &str) -> (r: bool)
    ensures
        r == has_suffix(s@, back@),
{
    let n: usize = s.unicode_len();
    let k: usize = back.unicode_len();
    if k > n {
        return false;
    }
    assert(s@.skip(n - k) =~= s@.subrange(n - k, n as int));
    text_eq(s.substring_char(n - k, n), back)
}

/// Whether `pat` stands in `s` at position `i`.
pub open spec fn occurs_at(s: Seq<char>, pat: Seq<char>, i: int) -> bool {
    0 <= i && i + pat.len() <= s.len() && s.subrange(i, i + pat.len()) == pat
}

/// The last position below `n` at which `pat` stands in `s`.
pub open spec fn last_match_below(s: Seq<char>, pat: Seq<char>, n: nat) -> Option<int>
    decreases n,
{
    if n == 0 {
        None
    } else if occurs_at(s, pat, n - 1) {
        Some(n - 1)
    } else {
        last_match_below(s, pat, (n - 1) as nat)
    }
}

/// The last position at which `pat` stands in `s`.
pub open spec fn last_match(s: Seq<char>, pat: Seq<char>) -> Option<int> {
    last_match_below(s, pat, s.len() + 1)
}

/// `s` cut around the last `pat` in it.
pub fn rsplit_once<'a>(s: &'a str, pat: &str) -> (r: Option<(&'a str, &'a str)>)
    ensures
        match last_match(s@, pat@) {
            Some(i) => r matches Some((a, b)) && a@ == s@.take(i) && b@ == s@.skip(i + pat@.len()),
            None => r is None,
        },
{
    let n: usize = s.unicode_len();
    let k: usize = pat.unicode_len();
    if k > n {
        proof {
            lemma_no_long_match(s@, pat@, s@.len() + 1);
        }
        return None;
    }
    let mut m: usize = n - k;
    proof {
        lemma_match_fits(s@, pat@, s@.len() + 1);
    }
    loop
        invariant
            m <= n - k,
            k <= n,
            n == s@.len(),
            k == pat@.len(),
            last_match(s@, pat@) == last_match_below(s@, pat@, (m + 1) as nat),
        decreases m,
    {
        if text_eq(s.substring_char(m, m + k), pat) {
            let a = s.substring_char(0, m);
            let b = s.substring_char(m + k, n);
            assert(a@ =~= s@.take(m as int));
            assert(b@ =~= s@.skip(m + k));
            return Some((a, b));
        }
        if m == 0 {
            assert(last_match_below(s@, pat@, 0) is None);
            return None;
        }
        m -= 1;
    }
}

proof fn lemma_no_long_match(s: Seq<char>, pat: Seq<char>, n: nat)
    requires
        pat.len() > s.len(),
    ensures
        last_match_below(s, pat, n) is None,
    decreases n,
{
    if n > 0 {
        lemma_no_long_match(s, pat, (n - 1) as nat);
    }
}

proof fn lemma_match_fits(s: Seq<char>, pat: Seq<char>, n: nat)
    requires
        pat.len() <= s.len(),
        n >= s.len() - pat.len() + 1,
    ensures
        last_match_below(s, pat, n) == last_match_below(s, pat, (s.len() - pat.len() + 1) as nat),
    decreases n,
{
    if n > s.len() - pat.len() + 1 {
        lemma_match_fits(s, pat, (n - 1) as nat);
    }
}

/// What `last_match` names is an occurrence, and no later one exists.
pub proof fn law_last_match_is_last(s: Seq<char>, pat: Seq<char>)
    ensures
        match last_match(s, pat) {
            Some(i) => occurs_at(s, pat, i) && forall|j: int| j > i ==> !occurs_at(s, pat, j),
            None => forall|j: int| !occurs_at(s, pat, j),
        },
{
    lemma_last_below(s, pat, s.len() + 1);
}

proof fn lemma_last_below(s: Seq<char>, pat: Seq<char>, n: nat)
    ensures
        match last_match_below(s, pat, n) {
            Some(i) => occurs_at(s, pat, i) && forall|j: int| i < j < n ==> !occurs_at(s, pat, j),
            None => forall|j: int| 0 <= j < n ==> !occurs_at(s, pat, j),
        },
    decreases n,
{
    if n > 0 {
        lemma_last_below(s, pat, (n - 1) as nat);
    }
}

/// `s` with `to` in place of every `from`.
pub open spec fn replaced(s: Seq<char>, from: char, to: char) -> Seq<char> {
    Seq::new(s.len(), |i: int| if s[i] == from { to } else { s[i] })
}

/// `s` with the one-character text `to` in place of every `from`.
pub fn replace_char(s: &str, from: char, to: &str) -> (r: String)
    requires
        to@.len() == 1,
    ensures
        r@ == replaced(s@, from, to@[0]),
{
    let cs = chars(s);
    let n: usize = cs.len();
    let mut out = String::new();
    let mut start: usize = 0;
    let mut i: usize = 0;
    while i < n
        invariant
            start <= i <= n,
            n == s@.len(),
            cs@ == s@,
            to@.len() == 1,
            out@ == replaced(s@, from, to@[0]).take(start as int),
            forall|k: int| start <= k < i ==> s@[k] != from,
        decreases n - i,
    {
        if cs[i] == from {
            out.append(s.substring_char(start, i));
            out.append(to);
            assert(out@ =~= replaced(s@, from, to@[0]).take(i as int + 1));
            start = i + 1;
        }
        i += 1;
    }
    out.append(s.substring_char(start, n));
    assert(out@ =~= replaced(s@, from, to@[0]));
    out
}

proof fn lemma_leading_digits(s: Seq<char>, k: int)
    requires
        0 <= k <= s.len(),
        forall|i: int| 0 <= i < k ==> is_digit(#[trigger] s[i]),
        k == s.len() || !is_digit(s[k]),
    ensures
        leading_digits(s) == s.take(k),
    decreases k,
{
    if k == 0 {
        assert(s.take(0) =~= Seq::<char>::empty());
    } else {
        let rest = s.drop_first();
        assert forall|i: int| 0 <= i < k - 1 implies is_digit(#[trigger] rest[i]) by {
            assert(rest[i] == s[i + 1]);
        }
        lemma_leading_digits(rest, k - 1);
        assert(is_digit(s[0]));
        assert(seq![s[0]] + rest.take(k - 1) =~= s.take(k));
    }
}

/// The longest front of `s` that holds only ASCII digits.
pub fn digit_front(s: &str) -> (r: &str)
    ensures
        r@ == leading_digits(s@),
{
    let cs = chars(s);
    let n: usize = cs.len();
    let mut i: usize = 0;
    while i < n && '0' <= cs[i] && cs[i] <= '9'
        invariant
            i <= n,
            n == s@.len(),
            cs@ == s@,
            forall|k: int| 0 <= k < i ==> is_digit(#[trigger] s@[k]),
        decreases n - i,
    {
        assert(is_digit(s@[i as int]));
        i += 1;
    }
    proof {
        lemma_leading_digits(s@, i as int);
        assert(s@.subrange(0, i as int) =~= s@.take(i as int));
    }
    s.substring_char(0, i)
}

/// The first `n` pieces put together with `sep` between them.
pub fn join_text(pieces: &Vec<String>, n: usize, sep: &str) -> (r: String)
    requires
        n <= pieces.len(),
        sep@.len() == 1,
    ensures
        r@ == joined(texts(pieces@).take(n as int), sep@[0]),
{
    let ghost all = texts(pieces@);
    if n == 0 {
        let out = "".to_owned();
        proof {
            reveal_strlit("");
        }
        assert(out@ =~= joined(all.take(0), sep@[0]));
        return out;
    }
    let mut out = pieces[0].clone();
    let mut i: usize = 1;
    assert(all.take(1)[0] == pieces@[0]@);
    while i < n
        invariant
            1 <= i <= n,
            n <= pieces.len(),
            sep@.len() == 1,
            all == texts(pieces@),
            out@ == joined(all.take(i as int), sep@[0]),
        decreases n - i,
    {
        let ghost before = out@;
        out.append(sep);
        out.append(pieces[i].as_str());
        proof {
            assert(all.take(i as int + 1).drop_last() =~= all.take(i as int));
            assert(all.take(i as int + 1).last() == pieces@[i as int]@);
            assert(out@ =~= before.push(sep@[0]) + pieces@[i as int]@);
        }
        i += 1;
    }
    out
}

/// Cutting at a separator that stands between two texts cuts each by itself.
pub proof fn law_split_at_separator(a: Seq<char>, b: Seq<char>, sep: char)
    ensures
        split(a.push(sep) + b, sep) == split(a, sep) + split(b, sep),
    decreases b.len(),
{
    let whole = a.push(sep) + b;
    if b.len() == 0 {
        assert(whole =~= a.push(sep));
        assert(whole.drop_last() =~= a);
        assert(split(whole, sep) =~= split(a, sep) + split(b, sep));
    } else {
        let front = split(b.drop_last(), sep);
        lemma_split_nonempty(b.drop_last(), sep);
        law_split_at_separator(a, b.drop_last(), sep);
        assert(whole.drop_last() =~= a.push(sep) + b.drop_last());
        assert(whole.last() == b.last());
        if b.last() == sep {
            assert(split(whole, sep) =~= split(a, sep) + split(b, sep));
        } else {
            assert((split(a, sep) + front).last() == front.last());
            assert(split(whole, sep) =~= split(a, sep) + split(b, sep));
        }
    }
}

/// A text without the separator is its own only piece.
pub proof fn law_split_without_separator(s: Seq<char>, sep: char)
    requires
        !s.contains(sep),
    ensures
        split(s, sep) == seq![s],
    decreases s.len(),
{
    if s.len() > 0 {
        let front = s.drop_last();
        assert(s.last() != sep) by {
            assert(s[s.len() - 1] == s.last());
        }
        assert(!front.contains(sep)) by {
            if front.contains(sep) {
                let k = choose|k: int| 0 <= k < front.len() && front[k] == sep;
                assert(s[k] == sep);
            }
        }
        law_split_without_separator(front, sep);
        assert(front.push(s.last()) =~= s);
        assert(split(s, sep) =~= seq![s]);
    } else {
        assert(s =~= Seq::<char>::empty());
    }
}

/// Pieces without the separator that are put together come apart into themselves.
pub proof fn law_joined_splits(pieces: Seq<Seq<char>>, sep: char)
    requires
        pieces.len() > 0,
        forall|i: int| 0 <= i < pieces.len() ==> !(#[trigger] pieces[i]).contains(sep),
    ensures
        split(joined(pieces, sep), sep) == pieces,
    decreases pieces.len(),
{
    if pieces.len() == 1 {
        law_split_without_separator(pieces[0], sep);
        assert(pieces =~= seq![pieces[0]]);
    } else {
        let front = pieces.drop_last();
        assert forall|i: int| 0 <= i < front.len() implies !(#[trigger] front[i]).contains(sep) by {
            assert(front[i] == pieces[i]);
        }
        law_joined_splits(front, sep);
        law_split_at_separator(joined(front, sep), pieces.last(), sep);
        law_split_without_separator(pieces.last(), sep);
        assert(front + seq![pieces.last()] =~= pieces);
    }
}

/// A text begins with another if and only if something completes it, and ends with
/// another if and only if something stands before it.
pub proof fn law_prefix_and_suffix(s: Seq<char>, t: Seq<char>)
    ensures
        has_prefix(s, t) <==> exists|rest: Seq<char>| #[trigger] (t + rest) == s,
        has_suffix(s, t) <==> exists|front: Seq<char>| #[trigger] (front + t) == s,
{
    if has_prefix(s, t) {
        assert(t + s.skip(t.len() as int) =~= s);
    }
    if exists|rest: Seq<char>| #[trigger] (t + rest) == s {
        let rest = choose|rest: Seq<char>| #[trigger] (t + rest) == s;
        assert(s.take(t.len() as int) =~= t);
    }
    if has_suffix(s, t) {
        assert(s.take(s.len() - t.len()) + t =~= s);
    }
    if exists|front: Seq<char>| #[trigger] (front + t) == s {
        let front = choose|front: Seq<char>| #[trigger] (front + t) == s;
        assert(s.skip(s.len() - t.len()) =~= t);
    }
}

/// Trimming takes away white space and nothing else, and leaves none at either end.
pub proof fn law_trim_takes_the_ends(s: Seq<char>)
    ensures
        exists|front: Seq<char>, back: Seq<char>|
            #[trigger] (front + trimmed(s) + back) == s && (forall|i: int| 0 <= i < front.len() ==> is_space(front[i]))
                && (forall|i: int| 0 <= i < back.len() ==> is_space(back[i])),
        trimmed(s).len() > 0 ==> !is_space(trimmed(s)[0]) && !is_space(trimmed(s).last()),
{
    let mid = trim_start(s);
    lemma_trim_start(s);
    lemma_trim_end(mid);
    let front = s.take(s.len() - mid.len());
    let back = mid.skip(trimmed(s).len() as int);
    assert(front + trimmed(s) + back =~= s);
    if trimmed(s).len() > 0 {
        assert(trimmed(s)[0] == mid[0]);
    }
}

proof fn lemma_trim_start(s: Seq<char>)
    ensures
        trim_start(s).len() <= s.len(),
        s.skip(s.len() - trim_start(s).len()) == trim_start(s),
        forall|i: int| 0 <= i < s.len() - trim_start(s).len() ==> is_space(#[trigger] s[i]),
        trim_start(s).len() > 0 ==> !is_space(trim_start(s)[0]),
    decreases s.len(),
{
    if s.len() > 0 && is_space(s[0]) {
        let rest = s.drop_first();
        lemma_trim_start(rest);
        let t = trim_start(s);
        assert(s.skip(s.len() - t.len()) =~= rest.skip(rest.len() - t.len()));
        assert forall|i: int| 0 <= i < s.len() - t.len() implies is_space(#[trigger] s[i]) by {
            if i > 0 {
                assert(s[i] == rest[i - 1]);
            }
        }
    } else {
        assert(s.skip(0) =~= s);
    }
}

proof fn lemma_trim_end(s: Seq<char>)
    ensures
        trim_end(s).len() <= s.len(),
        s.take(trim_end(s).len() as int) == trim_end(s),
        forall|i: int| trim_end(s).len() <= i < s.len() ==> is_space(#[trigger] s[i]),
        trim_end(s).len() > 0 ==> !is_space(trim_end(s).last()),
    decreases s.len(),
{
    if s.len() > 0 && is_space(s.last()) {
        let rest = s.drop_last();
        lemma_trim_end(rest);
        let t = trim_end(s);
        assert(s.take(t.len() as int) =~= rest.take(t.len() as int));
        assert forall|i: int| t.len() <= i < s.len() implies is_space(#[trigger] s[i]) by {
            if i < rest.len() {
                assert(s[i] == rest[i]);
            }
        }
    } else {
        assert(s.take(s.len() as int) =~= s);
    }
}

/// Of the ASCII characters, the blank and the five controls from tab to carriage return
/// are white space.
pub proof fn law_ascii_space(c: char)
    requires
        c < '\u{80}',
    ensures
        is_space(c) <==> c == ' ' || c == '\t' || c == '\n' || c == '\u{b}' || c == '\u{c}' || c == '\r',
{
}

/// One more digit makes a number ten times as large, plus the digit; what holds another
/// character than digits behind its sign is no number.
pub proof fn law_numbers_are_decimal(s: Seq<char>, d: int)
    requires
        0 <= d <= 9,
    ensures
        unsigned_decimal(s) matches Some(v) ==> unsigned_decimal(s.push(digit_char(d))) == Some(10 * v + d),
        unsigned_decimal(seq![digit_char(d)]) == Some(d),
        forall|i: int| 0 < i < s.len() && !('0' <= #[trigger] s[i] <= '9') ==> signed_decimal(s) is None,
        s.len() == 0 ==> signed_decimal(s) is None,
{
    let c = digit_char(d);
    assert(is_digit(c));
    assert(c as int - '0' as int == d);
    let one = seq![c];
    assert(one.drop_last() =~= Seq::<char>::empty());
    assert(digits_value(one.drop_last()) == 0);
    assert(all_digits(one));
    assert(digits_value(one) == d);
    if unsigned_decimal(s) is Some {
        let t = s.push(c);
        let plus = s.len() > 0 && s[0] == '+';
        let body = if plus {
            s.skip(1)
        } else {
            s
        };
        let longer = if plus {
            t.skip(1)
        } else {
            t
        };
        assert(longer =~= body.push(c));
        assert(longer.drop_last() =~= body);
        assert(all_digits(longer)) by {
            assert forall|i: int| 0 <= i < longer.len() implies is_digit(#[trigger] longer[i]) by {
                if i < body.len() {
                    assert(is_digit(body[i]));
                }
            }
        }
        assert(t[0] == s[0]);
    }
    assert forall|i: int| 0 < i < s.len() && !('0' <= #[trigger] s[i] <= '9') implies signed_decimal(s) is None by {
        let signed = s[0] == '-' || s[0] == '+';
        if signed {
            assert(s.skip(1)[i - 1] == s[i]);
            assert(!is_digit(s.skip(1)[i - 1]));
        } else {
            assert(!is_digit(s[i]));
        }
    }
}

/// A signed number that was printed reads back, with a plus in front too.
pub proof fn law_signed_reads_back(n: int)
    ensures
        signed_decimal(signed_text(n)) == Some(n),
        n >= 0 ==> signed_decimal(seq!['+'] + signed_text(n)) == Some(n),
        n < 0 ==> unsigned_decimal(signed_text(n)) is None,
{
    if n < 0 {
        let digits = decimal((-n) as nat);
        law_decimal_reads_back((-n) as nat);
        assert(signed_text(n).skip(1) =~= digits);
    } else {
        let digits = decimal(n as nat);
        law_decimal_reads_back(n as nat);
        assert((seq!['+'] + digits).skip(1) =~= digits);
    }
}

/// The digits that a text begins with end where its first other character stands.
pub proof fn law_leading_digits_end(s: Seq<char>)
    ensures
        exists|rest: Seq<char>|
            #[trigger] (leading_digits(s) + rest) == s && (rest.len() > 0 ==> !('0' <= rest[0] <= '9')),
        forall|i: int| 0 <= i < leading_digits(s).len() ==> '0' <= #[trigger] leading_digits(s)[i] <= '9',
    decreases s.len(),
{
    if s.len() > 0 && is_digit(s[0]) {
        let tail = s.drop_first();
        law_leading_digits_end(tail);
        let rest = choose|rest: Seq<char>|
            #[trigger] (leading_digits(tail) + rest) == tail && (rest.len() > 0 ==> !('0' <= rest[0] <= '9'));
        assert(leading_digits(s) + rest =~= seq![s[0]] + (leading_digits(tail) + rest));
        assert(seq![s[0]] + tail =~= s);
        assert(leading_digits(s) + rest == s);
        assert forall|i: int| 0 <= i < leading_digits(s).len() implies '0' <= #[trigger] leading_digits(s)[i] <= '9' by {
            if i > 0 {
                assert(leading_digits(s)[i] == leading_digits(tail)[i - 1]);
            }
        }
    } else {
        assert(Seq::<char>::empty() + s =~= s);
        assert(leading_digits(s) + s == s);
    }
}

/// What a reader hands out is the number that the text writes, where it fits.
pub proof fn law_parsers_read_numbers(s: &str, limit: u64, signed: Option<i64>, unsigned: Option<u64>, n: int)
    requires
        call_ensures(parse_i64, (s,), signed),
        call_ensures(parse_unsigned, (s, limit), unsigned),
        s@ == signed_text(n),
    ensures
        i64::MIN <= n <= i64::MAX ==> (signed matches Some(v) && v == n),
        !(i64::MIN <= n <= i64::MAX) ==> signed is None,
        0 <= n <= limit ==> (unsigned matches Some(v) && v == n),
        !(0 <= n <= limit) ==> unsigned is None,
{
    law_signed_reads_back(n);
    if n >= 0 {
        law_decimal_reads_back(n as nat);
    }
}

/// The first piece of a text is what stands before its first separator.
pub proof fn law_first_piece(s: Seq<char>, sep: char)
    ensures
        ({
            let first = split(s, sep)[0];
            &&& first.len() <= s.len()
            &&& s.take(first.len() as int) == first
            &&& !first.contains(sep)
            &&& first.len() < s.len() ==> s[first.len() as int] == sep
            &&& split(s, sep).len() == 1 <==> first.len() == s.len()
        }),
    decreases s.len(),
{
    lemma_split_nonempty(s, sep);
    if s.len() > 0 {
        let t = s.drop_last();
        lemma_split_nonempty(t, sep);
        law_first_piece(t, sep);
        law_split_joins(s, sep);
        let front = split(t, sep);
        let first = split(s, sep)[0];
        assert(s =~= t.push(s.last()));
        if s.last() == sep {
            assert(first == front[0]);
            assert(s.take(first.len() as int) =~= t.take(first.len() as int));
        } else if front.len() == 1 {
            assert(first == front[0].push(s.last()));
            assert(t.take(t.len() as int) =~= t);
            assert(s.take(s.len() as int) =~= first);
        } else {
            assert(first == front[0]);
            assert(s.take(first.len() as int) =~= t.take(first.len() as int));
        }
    } else {
        law_split_joins(s, sep);
        assert(split(s, sep)[0] =~= Seq::<char>::empty());
        assert(s.take(0) =~= Seq::<char>::empty());
    }
}

/// White space is what Unicode calls so: twenty-five characters.
pub proof fn law_white_space(c: char)
    ensures
        is_space(c) <==> seq![
            0x9u32, 0xa, 0xb, 0xc, 0xd, 0x20, 0x85, 0xa0, 0x1680, 0x2000, 0x2001, 0x2002, 0x2003, 0x2004, 0x2005, 0x2006, 0x2007,
            0x2008, 0x2009, 0x200a, 0x2028, 0x2029, 0x202f, 0x205f, 0x3000,
        ].contains(c as u32),
{
    let table: Seq<u32> = seq![
        0x9u32, 0xa, 0xb, 0xc, 0xd, 0x20, 0x85, 0xa0, 0x1680, 0x2000, 0x2001, 0x2002, 0x2003, 0x2004, 0x2005, 0x2006, 0x2007,
        0x2008, 0x2009, 0x200a, 0x2028, 0x2029, 0x202f, 0x205f, 0x3000,
    ];
    let n = c as u32;
    if is_space(c) {
        let at: int = if n <= 0xd {
            n - 9
        } else if n == 0x20 {
            5
        } else if n == 0x85 {
            6
        } else if n == 0xa0 {
            7
        } else if n == 0x1680 {
            8
        } else if n <= 0x200a {
            9 + (n - 0x2000)
        } else if n == 0x2028 {
            20
        } else if n == 0x2029 {
            21
        } else if n == 0x202f {
            22
        } else if n == 0x205f {
            23
        } else {
            24
        };
        assert(table[at] == n);
    }
}

/// Texts are the same where they have the same characters, and a text is listed where it
/// is the same as one of the list.
pub proof fn law_same_text(a: &str, b: &str, same: bool, names: &Vec<String>, held: bool)
    requires
        call_ensures(text_eq, (a, b), same),
        call_ensures(listed, (names, a), held),
    ensures
        same <==> a@.len() == b@.len() && forall|i: int| 0 <= i < a@.len() ==> a@[i] == b@[i],
        held <==> exists|i: int| 0 <= i < names.len() && (#[trigger] names[i])@ == a@,
{
    if a@.len() == b@.len() && (forall|i: int| 0 <= i < a@.len() ==> a@[i] == b@[i]) {
        assert(a@ =~= b@);
    }
    let v = texts(names@);
    assert(v.len() == names.len());
    if v.contains(a@) {
        let i = choose|i: int| 0 <= i < v.len() && v[i] == a@;
        assert(names[i]@ == a@);
    }
    if exists|i: int| 0 <= i < names.len() && (#[trigger] names[i])@ == a@ {
        let i = choose|i: int| 0 <= i < names.len() && (#[trigger] names[i])@ == a@;
        assert(v[i] == a@);
    }
}

/// A text begins with another where that stands in front of some rest, ends with it where
/// it stands behind some front; taking the front away leaves that rest.
pub proof fn law_ends_of_a_text(s: &str, t: &str, starts: bool, ends: bool, rest: Option<&str>)
    requires
        call_ensures(starts_with, (s, t), starts),
        call_ensures(ends_with, (s, t), ends),
        call_ensures(strip_prefix, (s, t), rest),
    ensures
        starts <==> exists|back: Seq<char>| #[trigger] (t@ + back) == s@,
        ends <==> exists|front: Seq<char>| #[trigger] (front + t@) == s@,
        rest is Some <==> starts,
        rest matches Some(back) ==> t@ + back@ == s@,
{
    law_prefix_and_suffix(s@, t@);
    if rest is Some {
        assert(t@ + rest.unwrap()@ =~= s@);
    }
}

/// A text is cut at the last place where the other one stands: what stands before and
/// behind it makes up the text, and behind it there is no further place.
pub proof fn law_cut_at_the_last(s: &str, pat: &str, r: Option<(&str, &str)>)
    requires
        pat@.len() > 0,
        call_ensures(rsplit_once, (s, pat), r),
    ensures
        match r {
            Some((front, back)) => s@ == front@ + pat@ + back@ && forall|a: Seq<char>, b: Seq<char>|
                #[trigger] (a + pat@ + b) == s@ ==> a.len() <= front@.len(),
            None => forall|a: Seq<char>, b: Seq<char>| #[trigger] (a + pat@ + b) != s@,
        },
{
    law_last_match_is_last(s@, pat@);
    assert forall|a: Seq<char>, b: Seq<char>| #[trigger] (a + pat@ + b) == s@ implies occurs_at(s@, pat@, a.len() as int) by {
        assert((a + pat@ + b).subrange(a.len() as int, (a.len() + pat@.len()) as int) =~= pat@);
    }
    if let Some((front, back)) = r {
        let i = last_match(s@, pat@).unwrap();
        assert(occurs_at(s@, pat@, i));
        assert(s@ =~= front@ + pat@ + back@) by {
            assert forall|k: int| 0 <= k < pat@.len() implies s@[i + k] == pat@[k] by {
                assert(s@.subrange(i, i + pat@.len())[k] == s@[i + k]);
            }
        }
    }
}

/// Replacing one character by another keeps the length and every other character.
pub proof fn law_replace_one_by_one(s: &str, from: char, to: &str, r: String)
    requires
        to@.len() == 1,
        call_ensures(replace_char, (s, from, to), r),
    ensures
        r@.len() == s@.len(),
        forall|i: int|
            0 <= i < s@.len() ==> #[trigger] r@[i] == (if s@[i] == from {
                to@[0]
            } else {
                s@[i]
            }),
{
}

/// What is printed reads back: an unsigned number in digits alone, without a zero in
/// front of others, a signed one with a dash where it is negative.
pub proof fn law_printed_numbers_read_back(n: u64, m: i64, unsigned: String, signed: String)
    requires
        call_ensures(print_unsigned, (n,), unsigned),
        call_ensures(print_signed, (m,), signed),
    ensures
        unsigned_decimal(unsigned@) == Some(n as int),
        all_digits(unsigned@),
        signed_decimal(signed@) == Some(m as int),
        m < 0 <==> signed@[0] == '-',
{
    law_decimal_reads_back(n as nat);
    law_signed_reads_back(m as int);
    if m >= 0 {
        law_decimal_reads_back(m as nat);
        assert(is_digit(signed@[0]));
    } else {
        law_decimal_reads_back((-m) as nat);
    }
}

/// Pieces that a text was split into join to it again, and three texts put together stand
/// one after the other.
pub proof fn law_put_together(s: &str, sep: char, mark: &str, pieces: Vec<String>, n: usize, whole: String, parts: (&str, &str, &str), cat: String)
    requires
        mark@ == seq![sep],
        call_ensures(split_text, (s, sep), pieces),
        n == pieces.len(),
        call_ensures(join_text, (&pieces, n, mark), whole),
        call_ensures(cat3, (parts.0, parts.1, parts.2), cat),
    ensures
        whole@ == s@,
        pieces.len() >= 1,
        forall|i: int| 0 <= i < pieces.len() ==> !(#[trigger] pieces[i])@.contains(sep),
        cat@ == parts.0@ + parts.1@ + parts.2@,
{
    law_split_joins(s@, sep);
    lemma_split_nonempty(s@, sep);
    let v = texts(pieces@);
    assert(v == split(s@, sep));
    assert(v.take(n as int) =~= v);
    assert forall|i: int| 0 <= i < pieces.len() implies !(#[trigger] pieces[i])@.contains(sep) by {
        assert(v[i] == pieces[i]@);
    }
}

/// The digits in front of a text and the text without the white space around it, as they
/// are handed out.
pub proof fn law_fronts_are_handed_out(s: &str, digits: &str, inner: &str)
    requires
        call_ensures(digit_front, (s,), digits),
        call_ensures(trim, (s,), inner),
    ensures
        exists|rest: Seq<char>| #[trigger] (digits@ + rest) == s@ && (rest.len() > 0 ==> !('0' <= rest[0] <= '9')),
        forall|i: int| 0 <= i < digits@.len() ==> '0' <= #[trigger] digits@[i] <= '9',
        exists|front: Seq<char>, back: Seq<char>|
            #[trigger] (front + inner@ + back) == s@ && (forall|i: int| 0 <= i < front.len() ==> is_space(front[i])) && (forall|i: int|
                0 <= i < back.len() ==> is_space(back[i])),
        inner@.len() > 0 ==> !is_space(inner@[0]) && !is_space(inner@.last()),
{
    law_leading_digits_end(s@);
    law_trim_takes_the_ends(s@);
}

/// The characters of a text, one by one.
pub proof fn law_characters(s: &str, r: Vec<char>, i: int)
    requires
        call_ensures(chars, (s,), r),
    ensures
        r.len() == s@.len(),
        0 <= i < s@.len() ==> r[i] == s@[i],
{
}

}

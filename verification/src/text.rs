use vstd::prelude::*;

verus! {

/// ASCII lowercase of one character: `A`..`Z` map to `a`..`z`, everything else is unchanged.
pub open spec fn ascii_lower(c: char) -> char {
    if 'A' <= c && c <= 'Z' {
        ((c as u32) + 32) as char
    } else {
        c
    }
}

pub open spec fn ascii_lower_seq(s: Seq<char>) -> Seq<char> {
    s.map_values(|c: char| ascii_lower(c))
}

pub fn to_ascii_lower(c: char) -> (r: char)
    ensures
        r == ascii_lower(c),
{
    if 'A' <= c && c <= 'Z' {
        let b: u8 = c as u8;
        ((b + 32) as char)
    } else {
        c
    }
}

/// The characters of `s`, each lowered as ASCII (other characters are kept).
pub fn to_ascii_lowercase(s: &Vec<char>) -> (r: Vec<char>)
    ensures
        r@ == ascii_lower_seq(s@),
{
    let mut r: Vec<char> = Vec::new();
    let mut i: usize = 0;
    while i < s.len()
        invariant
            i <= s.len(),
            r@ =~= ascii_lower_seq(s@.take(i as int)),
        decreases s.len() - i,
    {
        r.push(to_ascii_lower(s[i]));
        i = i + 1;
    }
    assert(s@.take(s.len() as int) =~= s@);
    r
}

/// The characters of a string slice.
pub fn chars_of(s: &str) -> (v: Vec<char>)
    ensures
        v@ == s@,
{
    broadcast use vstd::string::axiom_spec_iter;
    let mut v: Vec<char> = Vec::new();
    for c in it: s.chars()
        invariant
            v.len() == it.index(),
            forall|i: int| 0 <= i < v.len() ==> v@[i] == it.seq()[i],
            it.seq() == s@,
    {
        v.push(c);
    }
    assert(v@ =~= s@);
    v
}

/// `String::push`: `c` is appended to `s`.
#[verifier::external_body]
fn push_char(s: &mut String, c: char)
    ensures
        final(s)@ == old(s)@.push(c),
{
    s.push(c);
}

/// The string made of `v`'s characters.
pub fn string_of(v: &Vec<char>) -> (s: String)
    ensures
        s@ == v@,
{
    let mut s = String::new();
    let mut i: usize = 0;
    while i < v.len()
        invariant
            i <= v.len(),
            s@ == v@.take(i as int),
        decreases v.len() - i,
    {
        push_char(&mut s, v[i]);
        i = i + 1;
        assert(s@ =~= v@.take(i as int));
    }
    assert(v@.take(v.len() as int) =~= v@);
    s
}

/// `pattern` occurs in `s` at index `i`.
pub open spec fn occurs_at(s: Seq<char>, pattern: Seq<char>, i: int) -> bool {
    0 <= i && i + pattern.len() <= s.len() && s.subrange(i, i + pattern.len()) == pattern
}

pub open spec fn contains_seq(s: Seq<char>, pattern: Seq<char>) -> bool {
    exists|i: int| #[trigger] occurs_at(s, pattern, i)
}

pub open spec fn starts_with(s: Seq<char>, prefix: Seq<char>) -> bool {
    prefix.len() <= s.len() && s.subrange(0, prefix.len() as int) == prefix
}

pub fn has_prefix(s: &Vec<char>, prefix: &Vec<char>) -> (b: bool)
    ensures
        b == starts_with(s@, prefix@),
{
    if prefix.len() > s.len() {
        return false;
    }
    let mut i: usize = 0;
    while i < prefix.len()
        invariant
            prefix.len() <= s.len(),
            i <= prefix.len(),
            forall|j: int| 0 <= j < i ==> s@[j] == prefix@[j],
        decreases prefix.len() - i,
    {
        if s[i] != prefix[i] {
            assert(s@.subrange(0, prefix.len() as int)[i as int] != prefix@[i as int]);
            return false;
        }
        i = i + 1;
    }
    assert(s@.subrange(0, prefix@.len() as int) =~= prefix@);
    true
}

fn occurs_at_exec(s: &Vec<char>, pattern: &Vec<char>, start: usize) -> (b: bool)
    requires
        start + pattern.len() <= s.len(),
    ensures
        b == occurs_at(s@, pattern@, start as int),
{
    let mut i: usize = 0;
    while i < pattern.len()
        invariant
            start + pattern.len() <= s.len(),
            i <= pattern.len(),
            forall|j: int| 0 <= j < i ==> s@[start + j] == pattern@[j],
        decreases pattern.len() - i,
    {
        if s[start + i] != pattern[i] {
            assert(s@.subrange(start as int, start + pattern.len())[i as int] != pattern@[i as int]);
            return false;
        }
        i = i + 1;
    }
    assert(s@.subrange(start as int, start + pattern@.len()) =~= pattern@);
    true
}

/// `pattern` occurs somewhere in `s`.
pub fn contains(s: &Vec<char>, pattern: &Vec<char>) -> (b: bool)
    ensures
        b == contains_seq(s@, pattern@),
{
    if pattern.len() > s.len() {
        return false;
    }
    if pattern.len() == 0 {
        assert(s@.subrange(0, 0) =~= pattern@);
        assert(occurs_at(s@, pattern@, 0));
        return true;
    }
    let last = s.len() - pattern.len();
    let mut start: usize = 0;
    while start <= last
        invariant
            last + pattern.len() == s.len(),
            pattern.len() >= 1,
            start <= last + 1,
            forall|j: int| 0 <= j < start ==> !occurs_at(s@, pattern@, j),
        decreases last + 1 - start,
    {
        if occurs_at_exec(s, pattern, start) {
            return true;
        }
        start = start + 1;
    }
    false
}

pub fn contains_str(s: &Vec<char>, pattern: &str) -> (b: bool)
    ensures
        b == contains_seq(s@, pattern@),
{
    let p = chars_of(pattern);
    contains(s, &p)
}

pub fn starts_with_str(s: &Vec<char>, prefix: &str) -> (b: bool)
    ensures
        b == starts_with(s@, prefix@),
{
    let p = chars_of(prefix);
    has_prefix(s, &p)
}

pub fn equals_str(s: &Vec<char>, other: &str) -> (b: bool)
    ensures
        b == (s@ == other@),
{
    let p = chars_of(other);
    if s.len() != p.len() {
        assert(s@.len() != other@.len());
        return false;
    }
    let mut i: usize = 0;
    while i < s.len()
        invariant
            s.len() == p.len(),
            p@ == other@,
            i <= s.len(),
            forall|j: int| 0 <= j < i ==> s@[j] == p@[j],
        decreases s.len() - i,
    {
        if s[i] != p[i] {
            assert(s@[i as int] != p@[i as int]);
            return false;
        }
        i = i + 1;
    }
    assert(s@ =~= p@);
    true
}

/// The characters that have the Unicode `White_Space` property (what `char::is_whitespace` tests).
pub open spec fn is_white_space(c: char) -> bool {
    let u = c as u32;
    (0x9 <= u <= 0xd) || u == 0x20 || u == 0x85 || u == 0xa0 || u == 0x1680 || (0x2000 <= u
        <= 0x200a) || u == 0x2028 || u == 0x2029 || u == 0x202f || u == 0x205f || u == 0x3000
}

pub fn white_space(c: char) -> (b: bool)
    ensures
        b == is_white_space(c),
{
    let u = c as u32;
    (0x9 <= u && u <= 0xd) || u == 0x20 || u == 0x85 || u == 0xa0 || u == 0x1680 || (0x2000 <= u
        && u <= 0x200a) || u == 0x2028 || u == 0x2029 || u == 0x202f || u == 0x205f || u == 0x3000
}

/// `s` without leading and trailing white space, as `str::trim` gives it.
pub open spec fn trimmed(s: Seq<char>, start: int, end: int) -> bool {
    &&& 0 <= start <= end <= s.len()
    &&& forall|i: int| 0 <= i < start ==> is_white_space(#[trigger] s[i])
    &&& forall|i: int| end <= i < s.len() ==> is_white_space(#[trigger] s[i])
    &&& start < end ==> !is_white_space(s[start]) && !is_white_space(s[end - 1])
}

pub open spec fn trim_seq(s: Seq<char>) -> Seq<char> {
    let (start, end) = choose|start: int, end: int| trimmed(s, start, end);
    s.subrange(start, end)
}

/// Whether `s` is empty or only white space (`str::trim(s).is_empty()`).
pub open spec fn is_blank(s: Seq<char>) -> bool {
    forall|i: int| 0 <= i < s.len() ==> is_white_space(#[trigger] s[i])
}

proof fn lemma_trim_unique(s: Seq<char>, a: int, b: int, c: int, d: int)
    requires
        trimmed(s, a, b),
        trimmed(s, c, d),
    ensures
        a < b ==> a == c && b == d,
        a >= b ==> c >= d,
{
    if a < b {
        if c < a {
            assert(is_white_space(s[c]));
            if c < d {
            } else {
                assert(is_white_space(s[a]));
            }
        }
        if a < c {
            assert(is_white_space(s[a]));
        }
        if d < b {
            assert(is_white_space(s[b - 1]));
        }
        if b < d {
            assert(is_white_space(s[d - 1]));
            if c < d {
            }
        }
    } else {
        if c < d {
            if c < a {
                assert(is_white_space(s[c]));
            } else {
                assert(is_white_space(s[c]));
            }
        }
    }
}

pub fn trim(s: &Vec<char>) -> (r: Vec<char>)
    ensures
        r@ == trim_seq(s@),
        (r@.len() == 0) == is_blank(s@),
{
    let n = s.len();
    let mut start: usize = 0;
    while start < n && white_space(s[start])
        invariant
            n == s.len(),
            start <= n,
            forall|i: int| 0 <= i < start ==> is_white_space(#[trigger] s@[i]),
        decreases n - start,
    {
        start = start + 1;
    }
    let mut end: usize = n;
    while end > start && white_space(s[end - 1])
        invariant
            n == s.len(),
            start <= end <= n,
            forall|i: int| end <= i < n ==> is_white_space(#[trigger] s@[i]),
        decreases end - start,
    {
        end = end - 1;
    }
    let mut r: Vec<char> = Vec::new();
    let mut i: usize = start;
    while i < end
        invariant
            start <= i <= end <= n,
            n == s.len(),
            r@ =~= s@.subrange(start as int, i as int),
        decreases end - i,
    {
        r.push(s[i]);
        i = i + 1;
    }
    proof {
        if start < end {
            assert(!is_white_space(s@[start as int]));
        }
        assert(trimmed(s@, start as int, end as int));
        let (a, b) = choose|a: int, b: int| trimmed(s@, a, b);
        lemma_trim_unique(s@, start as int, end as int, a, b);
        lemma_trim_unique(s@, a, b, start as int, end as int);
        if start >= end {
            assert(s@.subrange(a, b).len() == 0);
            assert(s@.subrange(start as int, end as int).len() == 0);
            assert(s@.subrange(a, b) =~= s@.subrange(start as int, end as int));
            assert forall|i: int| 0 <= i < s@.len() implies is_white_space(#[trigger] s@[i]) by {
                if i < start {
                } else {
                    assert(end <= i);
                }
            }
        } else {
            assert(!is_white_space(s@[start as int]));
        }
    }
    r
}

/// The decimal digits of `n`.
pub open spec fn decimal(n: nat) -> Seq<char>
    decreases n,
{
    if n < 10 {
        seq![digit_char(n)]
    } else {
        decimal(n / 10).push(digit_char(n % 10))
    }
}

pub open spec fn digit_char(d: nat) -> char {
    ((48 + d) as u32) as char
}

/// `n` written in decimal, as `u64::to_string` writes it.
pub fn decimal_chars(n: u64) -> (r: Vec<char>)
    ensures
        r@ == decimal(n as nat),
    decreases n,
{
    if n < 10 {
        let d: u8 = n as u8;
        let mut r = Vec::new();
        r.push((48u8 + d) as char);
        r
    } else {
        let mut r = decimal_chars(n / 10);
        let d: u8 = (n % 10) as u8;
        r.push((48u8 + d) as char);
        r
    }
}

/// The value of `c` as a digit in base `radix` (at most 16), ASCII letters in either case.
pub open spec fn digit_value(c: char, radix: nat) -> Option<nat> {
    let v: int = if '0' <= c && c <= '9' {
        c as int - '0' as int
    } else if 'a' <= c && c <= 'z' {
        c as int - 'a' as int + 10
    } else if 'A' <= c && c <= 'Z' {
        c as int - 'A' as int + 10
    } else {
        radix as int
    };
    if 0 <= v < radix {
        Some(v as nat)
    } else {
        None
    }
}

pub open spec fn all_digits(s: Seq<char>, radix: nat) -> bool {
    forall|i: int| 0 <= i < s.len() ==> (#[trigger] digit_value(s[i], radix)) is Some
}

/// The number that the digits `s` write in base `radix`.
pub open spec fn digits_value(s: Seq<char>, radix: nat) -> nat
    decreases s.len(),
{
    if s.len() == 0 {
        0
    } else {
        let d = match digit_value(s.last(), radix) {
            Some(d) => d,
            None => 0,
        };
        digits_value(s.drop_last(), radix) * radix + d
    }
}

/// What parsing `s` as an unsigned integer of base `radix` with largest value `max` gives, as
/// `str::parse` and `from_str_radix` of an unsigned type do: an optional `+`, then one digit or
/// more, and a value that fits.
pub open spec fn parse_unsigned_spec(s: Seq<char>, radix: nat, max: nat) -> Option<nat> {
    let digits = if s.len() >= 1 && s[0] == '+' {
        s.drop_first()
    } else {
        s
    };
    if digits.len() == 0 || !all_digits(digits, radix) || digits_value(digits, radix) > max {
        None
    } else {
        Some(digits_value(digits, radix))
    }
}

pub fn digit_of(c: char, radix: u32) -> (r: Option<u32>)
    requires
        2 <= radix <= 16,
    ensures
        match r {
            Some(d) => digit_value(c, radix as nat) == Some(d as nat),
            None => digit_value(c, radix as nat) is None,
        },
{
    let v: u32 = if '0' <= c && c <= '9' {
        (c as u32) - 48
    } else if 'a' <= c && c <= 'z' {
        (c as u32) - 97 + 10
    } else if 'A' <= c && c <= 'Z' {
        (c as u32) - 65 + 10
    } else {
        radix
    };
    if v < radix {
        Some(v)
    } else {
        None
    }
}

proof fn lemma_digits_value_grows(s: Seq<char>, radix: nat)
    requires
        radix >= 2,
        s.len() >= 1,
    ensures
        digits_value(s, radix) >= digits_value(s.drop_last(), radix),
{
    let p = digits_value(s.drop_last(), radix);
    assert(p * radix >= p) by (nonlinear_arith)
        requires
            radix >= 2,
    ;
}

proof fn lemma_digits_value_prefix(s: Seq<char>, i: int, radix: nat)
    requires
        radix >= 2,
        0 <= i <= s.len(),
    ensures
        digits_value(s, radix) >= digits_value(s.subrange(0, i), radix),
    decreases s.len() - i,
{
    if i < s.len() {
        lemma_digits_value_prefix(s, i + 1, radix);
        let t = s.subrange(0, i + 1);
        assert(t.drop_last() =~= s.subrange(0, i));
        lemma_digits_value_grows(t, radix);
    } else {
        assert(s.subrange(0, i) =~= s);
    }
}

/// `s` parsed as an unsigned integer of base `radix` no larger than `max`.
pub fn parse_unsigned(s: &Vec<char>, radix: u32, max: u64) -> (r: Option<u64>)
    requires
        2 <= radix <= 16,
    ensures
        match r {
            Some(v) => parse_unsigned_spec(s@, radix as nat, max as nat) == Some(v as nat),
            None => parse_unsigned_spec(s@, radix as nat, max as nat) is None,
        },
{
    let start: usize = if s.len() >= 1 && s[0] == '+' {
        1
    } else {
        0
    };
    let ghost digits = if s@.len() >= 1 && s@[0] == '+' {
        s@.drop_first()
    } else {
        s@
    };
    assert(digits =~= s@.subrange(start as int, s@.len() as int));
    if start == s.len() {
        return None;
    }
    let mut acc: u64 = 0;
    let mut i = start;
    while i < s.len()
        invariant
            start <= i <= s.len(),
            2 <= radix <= 16,
            digits =~= s@.subrange(start as int, s@.len() as int),
            digits == (if s@.len() >= 1 && s@[0] == '+' {
                s@.drop_first()
            } else {
                s@
            }),
            digits.len() > 0,
            all_digits(digits.subrange(0, i - start), radix as nat),
            acc as nat == digits_value(digits.subrange(0, i - start), radix as nat),
            acc <= max,
        decreases s.len() - i,
    {
        let ghost k = i - start;
        let ghost pre = digits.subrange(0, k as int);
        let ghost next = digits.subrange(0, k + 1);
        assert(next.drop_last() =~= pre);
        assert(next.last() == s@[i as int]);
        match digit_of(s[i], radix) {
            None => {
                assert(!all_digits(digits, radix as nat)) by {
                    assert(digits[k as int] == s@[i as int]);
                }
                return None;
            }
            Some(d) => {
                assert(all_digits(next, radix as nat)) by {
                    assert forall|j: int| 0 <= j < next.len() implies (#[trigger] digit_value(next[j], radix as nat)) is Some by {
                        if j < k {
                            assert(next[j] == pre[j]);
                        }
                    }
                }
                assert(digits_value(next, radix as nat) == acc * radix + d);
                if d as u64 > max || acc > (max - d as u64) / (radix as u64) {
                    proof {
                        assert(acc * radix + d > max) by (nonlinear_arith)
                            requires
                                d > max || acc > (max - d) / (radix as int),
                                radix >= 2,
                                acc >= 0,
                                d >= 0,
                        ;
                        lemma_digits_value_prefix(digits, k + 1, radix as nat);
                    }
                    return None;
                }
                proof {
                    assert(acc * radix + d <= max) by (nonlinear_arith)
                        requires
                            d <= max,
                            acc <= (max - d) / (radix as int),
                            radix >= 2,
                            acc >= 0,
                    ;
                }
                acc = acc * (radix as u64) + d as u64;
            }
        }
        i = i + 1;
    }
    assert(digits.subrange(0, digits.len() as int) =~= digits);
    Some(acc)
}

/// The characters of `v` from `start` to `end`.
pub fn slice_chars(v: &Vec<char>, start: usize, end: usize) -> (r: Vec<char>)
    requires
        start <= end <= v.len(),
    ensures
        r@ == v@.subrange(start as int, end as int),
{
    let mut r: Vec<char> = Vec::new();
    let mut i = start;
    while i < end
        invariant
            start <= i <= end <= v.len(),
            r@ == v@.subrange(start as int, i as int),
        decreases end - i,
    {
        r.push(v[i]);
        i = i + 1;
        assert(r@ =~= v@.subrange(start as int, i as int));
    }
    r
}

/// `a` followed by `b`.
pub fn concat_chars(a: &Vec<char>, b: &Vec<char>) -> (r: Vec<char>)
    ensures
        r@ == a@ + b@,
{
    let mut r = a.clone();
    let mut i: usize = 0;
    while i < b.len()
        invariant
            i <= b.len(),
            r@ == a@ + b@.subrange(0, i as int),
        decreases b.len() - i,
    {
        r.push(b[i]);
        i = i + 1;
        assert(r@ =~= a@ + b@.subrange(0, i as int));
    }
    assert(b@.subrange(0, b@.len() as int) =~= b@);
    r
}

/// Reading the decimal digits of `n` back gives `n`.
pub proof fn lemma_decimal_value(n: nat)
    ensures
        digits_value(decimal(n), 10) == n,
        decimal(n).len() >= 1,
    decreases n,
{
    let d = n % 10;
    let c = digit_char(d);
    assert(c as int == 48 + d);
    assert(digit_value(c, 10) == Some(d));
    if n < 10 {
        assert(decimal(n) == seq![c]);
        assert(decimal(n).drop_last() =~= Seq::<char>::empty());
        assert(n % 10 == n);
        assert(digits_value(decimal(n), 10) == digits_value(Seq::<char>::empty(), 10) * 10 + d);
    } else {
        lemma_decimal_value(n / 10);
        assert(decimal(n).drop_last() =~= decimal(n / 10));
        assert(decimal(n).last() == c);
        assert((n / 10) * 10 + n % 10 == n) by (nonlinear_arith);
        assert(digits_value(decimal(n), 10) == digits_value(decimal(n / 10), 10) * 10 + d);
    }
}

/// Different numbers have different decimal digits.
pub proof fn lemma_decimal_injective(a: nat, b: nat)
    requires
        decimal(a) == decimal(b),
    ensures
        a == b,
{
    lemma_decimal_value(a);
    lemma_decimal_value(b);
}

/// `a` comes before `b` in the order of their characters' code points, as `str` and `String`
/// compare (UTF-8 byte order is code point order).
pub open spec fn lex_lt(a: Seq<char>, b: Seq<char>) -> bool
    decreases a.len(),
{
    if a.len() == 0 {
        b.len() > 0
    } else if b.len() == 0 {
        false
    } else if a[0] != b[0] {
        a[0] < b[0]
    } else {
        lex_lt(a.drop_first(), b.drop_first())
    }
}

pub proof fn lemma_lex_irreflexive(a: Seq<char>)
    ensures
        !lex_lt(a, a),
    decreases a.len(),
{
    if a.len() > 0 {
        lemma_lex_irreflexive(a.drop_first());
    }
}

pub proof fn lemma_lex_total(a: Seq<char>, b: Seq<char>)
    ensures
        a == b || lex_lt(a, b) || lex_lt(b, a),
        !(lex_lt(a, b) && lex_lt(b, a)),
    decreases a.len(),
{
    if a.len() > 0 && b.len() > 0 {
        lemma_lex_total(a.drop_first(), b.drop_first());
        if a[0] == b[0] && a.drop_first() == b.drop_first() {
            assert(a =~= seq![a[0]] + a.drop_first());
            assert(b =~= seq![b[0]] + b.drop_first());
        }
    } else if a.len() == 0 && b.len() == 0 {
        assert(a =~= b);
    }
}

pub proof fn lemma_lex_transitive(a: Seq<char>, b: Seq<char>, c: Seq<char>)
    requires
        lex_lt(a, b),
        lex_lt(b, c),
    ensures
        lex_lt(a, c),
    decreases a.len(),
{
    if a.len() > 0 && b.len() > 0 && c.len() > 0 {
        if a[0] == b[0] && b[0] == c[0] {
            lemma_lex_transitive(a.drop_first(), b.drop_first(), c.drop_first());
        }
    }
}

/// The characters of `a` and `b` are the same.
pub fn same_chars(a: &Vec<char>, b: &Vec<char>) -> (r: bool)
    ensures
        r == (a@ == b@),
{
    if a.len() != b.len() {
        return false;
    }
    let mut i: usize = 0;
    while i < a.len()
        invariant
            a.len() == b.len(),
            i <= a.len(),
            forall|j: int| 0 <= j < i ==> a@[j] == b@[j],
        decreases a.len() - i,
    {
        if a[i] != b[i] {
            return false;
        }
        i = i + 1;
    }
    assert(a@ =~= b@);
    true
}

/// Whether `a` comes before `b`.
pub fn lex_less(a: &Vec<char>, b: &Vec<char>) -> (r: bool)
    ensures
        r == lex_lt(a@, b@),
{
    let mut i: usize = 0;
    assert(a@.skip(0) =~= a@);
    assert(b@.skip(0) =~= b@);
    while i < a.len() && i < b.len()
        invariant
            i <= a.len(),
            i <= b.len(),
            lex_lt(a@, b@) == lex_lt(a@.skip(i as int), b@.skip(i as int)),
        decreases a.len() - i,
    {
        let ghost sa = a@.skip(i as int);
        let ghost sb = b@.skip(i as int);
        assert(sa[0] == a@[i as int]);
        assert(sb[0] == b@[i as int]);
        if a[i] != b[i] {
            return a[i] < b[i];
        }
        assert(sa.drop_first() =~= a@.skip(i + 1));
        assert(sb.drop_first() =~= b@.skip(i + 1));
        i = i + 1;
    }
    i < b.len()
}

/// `s` is in strictly increasing order.
pub open spec fn strictly_sorted(s: Seq<Seq<char>>) -> bool {
    forall|i: int, j: int| 0 <= i < j < s.len() ==> lex_lt(#[trigger] s[i], #[trigger] s[j])
}

pub open spec fn string_views(s: Seq<String>) -> Seq<Seq<char>> {
    s.map_values(|x: String| x@)
}

/// Puts `x` into a strictly increasing list, where it is not there already.
pub fn sorted_insert(v: &mut Vec<String>, x: String)
    requires
        strictly_sorted(string_views(old(v)@)),
    ensures
        strictly_sorted(string_views(final(v)@)),
        string_views(final(v)@).to_set() == string_views(old(v)@).to_set().insert(x@),
{
    let xc = chars_of(x.as_str());
    let mut p: usize = 0;
    while p < v.len() && lex_less(&chars_of(v[p].as_str()), &xc)
        invariant
            p <= v.len(),
            xc@ == x@,
            v@ == old(v)@,
            forall|j: int| 0 <= j < p ==> lex_lt(#[trigger] string_views(v@)[j], x@),
        decreases v.len() - p,
    {
        assert(lex_lt(string_views(v@)[p as int], x@));
        p = p + 1;
    }
    let ghost sv = string_views(v@);
    if p < v.len() {
        let vc = chars_of(v[p].as_str());
        if same_chars(&vc, &xc) {
            assert(sv[p as int] == x@);
            assert(sv.to_set().insert(x@) =~= sv.to_set());
            return;
        }
        proof {
            lemma_lex_total(sv[p as int], x@);
        }
    }
    let ghost before = v@;
    v.insert(p, x);
    proof {
        let nv = string_views(v@);
        assert(nv =~= sv.insert(p as int, x@));
        assert forall|i: int, j: int| 0 <= i < j < nv.len() implies lex_lt(#[trigger] nv[i], #[trigger] nv[j]) by {
            if j < p {
                assert(nv[i] == sv[i] && nv[j] == sv[j]);
            } else if j == p {
                assert(nv[i] == sv[i]);
            } else if i < p {
                assert(nv[j] == sv[j - 1]);
                assert(lex_lt(sv[i], x@));
                if j - 1 > p {
                    assert(lex_lt(x@, sv[p as int]));
                    lemma_lex_transitive(x@, sv[p as int], sv[j - 1]);
                }
                lemma_lex_transitive(sv[i], x@, sv[j - 1]);
            } else if i == p {
                assert(nv[j] == sv[j - 1]);
                if j - 1 > p {
                    lemma_lex_transitive(x@, sv[p as int], sv[j - 1]);
                }
            } else {
                assert(nv[i] == sv[i - 1] && nv[j] == sv[j - 1]);
            }
        }
        assert forall|y: Seq<char>| nv.to_set().contains(y) <==> sv.to_set().insert(x@).contains(y) by {
            if nv.contains(y) {
                let k = choose|k: int| 0 <= k < nv.len() && nv[k] == y;
                if k < p {
                    assert(sv[k] == y);
                } else if k > p {
                    assert(sv[k - 1] == y);
                }
            }
            if sv.contains(y) {
                let k = choose|k: int| 0 <= k < sv.len() && sv[k] == y;
                if k < p {
                    assert(nv[k] == y);
                } else {
                    assert(nv[k + 1] == y);
                }
            }
            if y == x@ {
                assert(nv[p as int] == y);
            }
        }
        assert(nv.to_set() =~= sv.to_set().insert(x@));
    }
}

/// A strictly increasing list holds its elements once each, so two such lists with the same
/// elements are equal: the sorted, deduplicated form of a list is unique.
pub proof fn lemma_strictly_sorted_unique(a: Seq<Seq<char>>, b: Seq<Seq<char>>)
    requires
        strictly_sorted(a),
        strictly_sorted(b),
        a.to_set() == b.to_set(),
    ensures
        a == b,
    decreases a.len(),
{
    if a.len() == 0 {
        if b.len() > 0 {
            assert(b.to_set().contains(b[0]));
        }
        assert(a =~= b);
    } else if b.len() == 0 {
        assert(a.to_set().contains(a[0]));
    } else {
        assert(a.to_set().contains(a[0]));
        assert(b.to_set().contains(b[0]));
        let ka = choose|k: int| 0 <= k < b.len() && b[k] == a[0];
        let kb = choose|k: int| 0 <= k < a.len() && a[k] == b[0];
        if ka > 0 {
            assert(lex_lt(b[0], b[ka]));
            if kb > 0 {
                assert(lex_lt(a[0], a[kb]));
                lemma_lex_total(a[0], b[0]);
            } else {
                lemma_lex_irreflexive(a[0]);
            }
        }
        assert(a[0] == b[0]) by {
            if ka > 0 {
                if kb > 0 {
                    lemma_lex_total(a[0], b[0]);
                } else {
                    lemma_lex_irreflexive(a[0]);
                }
            }
        }
        let ra = a.drop_first();
        let rb = b.drop_first();
        assert forall|y: Seq<char>| ra.to_set().contains(y) <==> rb.to_set().contains(y) by {
            if ra.contains(y) {
                let k = choose|k: int| 0 <= k < ra.len() && ra[k] == y;
                assert(a[k + 1] == y);
                assert(lex_lt(a[0], y));
                assert(b.to_set().contains(y));
                let m = choose|m: int| 0 <= m < b.len() && b[m] == y;
                if m == 0 {
                    lemma_lex_irreflexive(y);
                }
                assert(rb[m - 1] == y);
            }
            if rb.contains(y) {
                let k = choose|k: int| 0 <= k < rb.len() && rb[k] == y;
                assert(b[k + 1] == y);
                assert(lex_lt(b[0], y));
                assert(a.to_set().contains(y));
                let m = choose|m: int| 0 <= m < a.len() && a[m] == y;
                if m == 0 {
                    lemma_lex_irreflexive(y);
                }
                assert(ra[m - 1] == y);
            }
        }
        assert(ra.to_set() =~= rb.to_set());
        lemma_strictly_sorted_unique(ra, rb);
        assert(a =~= seq![a[0]] + ra);
        assert(b =~= seq![b[0]] + rb);
    }
}

} // verus!

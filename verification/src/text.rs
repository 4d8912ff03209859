//! Character-level helpers on strings, each proved against a short
//! specification over `Seq<char>`.
use vstd::prelude::*;
use vstd::std_specs::iter::IteratorSpec;

verus! {

broadcast use vstd::string::group_string_axioms;

/// The characters of `s`, in order.
pub fn chars_of(s: &str) -> (v: Vec<char>)
    ensures
        v@ == s@,
{
    let mut it = s.chars();
    let mut v: Vec<char> = Vec::new();
    loop
        invariant
            v@ + it.remaining() == s@,
            it.obeys_prophetic_iter_laws(),
            it.decrease() is Some,
        ensures
            v@ == s@,
        decreases it.decrease()->0,
    {
        let ghost before = it.remaining();
        match it.next() {
            Some(c) => {
                v.push(c);
                assert(v@ + it.remaining() =~= s@);
            },
            None => {
                assert(v@ =~= s@);
                break;
            },
        }
    }
    v
}

/// Append one character to a string.
#[verifier::external_body]
pub(crate) fn push_char(s: &mut String, c: char)
    ensures
        final(s)@ == old(s)@.push(c),
{
    s.push(c);
}

/// Build a string from its characters.
pub fn string_from(chars: &Vec<char>) -> (s: String)
    ensures
        s@ == chars@,
{
    let mut s = String::new();
    let mut i: usize = 0;
    while i < chars.len()
        invariant
            i <= chars.len(),
            s@ == chars@.take(i as int),
        decreases chars.len() - i,
    {
        push_char(&mut s, chars[i]);
        assert(chars@.take(i + 1) =~= chars@.take(i as int).push(chars@[i as int]));
        i += 1;
    }
    assert(chars@.take(chars.len() as int) =~= chars@);
    s
}

}

verus! {

/// The same characters as `s`, as an owned string.
pub fn owned(s: &str) -> (r: String)
    ensures
        r@ == s@,
{
    s.to_owned()
}

/// Whether two strings hold the same characters.
pub fn str_eq(a: &str, b: &str) -> (r: bool)
    ensures
        r == (a@ == b@),
{
    a.to_owned() == b.to_owned()
}

/// Whether two character sequences are equal.
pub fn chars_eq(a: &Vec<char>, b: &Vec<char>) -> (r: bool)
    ensures
        r == (a@ == b@),
{
    if a.len() != b.len() {
        return false;
    }
    let mut i: usize = 0;
    while i < a.len()
        invariant
            a.len() == b.len(),
            i <= a.len(),
            forall|k: int| 0 <= k < i ==> a@[k] == b@[k],
        decreases a.len() - i,
    {
        if a[i] != b[i] {
            return false;
        }
        i += 1;
    }
    assert(a@ =~= b@);
    true
}

pub open spec fn is_ascii_digit(c: char) -> bool {
    '0' <= c <= '9'
}

pub open spec fn is_ascii_upper(c: char) -> bool {
    'A' <= c <= 'Z'
}

pub open spec fn is_ascii_lower(c: char) -> bool {
    'a' <= c <= 'z'
}

pub open spec fn is_ascii_alnum(c: char) -> bool {
    is_ascii_digit(c) || is_ascii_upper(c) || is_ascii_lower(c)
}

/// `char::to_ascii_lowercase`.
pub open spec fn ascii_lower(c: char) -> char {
    if is_ascii_upper(c) {
        ((c as u32) + 32) as char
    } else {
        c
    }
}

pub fn ascii_lower_char(c: char) -> (r: char)
    ensures
        r == ascii_lower(c),
{
    if 'A' <= c && c <= 'Z' {
        ((c as u8) + 32) as char
    } else {
        c
    }
}

/// `str::to_ascii_lowercase`, character by character.
pub open spec fn ascii_lower_seq(s: Seq<char>) -> Seq<char> {
    s.map_values(|c: char| ascii_lower(c))
}

pub fn ascii_lowercase(s: &Vec<char>) -> (r: Vec<char>)
    ensures
        r@ == ascii_lower_seq(s@),
{
    let mut out: Vec<char> = Vec::new();
    let mut i: usize = 0;
    while i < s.len()
        invariant
            i <= s.len(),
            out@ == ascii_lower_seq(s@.take(i as int)),
        decreases s.len() - i,
    {
        let c = ascii_lower_char(s[i]);
        out.push(c);
        assert(ascii_lower_seq(s@.take(i + 1)) =~= ascii_lower_seq(s@.take(i as int)).push(c));
        i += 1;
    }
    assert(s@.take(s.len() as int) =~= s@);
    out
}

/// The ASCII letters and digits of `s`, lowercased: `Song.View`,
/// `song_view` and `songview` all read `songview`.
pub open spec fn alnum_lower(s: Seq<char>) -> Seq<char> {
    s.filter(|c: char| is_ascii_alnum(c)).map_values(|c: char| ascii_lower(c))
}

pub fn alnum_lowercase(s: &str) -> (r: String)
    ensures
        r@ == alnum_lower(s@),
{
    let cs = chars_of(s);
    let ghost keep = |c: char| is_ascii_alnum(c);
    let mut out: Vec<char> = Vec::new();
    let mut i: usize = 0;
    while i < cs.len()
        invariant
            i <= cs@.len(),
            keep == (|c: char| is_ascii_alnum(c)),
            out@ == cs@.take(i as int).filter(keep).map_values(|c: char| ascii_lower(c)),
        decreases cs.len() - i,
    {
        let c = cs[i];
        proof {
            assert(cs@.take(i + 1).drop_last() =~= cs@.take(i as int));
            reveal_with_fuel(Seq::filter, 1);
        }
        let alnum = ('0' <= c && c <= '9') || ('A' <= c && c <= 'Z') || ('a' <= c && c <= 'z');
        if alnum {
            let ghost before = out@;
            out.push(ascii_lower_char(c));
            assert(cs@.take(i + 1).filter(keep) == cs@.take(i as int).filter(keep).push(c));
            assert(out@ =~= cs@.take(i + 1).filter(keep).map_values(|c: char| ascii_lower(c)));
        } else {
            assert(cs@.take(i + 1).filter(keep) == cs@.take(i as int).filter(keep));
        }
        i += 1;
    }
    assert(cs@.take(cs@.len() as int) =~= cs@);
    string_from(&out)
}

/// `char::is_whitespace`: the Unicode `White_Space` property.
pub open spec fn is_white(c: char) -> bool {
    let u = c as u32;
    (0x09 <= u <= 0x0D) || u == 0x20 || u == 0x85 || u == 0xA0 || u == 0x1680 || (0x2000 <= u
        <= 0x200A) || u == 0x2028 || u == 0x2029 || u == 0x202F || u == 0x205F || u == 0x3000
}

pub fn is_white_char(c: char) -> (r: bool)
    ensures
        r == is_white(c),
{
    let u = c as u32;
    (0x09 <= u && u <= 0x0D) || u == 0x20 || u == 0x85 || u == 0xA0 || u == 0x1680 || (0x2000 <= u
        && u <= 0x200A) || u == 0x2028 || u == 0x2029 || u == 0x202F || u == 0x205F || u == 0x3000
}

pub open spec fn trim_start_seq(s: Seq<char>) -> Seq<char>
    decreases s.len(),
{
    if s.len() > 0 && is_white(s[0]) {
        trim_start_seq(s.drop_first())
    } else {
        s
    }
}

pub open spec fn trim_end_seq(s: Seq<char>) -> Seq<char>
    decreases s.len(),
{
    if s.len() > 0 && is_white(s.last()) {
        trim_end_seq(s.drop_last())
    } else {
        s
    }
}

/// `str::trim`.
pub open spec fn trim_seq(s: Seq<char>) -> Seq<char> {
    trim_end_seq(trim_start_seq(s))
}

proof fn lemma_trim_start_skip(s: Seq<char>, i: int)
    requires
        0 <= i <= s.len(),
        forall|k: int| 0 <= k < i ==> is_white(s[k]),
    ensures
        trim_start_seq(s) == trim_start_seq(s.skip(i)),
    decreases i,
{
    if i > 0 {
        assert(s.skip(1) =~= s.drop_first());
        assert forall|k: int| 0 <= k < i - 1 implies is_white(s.drop_first()[k]) by {}
        lemma_trim_start_skip(s.drop_first(), i - 1);
        assert(s.drop_first().skip(i - 1) =~= s.skip(i));
    } else {
        assert(s.skip(0) =~= s);
    }
}

proof fn lemma_trim_end_take(s: Seq<char>, j: int)
    requires
        0 <= j <= s.len(),
        forall|k: int| j <= k < s.len() ==> is_white(s[k]),
    ensures
        trim_end_seq(s) == trim_end_seq(s.take(j)),
    decreases s.len() - j,
{
    if j < s.len() {
        assert(s.drop_last() =~= s.take(s.len() - 1));
        lemma_trim_end_take(s.drop_last(), j);
        assert(s.drop_last().take(j) =~= s.take(j));
    } else {
        assert(s.take(j) =~= s);
    }
}

/// `str::trim_start`.
pub fn trim_start_chars(s: &Vec<char>) -> (r: Vec<char>)
    ensures
        r@ == trim_start_seq(s@),
{
    let mut i: usize = 0;
    while i < s.len() && is_white_char(s[i])
        invariant
            i <= s.len(),
            forall|k: int| 0 <= k < i ==> is_white(s@[k]),
        decreases s.len() - i,
    {
        i += 1;
    }
    proof {
        lemma_trim_start_skip(s@, i as int);
    }
    let r = sub_chars(s, i, s.len());
    assert(r@ =~= s@.skip(i as int));
    r
}

pub fn trim_chars(s: &Vec<char>) -> (r: Vec<char>)
    ensures
        r@ == trim_seq(s@),
{
    let mut i: usize = 0;
    while i < s.len() && is_white_char(s[i])
        invariant
            i <= s.len(),
            forall|k: int| 0 <= k < i ==> is_white(s@[k]),
        decreases s.len() - i,
    {
        i += 1;
    }
    proof {
        lemma_trim_start_skip(s@, i as int);
    }
    let ghost rest = s@.skip(i as int);
    assert(trim_start_seq(rest) == rest);
    let mut j: usize = s.len();
    while j > i && is_white_char(s[j - 1])
        invariant
            i <= j <= s.len(),
            rest == s@.skip(i as int),
            forall|k: int| j <= k < s.len() ==> is_white(s@[k]),
        decreases j,
    {
        j -= 1;
    }
    proof {
        lemma_trim_end_take(rest, j - i);
        assert(rest.take(j - i) =~= s@.subrange(i as int, j as int));
    }
    let mut out: Vec<char> = Vec::new();
    let mut k: usize = i;
    while k < j
        invariant
            i <= k <= j <= s.len(),
            out@ == s@.subrange(i as int, k as int),
        decreases j - k,
    {
        out.push(s[k]);
        assert(s@.subrange(i as int, k + 1) =~= s@.subrange(i as int, k as int).push(s@[k as int]));
        k += 1;
    }
    out
}

/// The value of a string of decimal digits.
pub open spec fn digits_value(s: Seq<char>) -> nat
    decreases s.len(),
{
    if s.len() == 0 {
        0
    } else {
        digits_value(s.drop_last()) * 10 + ((s.last() as u32 - '0' as u32) as nat)
    }
}

pub open spec fn all_digits(s: Seq<char>) -> bool {
    forall|i: int| 0 <= i < s.len() ==> is_ascii_digit(#[trigger] s[i])
}

/// What `u64::from_str` and friends read: an optional `+`, then one or more
/// ASCII digits.
pub open spec fn unsigned_text(s: Seq<char>) -> Option<nat> {
    let body = if s.len() > 0 && s[0] == '+' {
        s.drop_first()
    } else {
        s
    };
    if body.len() > 0 && all_digits(body) {
        Some(digits_value(body))
    } else {
        None
    }
}

/// What `i64::from_str` reads: an optional sign, then one or more ASCII
/// digits.
pub open spec fn signed_text(s: Seq<char>) -> Option<int> {
    if s.len() > 0 && s[0] == '-' {
        let body = s.drop_first();
        if body.len() > 0 && all_digits(body) {
            Some(-(digits_value(body) as int))
        } else {
            None
        }
    } else {
        match unsigned_text(s) {
            Some(v) => Some(v as int),
            None => None,
        }
    }
}

proof fn lemma_digits_grow(s: Seq<char>, k: int)
    requires
        0 <= k <= s.len(),
        all_digits(s),
    ensures
        digits_value(s.take(k)) <= digits_value(s),
    decreases s.len() - k,
{
    if k < s.len() {
        lemma_digits_grow(s, k + 1);
        assert(s.take(k + 1).drop_last() =~= s.take(k));
        assert(is_ascii_digit(s[k]));
    } else {
        assert(s.take(k) =~= s);
    }
}

/// Read decimal digits `s[from..]` as a number no larger than `max`.
fn digits_up_to(s: &Vec<char>, from: usize, max: u64) -> (r: Option<u64>)
    requires
        from <= s.len(),
    ensures
        r == (if s@.skip(from as int).len() > 0 && all_digits(s@.skip(from as int))
            && digits_value(s@.skip(from as int)) <= max {
            Some(digits_value(s@.skip(from as int)) as u64)
        } else {
            None
        }),
{
    let ghost body = s@.skip(from as int);
    if from >= s.len() {
        return None;
    }
    let mut value: u64 = 0;
    let mut i: usize = from;
    while i < s.len()
        invariant
            from <= i <= s.len(),
            body == s@.skip(from as int),
            all_digits(body.take(i - from)),
            value as nat == digits_value(body.take(i - from)),
            value <= max,
        decreases s.len() - i,
    {
        let c = s[i];
        if !('0' <= c && c <= '9') {
            proof {
                assert(!is_ascii_digit(body[i - from]));
            }
            return None;
        }
        let d: u64 = (c as u32 - '0' as u32) as u64;
        assert(body.take(i - from + 1).drop_last() =~= body.take(i - from));
        assert(body.take(i - from + 1).last() == c);
        if d > max || value > (max - d) / 10 {
            proof {
                assert(digits_value(body.take(i - from + 1)) == value * 10 + d);
                assert(value * 10 + d > max) by (nonlinear_arith)
                    requires
                        d > max || value > (max - d) / 10,
                        d <= 9,
                ;
                if all_digits(body) {
                    lemma_digits_grow(body, i - from + 1);
                }
            }
            return None;
        }
        assert(value * 10 + d <= max) by (nonlinear_arith)
            requires
                value <= (max - d) / 10,
                d <= max,
        ;
        value = value * 10 + d;
        i += 1;
        assert(all_digits(body.take(i - from)));
    }
    assert(body.take(i - from) =~= body);
    Some(value)
}

/// `u64::from_str` limited to `max` (as `u16::from_str` is limited to
/// `u16::MAX`).
pub fn parse_unsigned(s: &Vec<char>, max: u64) -> (r: Option<u64>)
    ensures
        r == (match unsigned_text(s@) {
            Some(v) => if v <= max {
                Some(v as u64)
            } else {
                None
            },
            None => None,
        }),
{
    let from: usize = if s.len() > 0 && s[0] == '+' {
        1
    } else {
        0
    };
    assert(s@.skip(1) =~= s@.drop_first());
    assert(s@.skip(0) =~= s@);
    digits_up_to(s, from, max)
}

/// `i64::from_str`.
pub fn parse_i64(s: &Vec<char>) -> (r: Option<i64>)
    ensures
        r == (match signed_text(s@) {
            Some(v) => if i64::MIN <= v <= i64::MAX {
                Some(v as i64)
            } else {
                None
            },
            None => None,
        }),
{
    assert(s@.skip(1) =~= s@.drop_first());
    assert(s@.skip(0) =~= s@);
    if s.len() > 0 && s[0] == '-' {
        match digits_up_to(s, 1, 9223372036854775808u64) {
            Some(m) => {
                if m == 9223372036854775808u64 {
                    Some(i64::MIN)
                } else {
                    Some(-(m as i64))
                }
            },
            None => None,
        }
    } else {
        let from: usize = if s.len() > 0 && s[0] == '+' {
            1
        } else {
            0
        };
        match digits_up_to(s, from, 9223372036854775807u64) {
            Some(m) => Some(m as i64),
            None => None,
        }
    }
}

pub open spec fn digit_char(d: nat) -> char {
    (('0' as u32) + d) as char
}

/// How a natural number is written in decimal.
pub open spec fn decimal(n: nat) -> Seq<char>
    decreases n,
{
    if n < 10 {
        seq![digit_char(n)]
    } else {
        decimal(n / 10).push(digit_char(n % 10))
    }
}

/// `n.to_string()` for an unsigned integer.
pub fn u64_text(n: u64) -> (r: Vec<char>)
    ensures
        r@ == decimal(n as nat),
    decreases n,
{
    if n < 10 {
        let c = (n as u8 + 48) as char;
        let mut v: Vec<char> = Vec::new();
        v.push(c);
        assert(v@ =~= seq![digit_char(n as nat)]);
        v
    } else {
        let mut v = u64_text(n / 10);
        let c = ((n % 10) as u8 + 48) as char;
        v.push(c);
        v
    }
}

/// How an integer is written in decimal, with a leading `-` when negative.
pub open spec fn signed_decimal(n: int) -> Seq<char> {
    if n < 0 {
        seq!['-'] + decimal((-n) as nat)
    } else {
        decimal(n as nat)
    }
}

/// `n.to_string()` for a signed integer.
pub fn i64_text(n: i64) -> (r: Vec<char>)
    ensures
        r@ == signed_decimal(n as int),
{
    if n < 0 {
        let m: u64 = if n == i64::MIN {
            9223372036854775808u64
        } else {
            (-n) as u64
        };
        let digits = u64_text(m);
        let mut v: Vec<char> = Vec::new();
        v.push('-');
        let mut i: usize = 0;
        while i < digits.len()
            invariant
                i <= digits.len(),
                v@ == seq!['-'] + digits@.take(i as int),
            decreases digits.len() - i,
        {
            v.push(digits[i]);
            assert(seq!['-'] + digits@.take(i + 1) =~= (seq!['-'] + digits@.take(i as int)).push(
                digits@[i as int],
            ));
            i += 1;
        }
        assert(digits@.take(digits.len() as int) =~= digits@);
        v
    } else {
        u64_text(n as u64)
    }
}

/// `t` occurs in `s` starting at `i`.
pub open spec fn occurs_at(s: Seq<char>, t: Seq<char>, i: int) -> bool {
    0 <= i && i + t.len() <= s.len() && s.subrange(i, i + t.len()) == t
}

/// `str::contains` with a string pattern.
pub open spec fn has_infix(s: Seq<char>, t: Seq<char>) -> bool {
    exists|i: int| occurs_at(s, t, i)
}

/// `str::starts_with` with a string pattern.
pub open spec fn has_prefix(s: Seq<char>, t: Seq<char>) -> bool {
    occurs_at(s, t, 0)
}

/// `str::ends_with` with a string pattern.
pub open spec fn has_suffix(s: Seq<char>, t: Seq<char>) -> bool {
    occurs_at(s, t, s.len() - t.len())
}

pub fn matches_at(s: &Vec<char>, t: &Vec<char>, i: usize) -> (r: bool)
    ensures
        r == occurs_at(s@, t@, i as int),
{
    if t.len() > s.len() || i > s.len() - t.len() {
        return false;
    }
    let mut k: usize = 0;
    while k < t.len()
        invariant
            i + t.len() <= s.len(),
            k <= t.len(),
            forall|m: int| 0 <= m < k ==> s@[i + m] == t@[m],
        decreases t.len() - k,
    {
        if s[i + k] != t[k] {
            assert(s@.subrange(i as int, i + t.len())[k as int] != t@[k as int]);
            return false;
        }
        k += 1;
    }
    assert(s@.subrange(i as int, i + t.len()) =~= t@);
    true
}

pub fn contains_chars(s: &Vec<char>, t: &Vec<char>) -> (r: bool)
    ensures
        r == has_infix(s@, t@),
{
    if t.len() > s.len() {
        return false;
    }
    let mut i: usize = 0;
    while i <= s.len() - t.len()
        invariant
            t.len() <= s.len(),
            i <= s.len() - t.len() + 1,
            forall|m: int| 0 <= m < i ==> !occurs_at(s@, t@, m),
        decreases s.len() - t.len() + 1 - i,
    {
        if matches_at(s, t, i) {
            return true;
        }
        if i == s.len() - t.len() {
            return false;
        }
        i += 1;
    }
    false
}

pub fn starts_with_chars(s: &Vec<char>, t: &Vec<char>) -> (r: bool)
    ensures
        r == has_prefix(s@, t@),
{
    matches_at(s, t, 0)
}

pub fn ends_with_chars(s: &Vec<char>, t: &Vec<char>) -> (r: bool)
    ensures
        r == has_suffix(s@, t@),
{
    if t.len() > s.len() {
        return false;
    }
    matches_at(s, t, s.len() - t.len())
}

/// What `str::to_lowercase` returns for a string: the Unicode lowercase
/// mapping, character by character, with the context rule for a final sigma.
pub uninterp spec fn unicode_lowercase(s: Seq<char>) -> Seq<char>;

/// `str::to_lowercase`.
#[verifier::external_body]
pub(crate) fn to_lowercase(s: &str) -> (r: String)
    ensures
        r@ == unicode_lowercase(s@),
{
    s.to_lowercase()
}

}

verus! {

/// Append the characters of `s` to `v`.
pub fn append_str(v: &mut Vec<char>, s: &str)
    ensures
        final(v)@ == old(v)@ + s@,
{
    let cs = chars_of(s);
    append_chars(v, &cs);
}

/// Append `cs` to `v`.
pub fn append_chars(v: &mut Vec<char>, cs: &Vec<char>)
    ensures
        final(v)@ == old(v)@ + cs@,
{
    let ghost start = v@;
    let mut i: usize = 0;
    while i < cs.len()
        invariant
            i <= cs.len(),
            v@ == start + cs@.take(i as int),
        decreases cs.len() - i,
    {
        v.push(cs[i]);
        assert(start + cs@.take(i + 1) =~= (start + cs@.take(i as int)).push(cs@[i as int]));
        i += 1;
    }
    assert(cs@.take(cs.len() as int) =~= cs@);
}

pub proof fn lemma_infix_middle(a: Seq<char>, b: Seq<char>, c: Seq<char>)
    ensures
        has_infix(a + b + c, b),
{
    assert((a + b + c).subrange(a.len() as int, (a.len() + b.len()) as int) =~= b);
    assert(occurs_at(a + b + c, b, a.len() as int));
}

/// What `format!("{:?}", s)` writes for a string `s`: the string in double
/// quotes, with each character written as `char::escape_debug` writes it.
pub uninterp spec fn debug_form(s: Seq<char>) -> Seq<char>;

/// `format!("{:?}", s)`: the `Debug` form of a string.
#[verifier::external_body]
pub(crate) fn debug_text(s: &str) -> (r: String)
    ensures
        r@ == debug_form(s@),
{
    format!("{:?}", s)
}

}

verus! {

/// `v[from..to]`.
pub fn sub_chars(v: &Vec<char>, from: usize, to: usize) -> (r: Vec<char>)
    requires
        from <= to <= v@.len(),
    ensures
        r@ == v@.subrange(from as int, to as int),
{
    let mut out: Vec<char> = Vec::new();
    let mut k: usize = from;
    while k < to
        invariant
            from <= k <= to <= v@.len(),
            out@ == v@.subrange(from as int, k as int),
        decreases to - k,
    {
        out.push(v[k]);
        assert(v@.subrange(from as int, k + 1) =~= v@.subrange(from as int, k as int).push(
            v@[k as int],
        ));
        k += 1;
    }
    out
}

/// `s` without a leading `+` or `-`.
pub open spec fn strip_sign(s: Seq<char>) -> Seq<char> {
    if s.len() > 0 && (s[0] == '+' || s[0] == '-') {
        s.drop_first()
    } else {
        s
    }
}

/// How many ASCII digits `s` starts with.
pub open spec fn leading_digits(s: Seq<char>) -> nat
    decreases s.len(),
{
    if s.len() > 0 && is_ascii_digit(s[0]) {
        1 + leading_digits(s.drop_first())
    } else {
        0
    }
}

/// Where the exponent marker (`e` or `E`) of `s` is, or its length.
pub open spec fn exp_index(s: Seq<char>) -> nat
    decreases s.len(),
{
    if s.len() == 0 {
        0
    } else if s[0] == 'e' || s[0] == 'E' {
        0
    } else {
        1 + exp_index(s.drop_first())
    }
}

/// `Digit+ | Digit+ '.' Digit* | Digit* '.' Digit+`
pub open spec fn mantissa_ok(m: Seq<char>) -> bool {
    let p = leading_digits(m) as int;
    (p == m.len() && p > 0) || (p < m.len() && m[p] == '.' && all_digits(m.skip(p + 1)) && (p > 0
        || m.len() > p + 1))
}

/// `Sign? Digit+`
pub open spec fn exponent_ok(x: Seq<char>) -> bool {
    let y = strip_sign(x);
    y.len() > 0 && all_digits(y)
}

/// `Number ::= Mantissa Exp?` where `Exp ::= ('e' | 'E') Sign? Digit+`
pub open spec fn number_ok(b: Seq<char>) -> bool {
    let e = exp_index(b) as int;
    mantissa_ok(b.take(e)) && (e == b.len() || exponent_ok(b.skip(e + 1)))
}

/// `inf`, `infinity` or `nan`, in any case.
pub open spec fn special_float(b: Seq<char>) -> bool {
    let l = ascii_lower_seq(b);
    l == "inf"@ || l == "infinity"@ || l == "nan"@
}

/// The strings `f64::from_str` accepts, by the grammar in its documentation:
/// `Sign? ('inf' | 'infinity' | 'nan' | Number)`, case-insensitively.
pub open spec fn float_text(s: Seq<char>) -> bool {
    let b = strip_sign(s);
    special_float(b) || number_ok(b)
}

proof fn lemma_leading_digits(s: Seq<char>, i: int)
    requires
        0 <= i <= s.len(),
        all_digits(s.take(i)),
        i == s.len() || !is_ascii_digit(s[i]),
    ensures
        leading_digits(s) == i,
    decreases i,
{
    if i > 0 {
        assert(is_ascii_digit(s.take(i)[0]));
        assert forall|k: int| 0 <= k < i - 1 implies is_ascii_digit(
            #[trigger] s.drop_first().take(i - 1)[k],
        ) by {
            assert(s.drop_first().take(i - 1)[k] == s.take(i)[k + 1]);
        }
        lemma_leading_digits(s.drop_first(), i - 1);
    }
}

proof fn lemma_exp_index(s: Seq<char>, i: int)
    requires
        0 <= i <= s.len(),
        forall|k: int| 0 <= k < i ==> s[k] != 'e' && s[k] != 'E',
        i == s.len() || s[i] == 'e' || s[i] == 'E',
    ensures
        exp_index(s) == i,
    decreases i,
{
    if i > 0 {
        lemma_exp_index(s.drop_first(), i - 1);
    }
}

fn count_leading_digits(s: &Vec<char>) -> (r: usize)
    ensures
        r == leading_digits(s@),
        r <= s@.len(),
{
    let mut i: usize = 0;
    while i < s.len() && '0' <= s[i] && s[i] <= '9'
        invariant
            i <= s.len(),
            all_digits(s@.take(i as int)),
        decreases s.len() - i,
    {
        assert(s@.take(i + 1) =~= s@.take(i as int).push(s@[i as int]));
        i += 1;
    }
    proof {
        lemma_leading_digits(s@, i as int);
    }
    i
}

fn find_exp(s: &Vec<char>) -> (r: usize)
    ensures
        r == exp_index(s@),
        r <= s@.len(),
{
    let mut i: usize = 0;
    while i < s.len() && s[i] != 'e' && s[i] != 'E'
        invariant
            i <= s.len(),
            forall|k: int| 0 <= k < i ==> s@[k] != 'e' && s@[k] != 'E',
        decreases s.len() - i,
    {
        i += 1;
    }
    proof {
        lemma_exp_index(s@, i as int);
    }
    i
}

/// Whether every character of `s` is an ASCII digit.
pub fn only_digits(s: &Vec<char>) -> (r: bool)
    ensures
        r == all_digits(s@),
{
    let mut i: usize = 0;
    while i < s.len()
        invariant
            i <= s.len(),
            forall|k: int| 0 <= k < i ==> is_ascii_digit(s@[k]),
        decreases s.len() - i,
    {
        if !('0' <= s[i] && s[i] <= '9') {
            return false;
        }
        i += 1;
    }
    true
}

fn strip_sign_chars(s: &Vec<char>) -> (r: Vec<char>)
    ensures
        r@ == strip_sign(s@),
{
    if s.len() > 0 && (s[0] == '+' || s[0] == '-') {
        let r = sub_chars(s, 1, s.len());
        assert(r@ =~= s@.drop_first());
        r
    } else {
        let r = sub_chars(s, 0, s.len());
        assert(r@ =~= s@);
        r
    }
}

fn mantissa_valid(m: &Vec<char>) -> (r: bool)
    ensures
        r == mantissa_ok(m@),
{
    let p = count_leading_digits(m);
    if p == m.len() {
        return p > 0;
    }
    if m[p] != '.' {
        return false;
    }
    let rest = sub_chars(m, p + 1, m.len());
    assert(rest@ =~= m@.skip(p + 1));
    only_digits(&rest) && (p > 0 || m.len() > p + 1)
}

/// Whether `f64::from_str` accepts `s`.
pub fn is_float_text(s: &Vec<char>) -> (r: bool)
    ensures
        r == float_text(s@),
{
    let b = strip_sign_chars(s);
    if is_special_float(&b) {
        return true;
    }
    let e = find_exp(&b);
    let m = sub_chars(&b, 0, e);
    assert(m@ =~= b@.take(e as int));
    if !mantissa_valid(&m) {
        return false;
    }
    if e == b.len() {
        return true;
    }
    let x = sub_chars(&b, e + 1, b.len());
    assert(x@ =~= b@.skip(e + 1));
    let y = strip_sign_chars(&x);
    y.len() > 0 && only_digits(&y)
}

/// Whether `b` is `inf`, `infinity` or `nan`, ignoring ASCII case.
pub fn is_special_float(b: &Vec<char>) -> (r: bool)
    ensures
        r == special_float(b@),
{
    let l = ascii_lowercase(b);
    let w = string_from(&l);
    str_eq(w.as_str(), "inf") || str_eq(w.as_str(), "infinity") || str_eq(w.as_str(), "nan")
}

}

verus! {

/// Where the first `c` of `s` is, or `s.len()` when there is none.
pub open spec fn find_char(s: Seq<char>, c: char) -> nat
    decreases s.len(),
{
    if s.len() == 0 {
        0
    } else if s[0] == c {
        0
    } else {
        1 + find_char(s.drop_first(), c)
    }
}

/// How many `0`s `s` starts with.
pub open spec fn leading_zeros(s: Seq<char>) -> nat
    decreases s.len(),
{
    if s.len() > 0 && s[0] == '0' {
        1 + leading_zeros(s.drop_first())
    } else {
        0
    }
}

/// How many `0`s `s` ends with.
pub open spec fn trailing_zeros(s: Seq<char>) -> nat
    decreases s.len(),
{
    if s.len() > 0 && s.last() == '0' {
        1 + trailing_zeros(s.drop_last())
    } else {
        0
    }
}

/// `n` zeros.
pub open spec fn zeros(n: nat) -> Seq<char> {
    Seq::new(n, |i: int| '0')
}

/// The parts of a number's text as `serde_json` writes a float: whether it
/// is negative, its digits, and where the decimal point falls among them
/// (`12.5e-3` is `125` with the point at `-1`). `None` for any other text,
/// and for one too long or with too large an exponent to be a float's.
pub open spec fn number_parts(t: Seq<char>) -> Option<(bool, Seq<char>, int)> {
    let neg = t.len() > 0 && t[0] == '-';
    let body = if neg {
        t.drop_first()
    } else {
        t
    };
    let e = find_char(body, 'e');
    let mant = body.take(e as int);
    let dot = find_char(mant, '.');
    let ip = mant.take(dot as int);
    let fp = if dot < mant.len() {
        mant.skip(dot as int + 1)
    } else {
        Seq::empty()
    };
    let exp = if e < body.len() {
        signed_text(body.skip(e as int + 1))
    } else {
        Some(0)
    };
    if t.len() <= 800 && ip.len() > 0 && all_digits(ip) && all_digits(fp) && exp is Some && -400 <= exp->0
        <= 400 {
        Some((neg, ip + fp, ip.len() + exp->0))
    } else {
        None
    }
}

/// How `Display` writes the float whose shortest text `serde_json` wrote as
/// `t`: every digit written out, no exponent, and no fraction when there is
/// none (`1e-7` is `0.0000001`, `2.5e3` is `2500`). Text that is no such
/// number is left as it is.
pub open spec fn plain_number(t: Seq<char>) -> Seq<char> {
    match number_parts(t) {
        None => t,
        Some((neg, digits, point)) => plain_digits(neg, digits, point),
    }
}

/// The digits `d`, none of them a leading or trailing zero, with the point
/// `p` places in, written out in full.
pub open spec fn placed(d: Seq<char>, p: int) -> Seq<char> {
    if d.len() == 0 {
        "0"@
    } else if p <= 0 {
        "0."@ + zeros((-p) as nat) + d
    } else if p >= d.len() {
        d + zeros((p - d.len()) as nat)
    } else {
        d.take(p) + "."@ + d.skip(p)
    }
}

/// The number with sign `neg`, digits `digits` and the point `point`
/// places in, written out in full without leading or trailing zeros.
pub open spec fn plain_digits(neg: bool, digits: Seq<char>, point: int) -> Seq<char> {
    let lz = leading_zeros(digits);
    let d1 = digits.skip(lz as int);
    let d = d1.take(d1.len() - trailing_zeros(d1));
    let body = placed(d, point - lz);
    if neg {
        seq!['-'] + body
    } else {
        body
    }
}

fn find_in(s: &Vec<char>, c: char) -> (r: usize)
    ensures
        r == find_char(s@, c),
        r <= s@.len(),
{
    let mut i: usize = 0;
    assert(s@.skip(0) =~= s@);
    while i < s.len() && s[i] != c
        invariant
            i <= s@.len(),
            find_char(s@, c) == i + find_char(s@.skip(i as int), c),
        decreases s.len() - i,
    {
        assert(s@.skip(i as int).drop_first() =~= s@.skip(i + 1));
        i += 1;
    }
    if i < s.len() {
        assert(s@.skip(i as int)[0] == c);
    }
    i
}

fn digits_only(s: &Vec<char>) -> (r: bool)
    ensures
        r == all_digits(s@),
{
    let mut i: usize = 0;
    while i < s.len()
        invariant
            i <= s@.len(),
            forall|k: int| 0 <= k < i ==> is_ascii_digit(#[trigger] s@[k]),
        decreases s.len() - i,
    {
        if !('0' <= s[i] && s[i] <= '9') {
            assert(!is_ascii_digit(s@[i as int]));
            return false;
        }
        i += 1;
    }
    true
}

fn push_zeros(v: &mut Vec<char>, n: usize)
    ensures
        final(v)@ == old(v)@ + zeros(n as nat),
{
    let ghost start = v@;
    let mut k: usize = 0;
    while k < n
        invariant
            k <= n,
            v@ == start + zeros(k as nat),
        decreases n - k,
    {
        v.push('0');
        k += 1;
        assert(v@ =~= start + zeros(k as nat));
    }
}

/// The parts [`number_parts`] finds in `t`.
fn number_parts_of(t: &Vec<char>) -> (r: Option<(bool, Vec<char>, i64)>)
    ensures
        match r {
            Some((neg, digits, point)) => number_parts(t@) == Some((neg, digits@, point as int)),
            None => number_parts(t@) is None,
        },
        r matches Some((_, d, p)) ==> d@.len() <= 800 && -1200 <= p <= 1200,
{
    if t.len() > 800 {
        return None;
    }
    let neg = t.len() > 0 && t[0] == '-';
    let body = if neg {
        sub_chars(t, 1, t.len())
    } else {
        sub_chars(t, 0, t.len())
    };
    assert(neg ==> body@ =~= t@.drop_first());
    assert(!neg ==> body@ =~= t@);
    let e = find_in(&body, 'e');
    let mant = sub_chars(&body, 0, e);
    assert(mant@ =~= body@.take(e as int));
    let dot = find_in(&mant, '.');
    let ip = sub_chars(&mant, 0, dot);
    assert(ip@ =~= mant@.take(dot as int));
    let fp = if dot < mant.len() {
        let f = sub_chars(&mant, dot + 1, mant.len());
        assert(f@ =~= mant@.skip(dot + 1));
        f
    } else {
        let f: Vec<char> = Vec::new();
        assert(f@ =~= Seq::<char>::empty());
        f
    };
    let exp: Option<i64> = if e < body.len() {
        let x = sub_chars(&body, e + 1, body.len());
        assert(x@ =~= body@.skip(e + 1));
        parse_i64(&x)
    } else {
        Some(0)
    };
    let x: i64 = match exp {
        Some(x) => x,
        None => {
            return None;
        },
    };
    if !(ip.len() > 0 && digits_only(&ip) && digits_only(&fp) && -400 <= x && x <= 400) {
        return None;
    }
    let mut digits = ip;
    append_chars(&mut digits, &fp);
    let point: i64 = dot as i64 + x;
    Some((neg, digits, point))
}

/// [`placed`] of `d` and `p`.
fn place(d: &Vec<char>, p: i64) -> (r: Vec<char>)
    requires
        -2000 <= p <= 2000,
    ensures
        r@ == placed(d@, p as int),
{
    let mut out: Vec<char> = Vec::new();
    if d.len() == 0 {
        out.push('0');
        assert(out@ =~= "0"@) by {
            reveal_strlit("0");
        }
    } else if p <= 0 {
        out.push('0');
        out.push('.');
        push_zeros(&mut out, (-p) as usize);
        append_chars(&mut out, d);
        assert(out@ =~= "0."@ + zeros((-p) as nat) + d@) by {
            reveal_strlit("0.");
        }
    } else if p as usize >= d.len() {
        append_chars(&mut out, d);
        push_zeros(&mut out, p as usize - d.len());
        assert(out@ =~= d@ + zeros((p - d@.len()) as nat));
    } else {
        let a = sub_chars(d, 0, p as usize);
        let b = sub_chars(d, p as usize, d.len());
        append_chars(&mut out, &a);
        out.push('.');
        append_chars(&mut out, &b);
        assert(out@ =~= d@.take(p as int) + "."@ + d@.skip(p as int)) by {
            reveal_strlit(".");
        }
    }
    out
}

/// [`plain_digits`] of the parts.
fn plain_digits_of(neg: bool, digits: &Vec<char>, point: i64) -> (r: Vec<char>)
    requires
        digits@.len() <= 800,
        -1200 <= point <= 1200,
    ensures
        r@ == plain_digits(neg, digits@, point as int),
{
    let mut lz: usize = 0;
    assert(digits@.skip(0) =~= digits@);
    while lz < digits.len() && digits[lz] == '0'
        invariant
            lz <= digits@.len(),
            leading_zeros(digits@) == lz + leading_zeros(digits@.skip(lz as int)),
        decreases digits.len() - lz,
    {
        assert(digits@.skip(lz as int).drop_first() =~= digits@.skip(lz + 1));
        lz += 1;
    }
    if lz < digits.len() {
        assert(digits@.skip(lz as int)[0] == digits@[lz as int]);
    }
    let d1 = sub_chars(digits, lz, digits.len());
    assert(d1@ =~= digits@.skip(lz as int));
    let mut keep: usize = d1.len();
    assert(d1@.take(keep as int) =~= d1@);
    while keep > 0 && d1[keep - 1] == '0'
        invariant
            keep <= d1@.len(),
            trailing_zeros(d1@) == (d1@.len() - keep) + trailing_zeros(d1@.take(keep as int)),
        decreases keep,
    {
        assert(d1@.take(keep as int).drop_last() =~= d1@.take(keep - 1));
        assert(d1@.take(keep as int).last() == d1@[keep - 1]);
        keep -= 1;
    }
    if keep > 0 {
        assert(d1@.take(keep as int).last() == d1@[keep - 1]);
    }
    let d = sub_chars(&d1, 0, keep);
    assert(d@ =~= d1@.take(d1@.len() - trailing_zeros(d1@)));
    let body = place(&d, point - lz as i64);
    if neg {
        let mut out: Vec<char> = Vec::new();
        out.push('-');
        append_chars(&mut out, &body);
        assert(out@ =~= seq!['-'] + body@);
        out
    } else {
        body
    }
}

/// [`plain_number`] of `t`.
pub fn plain_number_text(t: &Vec<char>) -> (r: Vec<char>)
    ensures
        r@ == plain_number(t@),
{
    match number_parts_of(t) {
        Some((neg, digits, point)) => plain_digits_of(neg, &digits, point),
        None => sub_chars(t, 0, t.len()),
    }
}

}

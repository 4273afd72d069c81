//! Character-sequence helpers used by the capture parsers: decimal numbers,
//! whitespace trimming, searching, splitting and removing substrings.
//!
//! Everything here works on `Vec<char>` / `Seq<char>`; a `String` is turned
//! into its characters once and back at the end.
use vstd::prelude::*;

verus! {

// ----------------------------------------------------------------------------
// Conversions between strings and character vectors
// ----------------------------------------------------------------------------

/// The characters of `s`, in order.
pub(crate) fn chars_of(s: &str) -> (v: Vec<char>)
    ensures
        v@ == s@,
{
    broadcast use vstd::string::axiom_spec_iter;
    let mut v: Vec<char> = Vec::new();
    for c in it: s.chars()
        invariant
            it.seq() == s@,
            v@ == it.seq().take(it.index() as int),
    {
        v.push(c);
        assert(v@ =~= it.seq().take(it.index() + 1));
    }
    assert(v@ =~= s@);
    v
}

/// The string made of the characters of `v`, in order (`String: FromIterator<&char>`).
#[verifier::external_body]
pub(crate) fn string_of(v: &[char]) -> (s: String)
    ensures
        s@ == v@,
{
    v.iter().collect()
}

// ----------------------------------------------------------------------------
// Decimal numbers
// ----------------------------------------------------------------------------

pub open spec fn is_digit(c: char) -> bool {
    '0' <= c && c <= '9'
}

pub open spec fn digit_value(c: char) -> nat {
    (c as nat - '0' as nat) as nat
}

pub open spec fn all_digits(s: Seq<char>) -> bool {
    forall|i: int| 0 <= i < s.len() ==> is_digit(#[trigger] s[i])
}

/// The value of a string of decimal digits, most significant first.
pub open spec fn digits_value(s: Seq<char>) -> nat
    decreases s.len(),
{
    if s.len() == 0 {
        0
    } else {
        10 * digits_value(s.drop_last()) + digit_value(s.last())
    }
}

/// What `str::parse` of an unsigned integer accepts, as a number of any size:
/// an optional `+`, then one or more decimal digits.
pub open spec fn parse_decimal(s: Seq<char>) -> Option<nat> {
    let body = if s.len() > 0 && s[0] == '+' { s.skip(1) } else { s };
    if body.len() > 0 && all_digits(body) {
        Some(digits_value(body))
    } else {
        None
    }
}

/// `str::parse::<u64>()`: the decimal value when it fits, otherwise nothing.
pub open spec fn parse_u64_spec(s: Seq<char>) -> Option<u64> {
    match parse_decimal(s) {
        Some(n) => if n <= u64::MAX { Some(n as u64) } else { None },
        None => None,
    }
}

/// `str::parse::<u32>()`.
pub open spec fn parse_u32_spec(s: Seq<char>) -> Option<u32> {
    match parse_decimal(s) {
        Some(n) => if n <= u32::MAX { Some(n as u32) } else { None },
        None => None,
    }
}

/// `str::parse::<u8>()`.
pub open spec fn parse_u8_spec(s: Seq<char>) -> Option<u8> {
    match parse_decimal(s) {
        Some(n) => if n <= u8::MAX { Some(n as u8) } else { None },
        None => None,
    }
}

proof fn lemma_digits_value_prefix_le(s: Seq<char>, i: int)
    requires
        0 <= i <= s.len(),
    ensures
        digits_value(s.take(i)) <= digits_value(s),
    decreases s.len(),
{
    if i < s.len() {
        lemma_digits_value_prefix_le(s.drop_last(), i);
        assert(s.drop_last().take(i) =~= s.take(i));
    } else {
        assert(s.take(i) =~= s);
    }
}

/// Parses the characters `s[start..]` as a sequence of digits (no sign).
fn parse_digits_u64(s: &Vec<char>, start: usize) -> (r: Option<u64>)
    requires
        start <= s.len(),
    ensures
        r == (if s@.len() > start && all_digits(s@.skip(start as int)) && digits_value(
            s@.skip(start as int),
        ) <= u64::MAX {
            Some(digits_value(s@.skip(start as int)) as u64)
        } else {
            None::<u64>
        }),
{
    let ghost body = s@.skip(start as int);
    if start >= s.len() {
        return None;
    }
    let mut acc: u64 = 0;
    let mut i: usize = start;
    while i < s.len()
        invariant
            start <= i <= s.len(),
            body == s@.skip(start as int),
            all_digits(body.take(i - start)),
            acc as nat == digits_value(body.take(i - start)),
        decreases s.len() - i,
    {
        let c = s[i];
        if !('0' <= c && c <= '9') {
            assert(!all_digits(body)) by {
                assert(body[i - start] == c);
            }
            return None;
        }
        let d: u64 = (c as u32 - '0' as u32) as u64;
        assert(body.take(i + 1 - start).drop_last() =~= body.take(i - start));
        assert(body.take(i + 1 - start).last() == c);
        if acc > (u64::MAX - d) / 10 {
            proof {
                assert(digits_value(body.take(i + 1 - start)) > u64::MAX);
                assert(all_digits(body.take(i + 1 - start)));
                if all_digits(body) {
                    lemma_digits_value_prefix_le(body, i + 1 - start);
                }
            }
            return None;
        }
        acc = acc * 10 + d;
        i = i + 1;
        assert(all_digits(body.take(i - start))) by {
            assert forall|k: int| 0 <= k < i - start implies is_digit(
                #[trigger] body.take(i - start)[k],
            ) by {
                if k < i - 1 - start {
                    assert(body.take(i - start)[k] == body.take(i - 1 - start)[k]);
                }
            }
        }
    }
    assert(body.take(s.len() - start) =~= body);
    Some(acc)
}

/// `str::parse::<u64>()` on a character vector.
pub fn parse_u64(s: &Vec<char>) -> (r: Option<u64>)
    ensures
        r == parse_u64_spec(s@),
{
    let start: usize = if s.len() > 0 && s[0] == '+' { 1 } else { 0 };
    proof {
        if start == 0 {
            assert(s@.skip(0) =~= s@);
        }
    }
    parse_digits_u64(s, start)
}

/// `str::parse::<u32>()` on a character vector.
pub fn parse_u32(s: &Vec<char>) -> (r: Option<u32>)
    ensures
        r == parse_u32_spec(s@),
{
    match parse_u64(s) {
        Some(v) => if v <= u32::MAX as u64 { Some(v as u32) } else { None },
        None => {
            None
        },
    }
}

/// `str::parse::<u8>()` on a character vector.
pub fn parse_u8(s: &Vec<char>) -> (r: Option<u8>)
    ensures
        r == parse_u8_spec(s@),
{
    match parse_u64(s) {
        Some(v) => if v <= u8::MAX as u64 { Some(v as u8) } else { None },
        None => None,
    }
}

pub open spec fn digit_char(d: nat) -> char {
    if d == 0 {
        '0'
    } else if d == 1 {
        '1'
    } else if d == 2 {
        '2'
    } else if d == 3 {
        '3'
    } else if d == 4 {
        '4'
    } else if d == 5 {
        '5'
    } else if d == 6 {
        '6'
    } else if d == 7 {
        '7'
    } else if d == 8 {
        '8'
    } else {
        '9'
    }
}

/// The decimal representation of `n` without leading zeros (`u64::to_string`).
#[verifier::opaque]
pub open spec fn decimal_string(n: nat) -> Seq<char>
    decreases n,
{
    if n < 10 {
        seq![digit_char(n)]
    } else {
        decimal_string(n / 10).push(digit_char(n % 10))
    }
}

proof fn lemma_decimal_string_unfold(n: nat)
    ensures
        n < 10 ==> decimal_string(n) == seq![digit_char(n)],
        n >= 10 ==> decimal_string(n) == decimal_string(n / 10).push(digit_char(n % 10)),
{
    reveal(decimal_string);
}

proof fn lemma_digit_char_value(d: nat)
    requires
        d < 10,
    ensures
        digit_value(digit_char(d)) == d,
        is_digit(digit_char(d)),
        digit_char(d) != '+',
{
}

proof fn lemma_decimal_string_digits(n: nat)
    ensures
        decimal_string(n).len() > 0,
        all_digits(decimal_string(n)),
        digits_value(decimal_string(n)) == n,
        decimal_string(n)[0] != '+',
    decreases n,
{
    lemma_digit_char_value(n % 10);
    lemma_decimal_string_unfold(n);
    if n >= 10 {
        lemma_decimal_string_digits(n / 10);
        let s = decimal_string(n);
        assert(s.drop_last() =~= decimal_string(n / 10));
        assert(s.last() == digit_char(n % 10));
        assert(n == 10 * (n / 10) + n % 10);
        assert(digits_value(s) == 10 * digits_value(s.drop_last()) + digit_value(s.last()));
        assert(all_digits(s)) by {
            assert forall|i: int| 0 <= i < s.len() implies is_digit(#[trigger] s[i]) by {
                if i < s.len() - 1 {
                    assert(s[i] == decimal_string(n / 10)[i]);
                }
            }
        }
    } else {
        let s = decimal_string(n);
        assert(s.drop_last() =~= Seq::<char>::empty());
        assert(digits_value(Seq::<char>::empty()) == 0);
        assert(digits_value(s) == 10 * digits_value(s.drop_last()) + digit_value(s.last()));
    }
}

/// Law: reading back the decimal text of a number gives the number.
pub proof fn lemma_parse_decimal_string(n: u64)
    ensures
        parse_u64_spec(decimal_string(n as nat)) == Some(n),
{
    lemma_decimal_string_digits(n as nat);
}

/// The decimal text of a number has at least one character, all digits.
pub proof fn lemma_decimal_string_nonempty(n: nat)
    ensures
        decimal_string(n).len() > 0,
        all_digits(decimal_string(n)),
{
    lemma_decimal_string_digits(n);
}

/// Law: the decimal text of a number that fits in a `u32` reads back as it,
/// and it holds nothing but digits (so no separator such as `.` or `:`).
pub proof fn lemma_parse_decimal_string_u32(n: u32)
    ensures
        parse_u32_spec(decimal_string(n as nat)) == Some(n),
        all_digits(decimal_string(n as nat)),
        decimal_string(n as nat).len() > 0,
{
    lemma_decimal_string_digits(n as nat);
}

/// The decimal text of `n` (what `format!("{}", n)` gives).
pub fn u64_to_string(n: u64) -> (s: String)
    ensures
        s@ == decimal_string(n as nat),
{
    // digits are produced least significant first, then reversed
    let mut rev: Vec<char> = Vec::new();
    let mut m: u64 = n;
    loop
        invariant_except_break
            decimal_string(n as nat) =~= decimal_string(m as nat) + rev@.reverse(),
        ensures
            decimal_string(n as nat) =~= rev@.reverse(),
        decreases m,
    {
        let d: u64 = m % 10;
        let c: char = char_of_digit(d);
        let ghost old_rev = rev@;
        rev.push(c);
        assert(rev@.reverse() =~= seq![c] + old_rev.reverse()) by {
            assert(rev@ == old_rev.push(c));
        }
        proof {
            lemma_decimal_string_unfold(m as nat);
        }
        if m < 10 {
            assert(decimal_string(m as nat) == seq![c]);
            break ;
        }
        proof {
            let head = decimal_string((m / 10) as nat);
            assert(decimal_string(m as nat) == head.push(c));
            assert(head.push(c) + old_rev.reverse() =~= head + (seq![c] + old_rev.reverse()));
        }
        m = m / 10;
    }
    let mut out: Vec<char> = Vec::new();
    let mut k: usize = rev.len();
    while k > 0
        invariant
            k <= rev.len(),
            out@ =~= rev@.reverse().take((rev.len() - k) as int),
        decreases k,
    {
        k = k - 1;
        out.push(rev[k]);
        assert(out@ =~= rev@.reverse().take((rev.len() - k) as int));
    }
    assert(rev@.reverse().take(rev.len() as int) =~= rev@.reverse());
    string_of(out.as_slice())
}

fn char_of_digit(d: u64) -> (c: char)
    requires
        d < 10,
    ensures
        c == digit_char(d as nat),
{
    if d == 0 {
        '0'
    } else if d == 1 {
        '1'
    } else if d == 2 {
        '2'
    } else if d == 3 {
        '3'
    } else if d == 4 {
        '4'
    } else if d == 5 {
        '5'
    } else if d == 6 {
        '6'
    } else if d == 7 {
        '7'
    } else if d == 8 {
        '8'
    } else {
        '9'
    }
}

// ----------------------------------------------------------------------------
// Comparison, search and trimming
// ----------------------------------------------------------------------------

/// `true` when the characters of `v` are exactly those of `lit`.
pub fn eq_str(v: &Vec<char>, lit: &str) -> (b: bool)
    ensures
        b == (v@ == lit@),
{
    let w = chars_of(lit);
    eq_chars(v.as_slice(), w.as_slice())
}

/// `true` when the two character sequences are equal.
pub fn eq_chars(a: &[char], b: &[char]) -> (r: bool)
    ensures
        r == (a@ == b@),
{
    if a.len() != b.len() {
        return false;
    }
    let mut i: usize = 0;
    while i < a.len()
        invariant
            a.len() == b.len(),
            i <= a.len(),
            forall|k: int| 0 <= k < i ==> a@[k] == b@[k],
        decreases a.len() - i,
    {
        if a[i] != b[i] {
            return false;
        }
        i = i + 1;
    }
    assert(a@ =~= b@);
    true
}

/// `s[start..start + p.len()]` equals `p` (and lies inside `s`).
pub open spec fn occurs_at(s: Seq<char>, p: Seq<char>, start: int) -> bool {
    0 <= start && start + p.len() <= s.len() && s.subrange(start, start + p.len()) == p
}

/// `str::contains` with a string pattern.
pub open spec fn contains_spec(s: Seq<char>, p: Seq<char>) -> bool {
    exists|i: int| #[trigger] occurs_at(s, p, i)
}

/// `str::starts_with`.
pub open spec fn starts_with_spec(s: Seq<char>, p: Seq<char>) -> bool {
    occurs_at(s, p, 0)
}

/// `str::ends_with`.
pub open spec fn ends_with_spec(s: Seq<char>, p: Seq<char>) -> bool {
    occurs_at(s, p, s.len() - p.len())
}

fn occurs_at_exec(s: &[char], p: &[char], start: usize) -> (r: bool)
    requires
        start <= s.len(),
    ensures
        r == occurs_at(s@, p@, start as int),
{
    if p.len() > s.len() - start {
        return false;
    }
    let mut k: usize = 0;
    while k < p.len()
        invariant
            start + p.len() <= s.len(),
            k <= p.len(),
            forall|j: int| 0 <= j < k ==> s@[start + j] == p@[j],
        decreases p.len() - k,
    {
        if s[start + k] != p[k] {
            assert(s@.subrange(start as int, start + p.len())[k as int] != p@[k as int]);
            return false;
        }
        k = k + 1;
    }
    assert(s@.subrange(start as int, start + p.len()) =~= p@);
    true
}

/// `str::contains` on character sequences.
pub fn contains(s: &[char], p: &[char]) -> (r: bool)
    ensures
        r == contains_spec(s@, p@),
{
    if p.len() == 0 {
        assert(occurs_at(s@, p@, 0)) by {
            assert(s@.subrange(0, 0) =~= p@);
        }
        return true;
    }
    if p.len() > s.len() {
        assert forall|j: int| !occurs_at(s@, p@, j) by {}
        return false;
    }
    let last: usize = s.len() - p.len();
    let mut i: usize = 0;
    while i <= last
        invariant
            last == s.len() - p.len(),
            p.len() > 0,
            i <= last + 1,
            forall|j: int| 0 <= j < i ==> !occurs_at(s@, p@, j),
        decreases last + 1 - i,
    {
        if occurs_at_exec(s, p, i) {
            return true;
        }
        i = i + 1;
    }
    assert forall|j: int| !occurs_at(s@, p@, j) by {
        if 0 <= j && j + p@.len() <= s@.len() {
            assert(j < i);
        }
    }
    false
}

/// `str::contains` with a string literal pattern.
pub fn contains_str(s: &Vec<char>, p: &str) -> (r: bool)
    ensures
        r == contains_spec(s@, p@),
{
    let pv = chars_of(p);
    contains(s.as_slice(), pv.as_slice())
}

/// `str::starts_with` with a string literal pattern.
pub fn starts_with_str(s: &Vec<char>, p: &str) -> (r: bool)
    ensures
        r == starts_with_spec(s@, p@),
{
    let pv = chars_of(p);
    occurs_at_exec(s.as_slice(), pv.as_slice(), 0)
}

/// `str::ends_with` with a string literal pattern.
pub fn ends_with_str(s: &Vec<char>, p: &str) -> (r: bool)
    ensures
        r == ends_with_spec(s@, p@),
{
    let pv = chars_of(p);
    if pv.len() > s.len() {
        return false;
    }
    occurs_at_exec(s.as_slice(), pv.as_slice(), s.len() - pv.len())
}

/// `str::strip_suffix`: the characters before the suffix, when `s` ends with it.
pub open spec fn strip_suffix_spec(s: Seq<char>, p: Seq<char>) -> Option<Seq<char>> {
    if ends_with_spec(s, p) {
        Some(s.subrange(0, s.len() - p.len()))
    } else {
        None
    }
}

/// `str::strip_suffix` with a string literal suffix.
pub fn strip_suffix_str(s: &Vec<char>, p: &str) -> (r: Option<Vec<char>>)
    ensures
        match r {
            Some(v) => strip_suffix_spec(s@, p@) == Some(v@),
            None => strip_suffix_spec(s@, p@) is None,
        },
{
    if ends_with_str(s, p) {
        let n = s.len() - p.unicode_len();
        Some(take_chars(s, n))
    } else {
        None
    }
}

/// The first `n` characters of `s`.
pub fn take_chars(s: &Vec<char>, n: usize) -> (r: Vec<char>)
    requires
        n <= s.len(),
    ensures
        r@ == s@.subrange(0, n as int),
{
    let mut r: Vec<char> = Vec::new();
    let mut i: usize = 0;
    while i < n
        invariant
            n <= s.len(),
            i <= n,
            r@ == s@.subrange(0, i as int),
        decreases n - i,
    {
        r.push(s[i]);
        i = i + 1;
        assert(r@ =~= s@.subrange(0, i as int));
    }
    r
}

/// The characters of `s` from position `n` on.
pub fn skip_chars(s: &Vec<char>, n: usize) -> (r: Vec<char>)
    requires
        n <= s.len(),
    ensures
        r@ == s@.skip(n as int),
{
    let mut r: Vec<char> = Vec::new();
    let mut i: usize = n;
    while i < s.len()
        invariant
            n <= i <= s.len(),
            r@ == s@.subrange(n as int, i as int),
        decreases s.len() - i,
    {
        r.push(s[i]);
        i = i + 1;
        assert(r@ =~= s@.subrange(n as int, i as int));
    }
    assert(s@.subrange(n as int, s.len() as int) =~= s@.skip(n as int));
    r
}

/// `char::is_whitespace`: the characters with the Unicode `White_Space` property.
pub open spec fn is_whitespace(c: char) -> bool {
    let u = c as u32;
    ||| (0x09 <= u && u <= 0x0d)
    ||| u == 0x20
    ||| u == 0x85
    ||| u == 0xa0
    ||| u == 0x1680
    ||| (0x2000 <= u && u <= 0x200a)
    ||| u == 0x2028
    ||| u == 0x2029
    ||| u == 0x202f
    ||| u == 0x205f
    ||| u == 0x3000
}

fn is_whitespace_exec(c: char) -> (r: bool)
    ensures
        r == is_whitespace(c),
{
    let u = c as u32;
    (0x09 <= u && u <= 0x0d) || u == 0x20 || u == 0x85 || u == 0xa0 || u == 0x1680 || (0x2000
        <= u && u <= 0x200a) || u == 0x2028 || u == 0x2029 || u == 0x202f || u == 0x205f || u
        == 0x3000
}

pub open spec fn trim_start_spec(s: Seq<char>) -> Seq<char>
    decreases s.len(),
{
    if s.len() > 0 && is_whitespace(s[0]) {
        trim_start_spec(s.skip(1))
    } else {
        s
    }
}

pub open spec fn trim_end_spec(s: Seq<char>) -> Seq<char>
    decreases s.len(),
{
    if s.len() > 0 && is_whitespace(s.last()) {
        trim_end_spec(s.drop_last())
    } else {
        s
    }
}

/// `str::trim`: leading and trailing whitespace removed.
pub open spec fn trim_spec(s: Seq<char>) -> Seq<char> {
    trim_end_spec(trim_start_spec(s))
}

/// `str::trim` on characters.
pub fn trim(s: &Vec<char>) -> (r: Vec<char>)
    ensures
        r@ == trim_spec(s@),
{
    let mut i: usize = 0;
    assert(s@.skip(0) =~= s@);
    while i < s.len() && is_whitespace_exec(s[i])
        invariant
            i <= s.len(),
            trim_start_spec(s@) == trim_start_spec(s@.skip(i as int)),
        decreases s.len() - i,
    {
        assert(s@.skip(i as int).skip(1) =~= s@.skip(i + 1));
        i = i + 1;
    }
    let mut j: usize = s.len();
    assert(s@.skip(i as int).subrange(0, (j - i) as int) =~= s@.skip(i as int));
    while j > i && is_whitespace_exec(s[j - 1])
        invariant
            i <= j <= s.len(),
            trim_end_spec(s@.skip(i as int)) == trim_end_spec(
                s@.skip(i as int).subrange(0, (j - i) as int),
            ),
        decreases j,
    {
        assert(s@.skip(i as int).subrange(0, (j - i) as int).drop_last() =~= s@.skip(
            i as int,
        ).subrange(0, (j - 1 - i) as int));
        j = j - 1;
    }
    let mid = skip_chars(s, i);
    let r = take_chars(&mid, j - i);
    r
}

// ----------------------------------------------------------------------------
// Splitting and removing
// ----------------------------------------------------------------------------

/// `str::split` on one character: the pieces between the separators, in order.
pub open spec fn split_spec(s: Seq<char>, sep: char) -> Seq<Seq<char>>
    decreases s.len(),
{
    if s.len() == 0 {
        seq![Seq::<char>::empty()]
    } else {
        let r = split_spec(s.drop_last(), sep);
        if s.last() == sep {
            r.push(Seq::<char>::empty())
        } else {
            r.update(r.len() - 1, r.last().push(s.last()))
        }
    }
}

/// Splitting text followed by more text without the separator: the last piece
/// grows by that text.
pub proof fn lemma_split_append_plain(x: Seq<char>, y: Seq<char>, sep: char)
    requires
        forall|i: int| 0 <= i < y.len() ==> y[i] != sep,
    ensures
        split_spec(x + y, sep) == split_spec(x, sep).update(
            split_spec(x, sep).len() - 1,
            split_spec(x, sep).last() + y,
        ),
    decreases y.len(),
{
    lemma_split_nonempty(x, sep);
    if y.len() == 0 {
        assert(x + y =~= x);
        assert(split_spec(x, sep).last() + y =~= split_spec(x, sep).last());
        assert(split_spec(x, sep).update(split_spec(x, sep).len() - 1, split_spec(x, sep).last())
            =~= split_spec(x, sep));
    } else {
        let y0 = y.drop_last();
        lemma_split_append_plain(x, y0, sep);
        assert((x + y).drop_last() =~= x + y0);
        assert((x + y).last() == y.last());
        let r = split_spec(x, sep);
        assert(y.last() != sep);
        let r1 = split_spec(x + y0, sep);
        assert(r1.len() == r.len());
        assert(r1.last() == r.last() + y0);
        assert((r.last() + y0).push(y.last()) =~= r.last() + y);
        assert(split_spec(x + y, sep) == r1.update(r1.len() - 1, r1.last().push(y.last())));
        assert(split_spec(x + y, sep) =~= r.update(r.len() - 1, r.last() + y));
    }
}

/// Splitting text followed by the separator: one more, empty, piece.
pub proof fn lemma_split_append_sep(x: Seq<char>, sep: char)
    ensures
        split_spec(x.push(sep), sep) == split_spec(x, sep).push(Seq::<char>::empty()),
{
    assert(x.push(sep).drop_last() =~= x);
}

pub proof fn lemma_split_nonempty(s: Seq<char>, sep: char)
    ensures
        split_spec(s, sep).len() >= 1,
    decreases s.len(),
{
    if s.len() > 0 {
        lemma_split_nonempty(s.drop_last(), sep);
    }
}

/// The contents of a vector of character vectors.
pub open spec fn char_vecs_view(v: Seq<Vec<char>>) -> Seq<Seq<char>> {
    v.map_values(|x: Vec<char>| x@)
}

/// `str::split` on one character.
pub fn split(s: &Vec<char>, sep: char) -> (r: Vec<Vec<char>>)
    ensures
        char_vecs_view(r@) == split_spec(s@, sep),
{
    let mut done: Vec<Vec<char>> = Vec::new();
    let mut cur: Vec<char> = Vec::new();
    let mut i: usize = 0;
    while i < s.len()
        invariant
            i <= s.len(),
            split_spec(s@.take(i as int), sep) == char_vecs_view(done@).push(cur@),
        decreases s.len() - i,
    {
        let c = s[i];
        assert(s@.take(i + 1).drop_last() =~= s@.take(i as int));
        assert(s@.take(i + 1).last() == c);
        proof {
            lemma_split_nonempty(s@.take(i as int), sep);
        }
        if c == sep {
            let ghost old_done = char_vecs_view(done@);
            let finished = cur;
            done.push(finished);
            cur = Vec::new();
            assert(char_vecs_view(done@) =~= old_done.push(finished@));
        } else {
            let ghost old_cur = cur@;
            cur.push(c);
            assert(char_vecs_view(done@).push(old_cur).update(
                char_vecs_view(done@).len() as int,
                old_cur.push(c),
            ) =~= char_vecs_view(done@).push(cur@));
        }
        i = i + 1;
    }
    assert(s@.take(s.len() as int) =~= s@);
    let ghost before = char_vecs_view(done@);
    done.push(cur);
    assert(char_vecs_view(done@) =~= before.push(cur@));
    done
}

/// `str::replace(p, "")`: every non-overlapping occurrence of `p`, scanning from
/// the left, removed.
pub open spec fn remove_all_spec(s: Seq<char>, p: Seq<char>) -> Seq<char>
    decreases s.len(),
{
    if p.len() == 0 || s.len() == 0 {
        s
    } else if occurs_at(s, p, 0) {
        remove_all_spec(s.skip(p.len() as int), p)
    } else {
        seq![s[0]] + remove_all_spec(s.skip(1), p)
    }
}

/// `str::replace(p, "")` with a non-empty literal pattern.
pub fn remove_all_str(s: &Vec<char>, p: &str) -> (r: Vec<char>)
    requires
        p@.len() > 0,
    ensures
        r@ == remove_all_spec(s@, p@),
{
    let pv = chars_of(p);
    let mut out: Vec<char> = Vec::new();
    let mut i: usize = 0;
    assert(s@.skip(0) =~= s@);
    while i < s.len()
        invariant
            i <= s.len(),
            pv@ == p@,
            pv@.len() > 0,
            remove_all_spec(s@, pv@) == out@ + remove_all_spec(s@.skip(i as int), pv@),
        decreases s.len() - i,
    {
        let ghost rest = s@.skip(i as int);
        if occurs_at_exec(s.as_slice(), pv.as_slice(), i) {
            assert(occurs_at(rest, pv@, 0)) by {
                assert(rest.subrange(0, pv@.len() as int) =~= s@.subrange(
                    i as int,
                    i + pv@.len(),
                ));
            }
            assert(rest.skip(pv@.len() as int) =~= s@.skip(i + pv.len()));
            i = i + pv.len();
        } else {
            assert(!occurs_at(rest, pv@, 0)) by {
                if occurs_at(rest, pv@, 0) {
                    assert(rest.subrange(0, pv@.len() as int) =~= s@.subrange(
                        i as int,
                        i + pv@.len(),
                    ));
                }
            }
            assert(rest.skip(1) =~= s@.skip(i + 1));
            assert(rest[0] == s@[i as int]);
            let ghost before = out@;
            out.push(s[i]);
            assert(out@ + remove_all_spec(s@.skip(i + 1), pv@) =~= before + (seq![s@[i as int]]
                + remove_all_spec(s@.skip(i + 1), pv@)));
            i = i + 1;
        }
    }
    assert(remove_all_spec(s@.skip(i as int), pv@) == Seq::<char>::empty());
    assert(out@ + Seq::<char>::empty() =~= out@);
    out
}

proof fn lemma_remove_char_concat(a: Seq<char>, b: Seq<char>, c: char)
    ensures
        remove_all_spec(a + b, seq![c]) == remove_all_spec(a, seq![c]) + remove_all_spec(
            b,
            seq![c],
        ),
    decreases a.len(),
{
    let p = seq![c];
    if a.len() == 0 {
        assert(a + b =~= b);
        assert(remove_all_spec(a, p) =~= Seq::<char>::empty());
        assert(Seq::<char>::empty() + remove_all_spec(b, p) =~= remove_all_spec(b, p));
    } else {
        let ab = a + b;
        assert(ab.skip(1) =~= a.skip(1) + b);
        lemma_remove_char_concat(a.skip(1), b, c);
        assert(occurs_at(ab, p, 0) == (a[0] == c)) by {
            assert(ab.subrange(0, 1) =~= seq![a[0]]);
            assert(a.subrange(0, 1) =~= seq![a[0]]);
            if ab.subrange(0, 1) == p {
                assert(ab.subrange(0, 1)[0] == p[0]);
            }
        }
        assert(occurs_at(a, p, 0) == (a[0] == c)) by {
            assert(a.subrange(0, 1) =~= seq![a[0]]);
            if a.subrange(0, 1) == p {
                assert(a.subrange(0, 1)[0] == p[0]);
            }
        }
        if a[0] != c {
            assert(seq![a[0]] + (remove_all_spec(a.skip(1), p) + remove_all_spec(b, p)) =~= (seq![
                a[0],
            ] + remove_all_spec(a.skip(1), p)) + remove_all_spec(b, p));
        }
    }
}

/// Removing spaces keeps a `"..."` ending.
pub proof fn lemma_remove_spaces_keeps_ellipsis(s: Seq<char>)
    requires
        ends_with_spec(s, "..."@),
    ensures
        ends_with_spec(remove_all_spec(s, " "@), "..."@),
{
    reveal_strlit("...");
    reveal_strlit(" ");
    let dots = "..."@;
    let a = s.subrange(0, s.len() - 3);
    assert(s =~= a + dots);
    assert(" "@ =~= seq![' ']);
    lemma_remove_char_concat(a, dots, ' ');
    let p = seq![' '];
    assert(remove_all_spec(dots, p) =~= dots) by {
        assert(!occurs_at(dots, p, 0)) by {
            if occurs_at(dots, p, 0) {
                assert(dots.subrange(0, 1)[0] == p[0]);
            }
        }
        let d1 = dots.skip(1);
        assert(!occurs_at(d1, p, 0)) by {
            if occurs_at(d1, p, 0) {
                assert(d1.subrange(0, 1)[0] == p[0]);
            }
        }
        let d2 = d1.skip(1);
        assert(!occurs_at(d2, p, 0)) by {
            if occurs_at(d2, p, 0) {
                assert(d2.subrange(0, 1)[0] == p[0]);
            }
        }
        assert(d2.skip(1) =~= Seq::<char>::empty());
        assert(remove_all_spec(Seq::<char>::empty(), p) == Seq::<char>::empty());
        assert(remove_all_spec(d2, p) =~= seq![d2[0]]);
        assert(remove_all_spec(d1, p) =~= seq![d1[0], d2[0]]);
        assert(remove_all_spec(dots, p) =~= seq![dots[0], d1[0], d2[0]]);
    }
    let r = remove_all_spec(s, " "@);
    assert(r.subrange(r.len() - 3, r.len() as int) =~= dots);
}

} // verus!

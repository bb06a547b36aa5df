//! Character-level helpers on strings that the rest of the crate builds on.

use vstd::prelude::*;
use vstd::string::*;

verus! {

/// The lower-case form of a text, as `str::to_lowercase` computes it.
pub uninterp spec fn lowercase_of(s: Seq<char>) -> Seq<char>;

/// Calls `str::to_lowercase`. The result is only named: it is the Unicode
/// lower-case mapping of the argument and depends on nothing else.
#[verifier::external_body]
pub(crate) fn to_lowercase(s: &str) -> (r: String)
    ensures
        r@ == lowercase_of(s@),
{
    s.to_lowercase()
}

/// Calls `String::push`, which appends one character to the end of the string.
#[verifier::external_body]
pub(crate) fn push_char(s: &mut String, c: char)
    ensures
        final(s)@ == old(s)@.push(c),
{
    s.push(c)
}

/// The integer that a text is read as, as `str::parse` reads it; none where it is none.
pub uninterp spec fn parsed_i32_of(s: Seq<char>) -> Option<i32>;

/// Calls `str::parse` for `i32`. The result is only named: it depends on
/// the text alone.
#[verifier::external_body]
pub(crate) fn parse_i32(s: &str) -> (r: Option<i32>)
    ensures
        r == parsed_i32_of(s@),
{
    s.parse::<i32>().ok()
}

/// Whether `list` holds a string with the characters `s`.
pub open spec fn has_text(list: Seq<String>, s: Seq<char>) -> bool {
    exists|i: int| 0 <= i < list.len() && (#[trigger] list[i])@ == s
}

/// The characters of each string of a list.
pub open spec fn texts(list: Seq<String>) -> Seq<Seq<char>> {
    Seq::new(list.len(), |i: int| list[i]@)
}

/// A list holds a string with given characters exactly when its texts contain them.
pub proof fn lemma_has_text_texts(list: Seq<String>, t: Seq<char>)
    ensures
        has_text(list, t) <==> texts(list).contains(t),
{
    if has_text(list, t) {
        let i = choose|i: int| 0 <= i < list.len() && (#[trigger] list[i])@ == t;
        assert(texts(list)[i] == t);
    }
    if texts(list).contains(t) {
        let i = choose|i: int| 0 <= i < texts(list).len() && texts(list)[i] == t;
        assert(list[i]@ == t);
    }
}

/// `s` with every occurrence of `from` replaced by `to`.
pub open spec fn replaced(s: Seq<char>, from: char, to: char) -> Seq<char> {
    Seq::new(s.len(), |i: int| if s[i] == from { to } else { s[i] })
}

/// The decimal digit for `d`, which is below ten.
pub open spec fn digit_char(d: int) -> char {
    if d == 0 { '0' }
    else if d == 1 { '1' }
    else if d == 2 { '2' }
    else if d == 3 { '3' }
    else if d == 4 { '4' }
    else if d == 5 { '5' }
    else if d == 6 { '6' }
    else if d == 7 { '7' }
    else if d == 8 { '8' }
    else { '9' }
}

/// The decimal digits of a natural number, most significant first.
pub open spec fn digits(n: nat) -> Seq<char>
    decreases n,
{
    if n < 10 {
        seq![digit_char(n as int)]
    } else {
        digits(n / 10).push(digit_char((n % 10) as int))
    }
}

/// The decimal rendering of an integer, with a leading minus sign below zero.
pub open spec fn decimal(n: int) -> Seq<char> {
    if n < 0 {
        seq!['-'] + digits((-n) as nat)
    } else {
        digits(n as nat)
    }
}

/// The lower-case hexadecimal digit for `d`, which is below sixteen.
pub open spec fn hex_char(d: int) -> char {
    if d < 10 { digit_char(d) }
    else if d == 10 { 'a' }
    else if d == 11 { 'b' }
    else if d == 12 { 'c' }
    else if d == 13 { 'd' }
    else if d == 14 { 'e' }
    else { 'f' }
}

/// Two lower-case hexadecimal digits per byte, in order.
pub open spec fn hex(bytes: Seq<u8>) -> Seq<char> {
    Seq::new(2 * bytes.len(), |i: int| if i % 2 == 0 {
        hex_char(bytes[i / 2] as int / 16)
    } else {
        hex_char(bytes[i / 2] as int % 16)
    })
}

/// Whether `s` begins with `prefix`.
pub open spec fn begins_with(s: Seq<char>, prefix: Seq<char>) -> bool {
    prefix.len() <= s.len() && s.subrange(0, prefix.len() as int) == prefix
}

/// Whether `s` ends with `suffix`.
pub open spec fn finishes_with(s: Seq<char>, suffix: Seq<char>) -> bool {
    suffix.len() <= s.len() && s.subrange(s.len() - suffix.len(), s.len() as int) == suffix
}

/// The position of the first `c` in `s`, or the length of `s` where there is none.
pub open spec fn first_index_of(s: Seq<char>, c: char) -> int
    decreases s.len(),
{
    if s.len() == 0 {
        0
    } else if s[0] == c {
        0
    } else {
        1 + first_index_of(s.subrange(1, s.len() as int), c)
    }
}

pub fn contains_text(list: &Vec<String>, s: &String) -> (r: bool)
    ensures
        r == has_text(list@, s@),
{
    let mut i: usize = 0;
    while i < list.len()
        invariant
            i <= list.len(),
            forall|j: int| 0 <= j < i ==> (#[trigger] list@[j])@ != s@,
        decreases list.len() - i,
    {
        if list[i] == *s {
            return true;
        }
        i += 1;
    }
    false
}

pub fn copy_texts(list: &Vec<String>) -> (r: Vec<String>)
    ensures
        r@ == list@,
{
    let mut out: Vec<String> = Vec::new();
    let mut i: usize = 0;
    while i < list.len()
        invariant
            i <= list.len(),
            out@ == list@.take(i as int),
        decreases list.len() - i,
    {
        out.push(list[i].clone());
        proof {
            assert(list@.take(i as int + 1) =~= list@.take(i as int).push(list@[i as int]));
        }
        i += 1;
    }
    proof {
        assert(list@.take(list.len() as int) =~= list@);
    }
    out
}

pub fn replace_char(s: &str, from: char, to: char) -> (r: String)
    ensures
        r@ == replaced(s@, from, to),
{
    let n: usize = s.unicode_len();
    let mut out = String::new();
    let mut i: usize = 0;
    while i < n
        invariant
            i <= n,
            n == s@.len(),
            out@ == replaced(s@, from, to).take(i as int),
        decreases n - i,
    {
        let c = s.get_char(i);
        let d = if c == from { to } else { c };
        push_char(&mut out, d);
        proof {
            assert(replaced(s@, from, to).take(i as int + 1) =~= replaced(s@, from, to).take(
                i as int,
            ).push(d));
        }
        i += 1;
    }
    proof {
        assert(replaced(s@, from, to).take(n as int) =~= replaced(s@, from, to));
    }
    out
}

pub fn starts_with(s: &str, prefix: &str) -> (r: bool)
    ensures
        r == begins_with(s@, prefix@),
{
    let n: usize = s.unicode_len();
    let m: usize = prefix.unicode_len();
    if m > n {
        return false;
    }
    let mut i: usize = 0;
    while i < m
        invariant
            i <= m <= n,
            n == s@.len(),
            m == prefix@.len(),
            forall|j: int| 0 <= j < i ==> s@[j] == prefix@[j],
        decreases m - i,
    {
        if s.get_char(i) != prefix.get_char(i) {
            proof {
                assert(s@.subrange(0, m as int)[i as int] == s@[i as int]);
            }
            return false;
        }
        i += 1;
    }
    proof {
        assert(s@.subrange(0, m as int) =~= prefix@);
    }
    true
}

pub fn ends_with(s: &str, suffix: &str) -> (r: bool)
    ensures
        r == finishes_with(s@, suffix@),
{
    let n: usize = s.unicode_len();
    let m: usize = suffix.unicode_len();
    if m > n {
        return false;
    }
    let base: usize = n - m;
    let mut i: usize = 0;
    while i < m
        invariant
            i <= m <= n,
            base == n - m,
            n == s@.len(),
            m == suffix@.len(),
            forall|j: int| 0 <= j < i ==> s@[base + j] == suffix@[j],
        decreases m - i,
    {
        if s.get_char(base + i) != suffix.get_char(i) {
            proof {
                assert(s@.subrange(n - m, n as int)[i as int] == s@[base + i]);
            }
            return false;
        }
        i += 1;
    }
    proof {
        assert(s@.subrange(n - m, n as int) =~= suffix@);
    }
    true
}

/// The characters of `s` from `from` up to `to`, as a new string.
pub fn slice(s: &str, from: usize, to: usize) -> (r: String)
    requires
        from <= to <= s@.len(),
    ensures
        r@ == s@.subrange(from as int, to as int),
{
    let mut out = String::new();
    let mut i: usize = from;
    while i < to
        invariant
            from <= i <= to <= s@.len(),
            out@ == s@.subrange(from as int, i as int),
        decreases to - i,
    {
        let c = s.get_char(i);
        push_char(&mut out, c);
        proof {
            assert(s@.subrange(from as int, i as int + 1) =~= s@.subrange(
                from as int,
                i as int,
            ).push(c));
        }
        i += 1;
    }
    out
}

pub proof fn lemma_first_index_of(s: Seq<char>, c: char)
    ensures
        0 <= first_index_of(s, c) <= s.len(),
        first_index_of(s, c) < s.len() ==> s[first_index_of(s, c)] == c,
        forall|j: int| 0 <= j < first_index_of(s, c) ==> s[j] != c,
    decreases s.len(),
{
    if s.len() > 0 && s[0] != c {
        let rest = s.subrange(1, s.len() as int);
        lemma_first_index_of(rest, c);
        assert forall|j: int| 0 <= j < first_index_of(s, c) implies s[j] != c by {
            if j > 0 {
                assert(rest[j - 1] == s[j]);
            }
        }
    }
}

/// If `k` is a position of `c` with no `c` before it, then `k` is the first.
pub proof fn lemma_first_index_is(s: Seq<char>, c: char, k: int)
    requires
        0 <= k <= s.len(),
        k < s.len() ==> s[k] == c,
        forall|j: int| 0 <= j < k ==> s[j] != c,
    ensures
        first_index_of(s, c) == k,
{
    lemma_first_index_of(s, c);
}

/// The position of the first `c` in `s`, or the length of `s`.
pub fn find_char(s: &str, c: char) -> (r: usize)
    ensures
        r == first_index_of(s@, c),
{
    let n: usize = s.unicode_len();
    let mut i: usize = 0;
    while i < n
        invariant
            i <= n,
            n == s@.len(),
            forall|j: int| 0 <= j < i ==> s@[j] != c,
        decreases n - i,
    {
        if s.get_char(i) == c {
            proof {
                lemma_first_index_is(s@, c, i as int);
            }
            return i;
        }
        i += 1;
    }
    proof {
        lemma_first_index_is(s@, c, n as int);
    }
    n
}

fn digit_of(d: u32) -> (c: char)
    requires
        d < 10,
    ensures
        c == digit_char(d as int),
{
    if d == 0 { '0' }
    else if d == 1 { '1' }
    else if d == 2 { '2' }
    else if d == 3 { '3' }
    else if d == 4 { '4' }
    else if d == 5 { '5' }
    else if d == 6 { '6' }
    else if d == 7 { '7' }
    else if d == 8 { '8' }
    else { '9' }
}

fn hex_digit_of(d: u8) -> (c: char)
    requires
        d < 16,
    ensures
        c == hex_char(d as int),
{
    if d < 10 { digit_of(d as u32) }
    else if d == 10 { 'a' }
    else if d == 11 { 'b' }
    else if d == 12 { 'c' }
    else if d == 13 { 'd' }
    else if d == 14 { 'e' }
    else { 'f' }
}

fn push_digits(out: &mut String, n: u32)
    ensures
        final(out)@ == old(out)@ + digits(n as nat),
    decreases n,
{
    if n < 10 {
        push_char(out, digit_of(n));
        proof {
            assert(old(out)@.push(digit_char(n as int)) =~= old(out)@ + digits(n as nat));
        }
    } else {
        push_digits(out, n / 10);
        push_char(out, digit_of(n % 10));
        proof {
            assert((old(out)@ + digits((n / 10) as nat)).push(digit_char((n % 10) as int))
                =~= old(out)@ + digits(n as nat));
        }
    }
}

/// The decimal rendering of `n`.
pub fn decimal_string(n: i32) -> (r: String)
    ensures
        r@ == decimal(n as int),
{
    let mut out = String::new();
    if n < 0 {
        push_char(&mut out, '-');
        let wide: i64 = -(n as i64);
        let m: u32 = wide as u32;
        push_digits(&mut out, m);
        proof {
            assert(Seq::<char>::empty().push('-') =~= seq!['-']);
        }
    } else {
        push_digits(&mut out, n as u32);
        proof {
            assert(Seq::<char>::empty() + digits(n as nat) =~= digits(n as nat));
        }
    }
    out
}

/// Lower-case hexadecimal text of `bytes`, two digits per byte.
pub fn hex_string(bytes: &Vec<u8>) -> (r: String)
    ensures
        r@ == hex(bytes@),
{
    let mut out = String::new();
    let mut i: usize = 0;
    while i < bytes.len()
        invariant
            i <= bytes.len(),
            out@ == hex(bytes@.take(i as int)),
        decreases bytes.len() - i,
    {
        let b: u8 = bytes[i];
        push_char(&mut out, hex_digit_of(b / 16));
        push_char(&mut out, hex_digit_of(b % 16));
        proof {
            assert(bytes@.take(i as int + 1) =~= bytes@.take(i as int).push(b));
            assert(hex(bytes@.take(i as int)).push(hex_char(b as int / 16)).push(
                hex_char(b as int % 16),
            ) =~= hex(bytes@.take(i as int + 1)));
        }
        i += 1;
    }
    proof {
        assert(bytes@.take(bytes.len() as int) =~= bytes@);
    }
    out
}

/// Whether `k` is the place that puts `a` before `b`: up to there they
/// are the same, and there `a` ends while `b` goes on, or `a` has the
/// character with the smaller code.
pub open spec fn puts_before(a: Seq<char>, b: Seq<char>, k: int) -> bool {
    &&& 0 <= k <= a.len()
    &&& k <= b.len()
    &&& forall|j: int| 0 <= j < k ==> a[j] == b[j]
    &&& ((k == a.len() && k < b.len()) || (k < a.len() && k < b.len() && (a[k] as u32) < (b[k] as u32)))
}

/// Whether `a` stands before `b` in the order of texts.
pub open spec fn text_before(a: Seq<char>, b: Seq<char>) -> bool {
    exists|k: int| puts_before(a, b, k)
}

/// The order of texts is transitive.
pub proof fn lemma_text_before_transitive(a: Seq<char>, b: Seq<char>, c: Seq<char>)
    requires
        text_before(a, b),
        text_before(b, c),
    ensures
        text_before(a, c),
{
    let k1 = choose|k: int| puts_before(a, b, k);
    let k2 = choose|k: int| puts_before(b, c, k);
    if k1 <= k2 {
        assert forall|j: int| 0 <= j < k1 implies a[j] == c[j] by {
            assert(a[j] == b[j]);
            assert(b[j] == c[j]);
        }
        if k1 < k2 {
            assert(b[k1] == c[k1]);
        }
        assert(puts_before(a, c, k1));
    } else {
        assert forall|j: int| 0 <= j < k2 implies a[j] == c[j] by {
            assert(a[j] == b[j]);
            assert(b[j] == c[j]);
        }
        assert(a[k2] == b[k2]);
        assert(puts_before(a, c, k2));
    }
}

/// No text stands before itself.
pub proof fn lemma_text_before_irreflexive(a: Seq<char>)
    ensures
        !text_before(a, a),
{
    assert forall|k: int| !puts_before(a, a, k) by {}
}

/// Whether `a` stands before `b` in the order of texts.
pub fn is_before(a: &str, b: &str) -> (r: bool)
    ensures
        r == text_before(a@, b@),
{
    let n: usize = a.unicode_len();
    let m: usize = b.unicode_len();
    let mut i: usize = 0;
    while i < n && i < m
        invariant
            i <= n,
            i <= m,
            n == a@.len(),
            m == b@.len(),
            forall|j: int| 0 <= j < i ==> a@[j] == b@[j],
        decreases n - i,
    {
        let x = a.get_char(i);
        let y = b.get_char(i);
        if x != y {
            let less = (x as u32) < (y as u32);
            proof {
                if less {
                    assert(puts_before(a@, b@, i as int));
                } else {
                    assert forall|k: int| !puts_before(a@, b@, k) by {
                        if k > i {
                            assert(a@[i as int] != b@[i as int]);
                        }
                    }
                }
            }
            return less;
        }
        i += 1;
    }
    proof {
        if n < m {
            assert(puts_before(a@, b@, n as int));
        } else {
            assert forall|k: int| !puts_before(a@, b@, k) by {}
        }
    }
    n < m
}

/// Whether a character is a decimal digit.
pub open spec fn is_digit(c: char) -> bool {
    48 <= (c as u32) <= 57
}

/// How many digits a date key takes at most: fourteen from the year down to
/// the second, and nine for the parts of a second.
pub open spec fn key_digits() -> nat {
    23
}

/// How many digits of `s` enter its date key.
pub open spec fn digits_taken(s: Seq<char>) -> nat
    decreases s.len(),
{
    if s.len() == 0 {
        0
    } else {
        let before = digits_taken(s.drop_last());
        if before < key_digits() && is_digit(s.last()) {
            before + 1
        } else {
            before
        }
    }
}

/// The number that the digits of `s` write that enter its date key,
/// whatever stands between them.
pub open spec fn digits_written(s: Seq<char>) -> nat
    decreases s.len(),
{
    if s.len() == 0 {
        0
    } else {
        let before = digits_taken(s.drop_last());
        if before < key_digits() && is_digit(s.last()) {
            digits_written(s.drop_last()) * 10 + ((s.last() as u32) - 48) as nat
        } else {
            digits_written(s.drop_last())
        }
    }
}

/// Ten to the power `n`.
pub open spec fn pow10(n: nat) -> nat
    decreases n,
{
    if n == 0 {
        1
    } else {
        10 * pow10((n - 1) as nat)
    }
}

/// A number of `taken` digits with zeros behind it up to the digits of a date key.
pub open spec fn padded(value: nat, taken: nat) -> nat
    decreases key_digits() - taken,
{
    if taken >= key_digits() {
        value
    } else {
        padded(value * 10, taken + 1)
    }
}

/// The date key of a text: the first twenty-three digits that it holds,
/// read as one number, with zeros behind them where it holds fewer. A date
/// that is written from the year down to the parts of a second keeps its
/// parts of a second, however many digits they have. It is the key by which
/// versions are ordered in time.
pub open spec fn date_key(s: Seq<char>) -> nat {
    padded(digits_written(s), digits_taken(s))
}

proof fn lemma_pow10_grows(a: nat, b: nat)
    requires
        a <= b,
    ensures
        pow10(a) <= pow10(b),
    decreases b,
{
    if a < b {
        lemma_pow10_grows(a, (b - 1) as nat);
    }
}

/// The date key of `date`.
pub fn date_key_of(date: &str) -> (r: u128)
    ensures
        r == date_key(date@),
        r < pow10(key_digits()),
{
    let n: usize = date.unicode_len();
    let mut value: u128 = 0;
    let mut taken: u8 = 0;
    let mut i: usize = 0;
    proof {
        assert(date@.take(0) =~= Seq::<char>::empty());
        reveal_with_fuel(pow10, 24);
        assert(pow10(23) == 100000000000000000000000);
    }
    while i < n
        invariant
            i <= n,
            n == date@.len(),
            taken <= 23,
            taken == digits_taken(date@.take(i as int)),
            value == digits_written(date@.take(i as int)),
            value < pow10(taken as nat),
            pow10(23) == 100000000000000000000000,
        decreases n - i,
    {
        let c = date.get_char(i);
        let code: u32 = c as u32;
        proof {
            assert(date@.take(i as int + 1).drop_last() =~= date@.take(i as int));
            assert(date@.take(i as int + 1).last() == c);
        }
        if taken < 23 && 48 <= code && code <= 57 {
            proof {
                lemma_pow10_grows(taken as nat, 22);
                assert(pow10(23) == 10 * pow10(22));
                assert(pow10((taken + 1) as nat) == 10 * pow10(taken as nat));
            }
            value = value * 10 + (code - 48) as u128;
            taken = taken + 1;
        }
        i += 1;
    }
    proof {
        assert(date@.take(n as int) =~= date@);
    }
    while taken < 23
        invariant
            taken <= 23,
            value < pow10(taken as nat),
            padded(value as nat, taken as nat) == date_key(date@),
            pow10(23) == 100000000000000000000000,
        decreases 23 - taken,
    {
        proof {
            lemma_pow10_grows(taken as nat, 22);
            assert(pow10(23) == 10 * pow10(22));
            assert(pow10((taken + 1) as nat) == 10 * pow10(taken as nat));
        }
        value = value * 10;
        taken = taken + 1;
    }
    value
}

/// The number that a decimal digit stands for.
pub open spec fn digit_value(c: char) -> int {
    if c == '0' { 0 }
    else if c == '1' { 1 }
    else if c == '2' { 2 }
    else if c == '3' { 3 }
    else if c == '4' { 4 }
    else if c == '5' { 5 }
    else if c == '6' { 6 }
    else if c == '7' { 7 }
    else if c == '8' { 8 }
    else { 9 }
}

/// The number that a row of decimal digits writes.
pub open spec fn digits_value(s: Seq<char>) -> int
    decreases s.len(),
{
    if s.len() == 0 {
        0
    } else {
        digits_value(s.drop_last()) * 10 + digit_value(s.last())
    }
}

/// The digits of a number write that number, and hold no sign.
pub proof fn lemma_digits_value(n: nat)
    ensures
        digits_value(digits(n)) == n,
        digits(n).len() >= 1,
        forall|i: int| 0 <= i < digits(n).len() ==> digits(n)[i] != '-',
    decreases n,
{
    if n < 10 {
        let s = digits(n);
        assert(s.drop_last() =~= Seq::<char>::empty());
        assert(s.last() == digit_char(n as int));
        assert(digits_value(s.drop_last()) == 0);
    } else {
        lemma_digits_value(n / 10);
        let s = digits(n);
        assert(s.drop_last() =~= digits(n / 10));
        assert(s.last() == digit_char((n % 10) as int));
        assert forall|i: int| 0 <= i < s.len() implies s[i] != '-' by {
            if i < s.len() - 1 {
                assert(s[i] == digits(n / 10)[i]);
            }
        }
    }
}

/// Two integers with the same decimal rendering are the same integer.
pub proof fn lemma_decimal_injective(a: int, b: int)
    requires
        decimal(a) == decimal(b),
    ensures
        a == b,
{
    let da = digits((if a < 0 { -a } else { a }) as nat);
    let db = digits((if b < 0 { -b } else { b }) as nat);
    lemma_digits_value((if a < 0 { -a } else { a }) as nat);
    lemma_digits_value((if b < 0 { -b } else { b }) as nat);
    if a < 0 {
        assert(decimal(a)[0] == '-');
        if b >= 0 {
            assert(decimal(b)[0] == db[0]);
        } else {
            assert(da =~= decimal(a).subrange(1, decimal(a).len() as int));
            assert(db =~= decimal(b).subrange(1, decimal(b).len() as int));
        }
    } else {
        if b < 0 {
            assert(decimal(b)[0] == '-');
            assert(decimal(a)[0] == da[0]);
        }
    }
}

} // verus!

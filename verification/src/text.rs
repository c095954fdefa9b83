//! Text operations on which the user rules are built.

use vstd::prelude::*;

verus! {

/// Lower-case form of a text, as `str::to_lowercase` computes it (Unicode
/// `Lowercase` mapping of each character, with the context rules of std).
pub uninterp spec fn lowercase(s: Seq<char>) -> Seq<char>;

/// Calls `str::to_lowercase`.  Its result depends on the text alone; the
/// contract names it `lowercase` and says no more of the Unicode tables.
#[verifier::external_body]
pub(crate) fn to_lowercase(s: &str) -> (r: String)
    ensures
        r@ == lowercase(s@),
{
    s.to_lowercase()
}

/// The characters of a text, in order.
pub fn chars_of(s: &str) -> (r: Vec<char>)
    ensures
        r@ == s@,
{
    let mut r: Vec<char> = Vec::new();
    for c in it: s.chars()
        invariant
            r@ == it.seq().take(it.index() as int),
            it.seq() == s@,
    {
        r.push(c);
    }
    r
}

} // verus!

verus! {

/// Whether `a` comes strictly before `b` in the character-wise
/// lexicographic order, looking from position `i` on (the positions before
/// `i` being equal).
pub open spec fn lex_less_from(a: Seq<char>, b: Seq<char>, i: int) -> bool
    decreases a.len() - i,
{
    if i < 0 || i >= a.len() {
        0 <= i < b.len()
    } else if i >= b.len() {
        false
    } else if a[i] != b[i] {
        (a[i] as u32) < (b[i] as u32)
    } else {
        lex_less_from(a, b, i + 1)
    }
}

/// Lexicographic order on texts by character code: a proper prefix comes
/// first, otherwise the first differing character decides.
pub open spec fn lex_less(a: Seq<char>, b: Seq<char>) -> bool {
    lex_less_from(a, b, 0)
}

/// No text comes before itself.
pub proof fn lemma_lex_less_irreflexive(a: Seq<char>, i: int)
    requires
        0 <= i,
    ensures
        !lex_less_from(a, a, i),
    decreases a.len() - i,
{
    if i < a.len() {
        lemma_lex_less_irreflexive(a, i + 1);
    }
}

/// The lexicographic order is transitive.
pub proof fn lemma_lex_less_transitive(a: Seq<char>, b: Seq<char>, c: Seq<char>, i: int)
    requires
        0 <= i,
        lex_less_from(a, b, i),
        lex_less_from(b, c, i),
    ensures
        lex_less_from(a, c, i),
    decreases a.len() - i,
{
    if i < a.len() && i < b.len() && i < c.len() && a[i] == b[i] && b[i] == c[i] {
        lemma_lex_less_transitive(a, b, c, i + 1);
    }
}

/// Of two texts, one comes before the other unless they are equal.
pub proof fn lemma_lex_less_trichotomy(a: Seq<char>, b: Seq<char>, i: int)
    requires
        0 <= i <= a.len(),
        i <= b.len(),
        a.subrange(0, i) == b.subrange(0, i),
    ensures
        lex_less_from(a, b, i) || lex_less_from(b, a, i) || a == b,
    decreases a.len() - i,
{
    if i < a.len() && i < b.len() && a[i] == b[i] {
        assert(a.subrange(0, i + 1) == b.subrange(0, i + 1)) by {
            assert forall|k: int| 0 <= k < i + 1 implies #[trigger] a.subrange(0, i + 1)[k] == b.subrange(0, i + 1)[k] by {
                if k < i {
                    assert(a.subrange(0, i)[k] == b.subrange(0, i)[k]);
                }
            }
        }
        lemma_lex_less_trichotomy(a, b, i + 1);
    } else if i == a.len() && i == b.len() {
        assert(a == a.subrange(0, i));
        assert(b == b.subrange(0, i));
    } else if i < a.len() && i < b.len() {
        vstd::utf8::char_u32_cast(a[i], a[i] as u32);
        vstd::utf8::char_u32_cast(b[i], b[i] as u32);
        assert((a[i] as u32) != (b[i] as u32));
    }
}

/// Position `k` shows that `a` comes before `b`: the texts agree before
/// `k`, and at `k` either `a` has ended while `b` goes on, or `a` has the
/// smaller character code.
pub open spec fn lex_witness(a: Seq<char>, b: Seq<char>, k: int) -> bool {
    &&& 0 <= k <= a.len()
    &&& k <= b.len()
    &&& a.take(k) == b.take(k)
    &&& ((k == a.len() && k < b.len()) || (k < a.len() && k < b.len() && (a[k] as u32) < (b[k] as u32)))
}

proof fn lemma_lex_less_from_witness(a: Seq<char>, b: Seq<char>, i: int)
    requires
        0 <= i <= a.len(),
        i <= b.len(),
        a.take(i) == b.take(i),
    ensures
        lex_less_from(a, b, i) <==> exists|k: int| i <= k && #[trigger] lex_witness(a, b, k),
    decreases a.len() - i,
{
    if i == a.len() {
        if i < b.len() {
            assert(lex_witness(a, b, i));
        }
    } else if i == b.len() {
    } else if a[i] != b[i] {
        if (a[i] as u32) < (b[i] as u32) {
            assert(lex_witness(a, b, i));
        }
        assert forall|k: int| i < k implies !#[trigger] lex_witness(a, b, k) by {
            if lex_witness(a, b, k) {
                assert(a.take(k)[i] == b.take(k)[i]);
            }
        }
    } else {
        assert(a.take(i + 1) == b.take(i + 1)) by {
            assert forall|k: int| 0 <= k < i + 1 implies #[trigger] a.take(i + 1)[k] == b.take(i + 1)[k] by {
                if k < i {
                    assert(a.take(i)[k] == b.take(i)[k]);
                }
            }
        }
        lemma_lex_less_from_witness(a, b, i + 1);
        assert(!lex_witness(a, b, i));
        if exists|k: int| i <= k && #[trigger] lex_witness(a, b, k) {
            let k = choose|k: int| i <= k && #[trigger] lex_witness(a, b, k);
            assert(i + 1 <= k);
        }
    }
}

/// The lexicographic order on texts: `a` comes before `b` exactly when, at
/// the first position where they differ, `a` has the smaller character
/// code, or `a` is a proper prefix of `b`.
pub proof fn lemma_lex_less_meaning(a: Seq<char>, b: Seq<char>)
    ensures
        lex_less(a, b) <==> exists|k: int|
            #![trigger a.take(k)]
            0 <= k <= a.len() && k <= b.len() && a.take(k) == b.take(k) && ((k == a.len() && k < b.len()) || (k
                < a.len() && k < b.len() && (a[k] as u32) < (b[k] as u32))),
{
    assert(a.take(0) == b.take(0));
    lemma_lex_less_from_witness(a, b, 0);
    if lex_less(a, b) {
        let k = choose|k: int| 0 <= k && #[trigger] lex_witness(a, b, k);
        assert(lex_witness(a, b, k));
        let _ = a.take(k);
    }
    if exists|k: int|
        #![trigger a.take(k)]
        0 <= k <= a.len() && k <= b.len() && a.take(k) == b.take(k) && ((k == a.len() && k < b.len()) || (k < a.len()
            && k < b.len() && (a[k] as u32) < (b[k] as u32))) {
        let k = choose|k: int|
            #![trigger a.take(k)]
            0 <= k <= a.len() && k <= b.len() && a.take(k) == b.take(k) && ((k == a.len() && k < b.len()) || (k
                < a.len() && k < b.len() && (a[k] as u32) < (b[k] as u32)));
        assert(lex_witness(a, b, k));
    }
}

/// Compares two character sequences in the lexicographic order.
pub fn chars_less(a: &Vec<char>, b: &Vec<char>) -> (r: bool)
    ensures
        r == lex_less(a@, b@),
{
    let mut i: usize = 0;
    while i < a.len() && i < b.len() && a[i] == b[i]
        invariant
            0 <= i <= a@.len(),
            i <= b@.len(),
            lex_less_from(a@, b@, 0) == lex_less_from(a@, b@, i as int),
        decreases a@.len() - i,
    {
        i = i + 1;
    }
    if i >= a.len() {
        i < b.len()
    } else if i >= b.len() {
        false
    } else {
        (a[i] as u32) < (b[i] as u32)
    }
}

/// Whether two character sequences hold the same characters.
pub fn chars_equal(a: &Vec<char>, b: &Vec<char>) -> (r: bool)
    ensures
        r == (a@ == b@),
{
    if a.len() != b.len() {
        return false;
    }
    let mut i: usize = 0;
    while i < a.len()
        invariant
            a@.len() == b@.len(),
            0 <= i <= a@.len(),
            forall|k: int| 0 <= k < i ==> a@[k] == b@[k],
        decreases a@.len() - i,
    {
        if a[i] != b[i] {
            return false;
        }
        i = i + 1;
    }
    assert(a@ =~= b@);
    true
}

} // verus!

verus! {

/// Whether a character has the Unicode `White_Space` property, which is
/// what `char::is_whitespace` tests: U+0009 to U+000D, U+0020, U+0085,
/// U+00A0, U+1680, U+2000 to U+200A, U+2028, U+2029, U+202F, U+205F and
/// U+3000.
pub open spec fn is_white_space(c: char) -> bool {
    let u = c as u32;
    ||| 0x09 <= u <= 0x0D
    ||| u == 0x20
    ||| u == 0x85
    ||| u == 0xA0
    ||| u == 0x1680
    ||| 0x2000 <= u <= 0x200A
    ||| u == 0x2028
    ||| u == 0x2029
    ||| u == 0x202F
    ||| u == 0x205F
    ||| u == 0x3000
}

/// A text without its leading white space.
pub open spec fn trimmed_start(s: Seq<char>) -> Seq<char>
    decreases s.len(),
{
    if s.len() > 0 && is_white_space(s[0]) {
        trimmed_start(s.drop_first())
    } else {
        s
    }
}

/// A text without its trailing white space.
pub open spec fn trimmed_end(s: Seq<char>) -> Seq<char>
    decreases s.len(),
{
    if s.len() > 0 && is_white_space(s.last()) {
        trimmed_end(s.drop_last())
    } else {
        s
    }
}

/// A text without its leading and trailing white space, as `str::trim`
/// removes it.
pub open spec fn trimmed(s: Seq<char>) -> Seq<char> {
    trimmed_end(trimmed_start(s))
}

/// Calls `str::trim`, which std documents as removing leading and trailing
/// characters with the Unicode `White_Space` property.
#[verifier::external_body]
pub(crate) fn trim(s: &str) -> (r: &str)
    ensures
        r@ == trimmed(s@),
{
    s.trim()
}

} // verus!

verus! {

/// Whether a character is an ASCII decimal digit.
pub open spec fn is_digit(c: char) -> bool {
    48 <= (c as u32) <= 57
}

/// Whether every character of a text is an ASCII decimal digit.
pub open spec fn all_digits(s: Seq<char>) -> bool {
    forall|i: int| 0 <= i < s.len() ==> is_digit(#[trigger] s[i])
}

/// The number that a text of decimal digits spells.
pub open spec fn digits_value(s: Seq<char>) -> nat
    decreases s.len(),
{
    if s.len() == 0 {
        0
    } else {
        digits_value(s.drop_last()) * 10 + ((s.last() as u32) - 48) as nat
    }
}

/// The magnitude that a non-empty text of digits spells, if it fits in a
/// `u64`.
pub open spec fn magnitude_of(s: Seq<char>) -> Option<u64> {
    if s.len() > 0 && all_digits(s) && digits_value(s) <= u64::MAX {
        Some(digits_value(s) as u64)
    } else {
        None
    }
}

/// The `u64` that `str::parse::<u64>` reads from a text: an optional `+`
/// followed by one or more decimal digits, of a value that fits.
pub open spec fn parse_u64_text(s: Seq<char>) -> Option<u64> {
    if s.len() > 0 && s[0] == '+' {
        magnitude_of(s.drop_first())
    } else {
        magnitude_of(s)
    }
}

/// The `i64` that `str::parse::<i64>` reads from a text: an optional `+` or
/// `-` followed by one or more decimal digits, of a value that fits.
pub open spec fn parse_i64_text(s: Seq<char>) -> Option<i64> {
    let negative = s.len() > 0 && s[0] == '-';
    let body = if s.len() > 0 && (s[0] == '-' || s[0] == '+') { s.drop_first() } else { s };
    match magnitude_of(body) {
        Some(m) => if negative {
            if m <= 0x8000_0000_0000_0000u64 { Some((-(m as int)) as i64) } else { None }
        } else {
            if m <= 0x7fff_ffff_ffff_ffffu64 { Some(m as i64) } else { None }
        },
        None => None,
    }
}

/// A longer text of digits never spells a smaller number than its prefix.
pub proof fn lemma_digits_value_prefix(s: Seq<char>, k: int)
    requires
        0 <= k <= s.len(),
        all_digits(s),
    ensures
        digits_value(s.take(k)) <= digits_value(s),
    decreases s.len(),
{
    if k < s.len() {
        let init = s.drop_last();
        assert(init.take(k) == s.take(k));
        assert(all_digits(init)) by {
            assert forall|i: int| 0 <= i < init.len() implies is_digit(#[trigger] init[i]) by {
                assert(init[i] == s[i]);
            }
        }
        lemma_digits_value_prefix(init, k);
    } else {
        assert(s.take(k) == s);
    }
}

/// Reads the magnitude spelled by `chars[start..end]`.
fn magnitude(chars: &Vec<char>, start: usize, end: usize) -> (r: Option<u64>)
    requires
        start <= end <= chars@.len(),
    ensures
        r == magnitude_of(chars@.subrange(start as int, end as int)),
{
    let ghost body = chars@.subrange(start as int, end as int);
    if start == end {
        return None;
    }
    let mut acc: u64 = 0;
    let mut i: usize = start;
    while i < end
        invariant
            start <= i <= end <= chars@.len(),
            body == chars@.subrange(start as int, end as int),
            all_digits(body.take(i - start)),
            acc as nat == digits_value(body.take(i - start)),
        decreases end - i,
    {
        let ghost k = i - start;
        proof {
            assert(body.take(k + 1).drop_last() == body.take(k));
            assert(body.take(k + 1).last() == chars@[i as int]);
        }
        let c = chars[i];
        if !((c as u32) >= 48 && (c as u32) <= 57) {
            proof {
                assert(!is_digit(body[k]));
            }
            return None;
        }
        let d = ((c as u32) - 48) as u64;
        match acc.checked_mul(10) {
            Some(t) => match t.checked_add(d) {
                Some(v) => {
                    acc = v;
                },
                None => {
                    proof {
                        if all_digits(body) {
                            lemma_digits_value_prefix(body, k + 1);
                        }
                    }
                    return None;
                },
            },
            None => {
                proof {
                    if all_digits(body) {
                        lemma_digits_value_prefix(body, k + 1);
                    }
                }
                return None;
            },
        }
        proof {
            assert forall|j: int| 0 <= j < k + 1 implies is_digit(#[trigger] body.take(k + 1)[j]) by {
                if j < k {
                    assert(body.take(k + 1)[j] == body.take(k)[j]);
                }
            }
        }
        i = i + 1;
    }
    proof {
        assert(body.take(end - start) == body);
    }
    Some(acc)
}

/// Reads a `u64` from `chars[..end]` as `str::parse::<u64>` does.
pub fn parse_u64_chars(chars: &Vec<char>, end: usize) -> (r: Option<u64>)
    requires
        end <= chars@.len(),
    ensures
        r == parse_u64_text(chars@.take(end as int)),
{
    let ghost s = chars@.take(end as int);
    if end > 0 && chars[0] == '+' {
        proof {
            assert(s.drop_first() == chars@.subrange(1, end as int));
        }
        magnitude(chars, 1, end)
    } else {
        proof {
            assert(s == chars@.subrange(0, end as int));
        }
        magnitude(chars, 0, end)
    }
}

/// Reads an `i64` from `chars[..end]` as `str::parse::<i64>` does.
pub fn parse_i64_chars(chars: &Vec<char>, end: usize) -> (r: Option<i64>)
    requires
        end <= chars@.len(),
    ensures
        r == parse_i64_text(chars@.take(end as int)),
{
    let ghost s = chars@.take(end as int);
    let negative = end > 0 && chars[0] == '-';
    let m = if end > 0 && (chars[0] == '-' || chars[0] == '+') {
        proof {
            assert(s.drop_first() == chars@.subrange(1, end as int));
        }
        magnitude(chars, 1, end)
    } else {
        proof {
            assert(s == chars@.subrange(0, end as int));
        }
        magnitude(chars, 0, end)
    };
    match m {
        Some(m) => if negative {
            if m <= 0x8000_0000_0000_0000u64 {
                let wide: i128 = -(m as i128);
                Some(wide as i64)
            } else {
                None
            }
        } else {
            if m <= 0x7fff_ffff_ffff_ffffu64 {
                Some(m as i64)
            } else {
                None
            }
        },
        None => None,
    }
}

} // verus!

verus! {

/// The decimal digits of a number, without leading zeros, as `to_string`
/// writes an unsigned integer.
pub open spec fn decimal_text(n: nat) -> Seq<char>
    decreases n,
{
    if n < 10 {
        seq![(n + 48) as char]
    } else {
        decimal_text(n / 10).push((n % 10 + 48) as char)
    }
}

/// Calls `String::push`, which appends one character.
#[verifier::external_body]
fn push_char(s: &mut String, c: char)
    ensures
        final(s)@ == old(s)@.push(c),
{
    s.push(c);
}

/// Appends the decimal digits of `n` to `s`.
pub fn push_decimal(s: &mut String, n: u64)
    ensures
        final(s)@ == old(s)@ + decimal_text(n as nat),
    decreases n,
{
    if n >= 10 {
        push_decimal(s, n / 10);
    }
    let d = (n % 10) as u8;
    let c = (48u8 + d) as char;
    proof {
        assert(c == ((n % 10) as nat + 48) as char);
    }
    push_char(s, c);
    proof {
        if n >= 10 {
            assert(old(s)@ + decimal_text(n as nat) == old(s)@ + decimal_text((n / 10) as nat) + seq![c]);
        } else {
            assert(decimal_text(n as nat) == seq![c]);
        }
    }
}

} // verus!

verus! {

/// Writing a number in decimal and reading it back gives the number again:
/// `str::parse` reads what `push_decimal` writes.
pub proof fn lemma_decimal_reads_back(n: nat)
    ensures
        decimal_text(n).len() > 0,
        all_digits(decimal_text(n)),
        digits_value(decimal_text(n)) == n,
        is_digit(decimal_text(n)[0]),
        n <= u64::MAX ==> parse_u64_text(decimal_text(n)) == Some(n as u64),
        n <= i64::MAX ==> parse_i64_text(decimal_text(n)) == Some(n as i64),
    decreases n,
{
    let s = decimal_text(n);
    let d = (n % 10 + 48) as char;
    assert((d as u32) == n % 10 + 48);
    assert(s.last() == d);
    if n >= 10 {
        lemma_decimal_reads_back(n / 10);
        let init = decimal_text(n / 10);
        assert(s.drop_last() == init);
        assert forall|i: int| 0 <= i < s.len() implies is_digit(#[trigger] s[i]) by {
            if i < init.len() {
                assert(s[i] == init[i]);
            }
        }
        assert(s[0] == init[0]);
        assert(digits_value(s) == digits_value(init) * 10 + (n % 10));
        assert(n == (n / 10) * 10 + n % 10);
        assert(digits_value(s) == n);
    } else {
        assert(s.len() == 1);
        assert(s.drop_last() == Seq::<char>::empty());
        assert(digits_value(s.drop_last()) == 0);
        assert(digits_value(s) == n);
    }
    assert(s[0] != '+' && s[0] != '-');
}

} // verus!

//! Text helpers over `str`: splitting, trimming, decimal parsing and
//! ASCII-insensitive comparison, each specified over `Seq<char>`.

use vstd::prelude::*;
use vstd::string::*;
use vstd::utf8::{decode_utf8, valid_utf8};

verus! {

/// The characters of `s`, in order.
pub fn chars_of(s: &str) -> (out: Vec<char>)
    ensures
        out@ == s@,
{
    let mut out: Vec<char> = Vec::new();
    for c in it: s.chars()
        invariant
            out@ == it.seq().take(it.index() as int),
            it.seq() == s@,
    {
        out.push(c);
    }
    out
}

/// The pieces of `s` between occurrences of `sep`, in order. There is always
/// at least one piece, and a separator at either end leaves an empty piece
/// there.
pub open spec fn split_seq(s: Seq<char>, sep: char) -> Seq<Seq<char>>
    decreases s.len(),
{
    if s.len() == 0 {
        seq![Seq::<char>::empty()]
    } else {
        let before = split_seq(s.drop_last(), sep);
        if s.last() == sep {
            before.push(Seq::<char>::empty())
        } else {
            before.update(before.len() - 1, before.last().push(s.last()))
        }
    }
}

/// The views of a vector of strings.
pub open spec fn views_of(v: Seq<String>) -> Seq<Seq<char>> {
    Seq::new(v.len(), |i: int| v[i]@)
}

/// The pieces in order with `sep` between neighbours.
pub open spec fn join_seq(pieces: Seq<Seq<char>>, sep: char) -> Seq<char>
    decreases pieces.len(),
{
    if pieces.len() == 0 {
        Seq::empty()
    } else if pieces.len() == 1 {
        pieces[0]
    } else {
        join_seq(pieces.drop_last(), sep) + seq![sep] + pieces.last()
    }
}

/// Splitting loses nothing: there is at least one piece, no piece holds
/// the separator, and the pieces joined by the separator are the text.
pub proof fn lemma_split_join(s: Seq<char>, sep: char)
    ensures
        split_seq(s, sep).len() >= 1,
        forall|i: int| 0 <= i < split_seq(s, sep).len() ==> !(#[trigger] split_seq(s, sep)[i]).contains(sep),
        join_seq(split_seq(s, sep), sep) == s,
    decreases s.len(),
{
    let pieces = split_seq(s, sep);
    if s.len() == 0 {
        assert(pieces[0] =~= Seq::<char>::empty());
        assert(join_seq(pieces, sep) =~= s);
    } else {
        let before = split_seq(s.drop_last(), sep);
        lemma_split_join(s.drop_last(), sep);
        let last = before.len() - 1;
        if s.last() == sep {
            assert(pieces.drop_last() =~= before);
            assert(join_seq(pieces, sep) =~= s.drop_last().push(sep));
            assert(s.drop_last().push(sep) =~= s);
            assert forall|i: int| 0 <= i < pieces.len() implies !(#[trigger] pieces[i]).contains(sep) by {
                if i < before.len() {
                    assert(pieces[i] == before[i]);
                }
            }
        } else {
            let grown = before[last].push(s.last());
            assert(pieces[last] == grown);
            assert(!grown.contains(sep)) by {
                if grown.contains(sep) {
                    let k = choose|k: int| 0 <= k < grown.len() && grown[k] == sep;
                    assert(before[last][k] == sep);
                }
            }
            assert forall|i: int| 0 <= i < pieces.len() implies !(#[trigger] pieces[i]).contains(sep) by {
                if i < last {
                    assert(pieces[i] == before[i]);
                }
            }
            if before.len() == 1 {
                assert(join_seq(pieces, sep) =~= s.drop_last().push(s.last()));
            } else {
                assert(pieces.drop_last() =~= before.drop_last());
                assert(join_seq(pieces, sep) =~= join_seq(before, sep).push(s.last()));
            }
            assert(s.drop_last().push(s.last()) =~= s);
        }
    }
}

/// Splits `s` at every `sep`.
pub fn split_on(s: &str, sep: char) -> (parts: Vec<String>)
    ensures
        views_of(parts@) == split_seq(s@, sep),
{
    let chars = chars_of(s);
    let n = chars.len();
    let mut parts: Vec<String> = Vec::new();
    let mut start: usize = 0;
    let mut i: usize = 0;
    proof {
        assert(s@.take(0).len() == 0);
        assert(split_seq(s@.take(0), sep) =~~= views_of(parts@).push(s@.subrange(0, 0)));
    }
    while i < n
        invariant
            chars@ == s@,
            n == chars.len(),
            start <= i <= n,
            split_seq(s@.take(i as int), sep) == views_of(parts@).push(
                s@.subrange(start as int, i as int),
            ),
        decreases n - i,
    {
        proof {
            let t = s@.take(i + 1);
            assert(t.drop_last() == s@.take(i as int));
            assert(t.last() == chars@[i as int]);
        }
        if chars[i] == sep {
            let piece = s.substring_char(start, i).to_owned();
            let ghost old_parts = parts@;
            parts.push(piece);
            start = i + 1;
            proof {
                assert(views_of(parts@) == views_of(old_parts).push(piece@));
                assert(s@.subrange(start as int, start as int) == Seq::<char>::empty());
            }
        } else {
            proof {
                let before = views_of(parts@).push(s@.subrange(start as int, i as int));
                assert(before.last().push(s@[i as int]) =~= s@.subrange(start as int, i + 1));
                assert(before.update(before.len() - 1, before.last().push(s@[i as int]))
                    =~= views_of(parts@).push(s@.subrange(start as int, i + 1)));
            }
        }
        i = i + 1;
    }
    let piece = s.substring_char(start, n).to_owned();
    let ghost old_parts = parts@;
    parts.push(piece);
    proof {
        assert(s@.take(n as int) == s@);
        assert(views_of(parts@) == views_of(old_parts).push(piece@));
    }
    parts
}

/// Whether `c` is white space in the sense of `char::is_whitespace`.
pub open spec fn is_space(c: char) -> bool {
    let u = c as u32;
    ||| 0x09 <= u <= 0x0d
    ||| u == 0x20
    ||| u == 0x85
    ||| u == 0xa0
    ||| u == 0x1680
    ||| 0x2000 <= u <= 0x200a
    ||| u == 0x2028
    ||| u == 0x2029
    ||| u == 0x202f
    ||| u == 0x205f
    ||| u == 0x3000
}

/// `s` without its leading white space.
pub open spec fn trim_start_seq(s: Seq<char>) -> Seq<char>
    decreases s.len(),
{
    if s.len() > 0 && is_space(s.first()) {
        trim_start_seq(s.drop_first())
    } else {
        s
    }
}

/// `s` without its trailing white space.
pub open spec fn trim_end_seq(s: Seq<char>) -> Seq<char>
    decreases s.len(),
{
    if s.len() > 0 && is_space(s.last()) {
        trim_end_seq(s.drop_last())
    } else {
        s
    }
}

/// `s` without leading and trailing white space.
pub open spec fn trim_seq(s: Seq<char>) -> Seq<char> {
    trim_end_seq(trim_start_seq(s))
}

/// Decides `is_space`.
pub fn is_whitespace(c: char) -> (b: bool)
    ensures
        b == is_space(c),
{
    let u: u32 = c as u32;
    (0x09 <= u && u <= 0x0d) || u == 0x20 || u == 0x85 || u == 0xa0 || u == 0x1680 || (0x2000 <= u
        && u <= 0x200a) || u == 0x2028 || u == 0x2029 || u == 0x202f || u == 0x205f || u == 0x3000
}

/// Removes leading and trailing white space.
pub fn trim(s: &str) -> (out: String)
    ensures
        out@ == trim_seq(s@),
{
    let chars = chars_of(s);
    let n = chars.len();
    let mut a: usize = 0;
    proof {
        assert(s@.skip(0) == s@);
    }
    while a < n && is_whitespace(chars[a])
        invariant
            chars@ == s@,
            n == chars.len(),
            a <= n,
            trim_start_seq(s@) == trim_start_seq(s@.skip(a as int)),
        decreases n - a,
    {
        proof {
            assert(s@.skip(a as int).drop_first() == s@.skip(a + 1));
        }
        a = a + 1;
    }
    assert(trim_start_seq(s@) == s@.skip(a as int));
    let mut b: usize = n;
    proof {
        assert(s@.subrange(a as int, n as int) == s@.skip(a as int));
    }
    while b > a && is_whitespace(chars[b - 1])
        invariant
            chars@ == s@,
            n == chars.len(),
            a <= b <= n,
            trim_seq(s@) == trim_end_seq(s@.subrange(a as int, b as int)),
        decreases b,
    {
        proof {
            assert(s@.subrange(a as int, b as int).drop_last() == s@.subrange(a as int, b - 1));
        }
        b = b - 1;
    }
    s.substring_char(a, b).to_owned()
}

/// Whether `c` is one of `0` to `9`.
pub open spec fn is_digit(c: char) -> bool {
    0x30 <= c as u32 <= 0x39
}

/// The number that the decimal digits `s` denote.
pub open spec fn digits_value(s: Seq<char>) -> nat
    decreases s.len(),
{
    if s.len() == 0 {
        0
    } else {
        digits_value(s.drop_last()) * 10 + (s.last() as u32 - 0x30) as nat
    }
}

/// Whether every character of `s` is a decimal digit.
pub open spec fn all_digits(s: Seq<char>) -> bool {
    forall|i: int| 0 <= i < s.len() ==> is_digit(#[trigger] s[i])
}

/// `s` without one leading `+`, if it has one.
pub open spec fn unsigned_part(s: Seq<char>) -> Seq<char> {
    if s.len() > 0 && s[0] == '+' {
        s.skip(1)
    } else {
        s
    }
}

/// What `s` denotes as an unsigned decimal number that fits a `usize`: an
/// optional `+`, then one or more digits and nothing else.
pub open spec fn parse_usize_seq(s: Seq<char>) -> Option<usize> {
    let d = unsigned_part(s);
    if d.len() > 0 && all_digits(d) && digits_value(d) <= usize::MAX {
        Some(digits_value(d) as usize)
    } else {
        None
    }
}

/// A number never gets smaller when digits are added at its end.
pub proof fn lemma_digits_value_monotonic(s: Seq<char>, k: int)
    requires
        0 <= k <= s.len(),
    ensures
        digits_value(s.take(k)) <= digits_value(s),
    decreases s.len() - k,
{
    if k == s.len() {
        assert(s.take(k) == s);
    } else {
        lemma_digits_value_monotonic(s.drop_last(), k);
        assert(s.drop_last().take(k) == s.take(k));
    }
}

/// Reads an unsigned decimal number.
pub fn parse_usize(s: &str) -> (r: Option<usize>)
    ensures
        r == parse_usize_seq(s@),
{
    let chars = chars_of(s);
    let n = chars.len();
    let first: usize = if n > 0 && chars[0] == '+' {
        1
    } else {
        0
    };
    if first == n {
        return None;
    }
    let ghost d = unsigned_part(s@);
    assert(d == s@.skip(first as int));
    let mut acc: usize = 0;
    let mut i: usize = first;
    proof {
        assert(d.take(0).len() == 0);
    }
    while i < n
        invariant
            chars@ == s@,
            n == chars.len(),
            first <= i <= n,
            d == s@.skip(first as int),
            d == unsigned_part(s@),
            all_digits(d.take(i - first)),
            acc == digits_value(d.take(i - first)),
        decreases n - i,
    {
        let u: u32 = chars[i] as u32;
        proof {
            let t = d.take(i + 1 - first);
            assert(t.drop_last() == d.take(i - first));
            assert(t.last() == chars@[i as int]);
            assert(d[i - first] == chars@[i as int]);
            assert(digits_value(t) == digits_value(d.take(i - first)) * 10 + (u - 0x30) as nat);
            lemma_digits_value_monotonic(d, i + 1 - first);
        }
        if u < 0x30 || u > 0x39 {
            assert(!is_digit(d[i - first]));
            return None;
        }
        let digit: usize = (u - 0x30) as usize;
        let scaled = match acc.checked_mul(10) {
            Some(v) => v,
            None => {
                return None;
            },
        };
        acc = match scaled.checked_add(digit) {
            Some(v) => v,
            None => {
                return None;
            },
        };
        proof {
            let t = d.take(i + 1 - first);
            assert forall|j: int| 0 <= j < t.len() implies is_digit(#[trigger] t[j]) by {
                if j < i - first {
                    assert(t[j] == d.take(i - first)[j]);
                }
            }
        }
        i = i + 1;
    }
    proof {
        assert(d.take(n - first) == d);
    }
    Some(acc)
}

/// The code of `c` with the letters `A` to `Z` mapped to `a` to `z`.
pub open spec fn ascii_lower_code(c: char) -> u32 {
    if 0x41 <= c as u32 <= 0x5a {
        (c as u32 + 0x20) as u32
    } else {
        c as u32
    }
}

/// Whether `a` and `b` are equal up to the case of ASCII letters.
pub open spec fn eq_ignore_ascii_case_seq(a: Seq<char>, b: Seq<char>) -> bool {
    &&& a.len() == b.len()
    &&& forall|i: int| 0 <= i < a.len() ==> ascii_lower_code(#[trigger] a[i]) == ascii_lower_code(b[i])
}

/// Computes `ascii_lower_code`.
fn lower_code(c: char) -> (u: u32)
    ensures
        u == ascii_lower_code(c),
{
    let u: u32 = c as u32;
    if 0x41 <= u && u <= 0x5a {
        u + 0x20
    } else {
        u
    }
}

/// Compares two strings without regard to the case of ASCII letters.
pub fn eq_ignore_ascii_case(a: &str, b: &str) -> (r: bool)
    ensures
        r == eq_ignore_ascii_case_seq(a@, b@),
{
    let x = chars_of(a);
    let y = chars_of(b);
    if x.len() != y.len() {
        return false;
    }
    let n = x.len();
    let mut i: usize = 0;
    while i < n
        invariant
            x@ == a@,
            y@ == b@,
            n == x.len(),
            n == y.len(),
            i <= n,
            forall|j: int| 0 <= j < i ==> ascii_lower_code(#[trigger] a@[j]) == ascii_lower_code(b@[j]),
        decreases n - i,
    {
        if lower_code(x[i]) != lower_code(y[i]) {
            return false;
        }
        i = i + 1;
    }
    true
}

/// Whether `s` begins with `c`.
pub fn starts_with_char(s: &str, c: char) -> (r: bool)
    ensures
        r == (s@.len() > 0 && s@[0] == c),
{
    s.unicode_len() > 0 && s.get_char(0) == c
}

/// What `str::to_lowercase` makes of a string: its Unicode lower case.
pub uninterp spec fn lowercase_chars(s: Seq<char>) -> Seq<char>;

/// Calls `str::to_lowercase`. The result is the lower-case form of `s` by
/// the Unicode tables of the standard library; nothing else is claimed of it.
#[verifier::external_body]
pub(crate) fn to_lowercase(s: &str) -> (out: String)
    ensures
        out@ == lowercase_chars(s@),
{
    s.to_lowercase()
}

/// What `String::from_utf8_lossy` reads in a run of bytes: the text they
/// encode, with each ill-formed part replaced by U+FFFD.
pub uninterp spec fn lossy_chars(bytes: Seq<u8>) -> Seq<char>;

/// Calls `String::from_utf8_lossy` and takes the result as an owned string.
/// The text is a function of the bytes alone, and well-formed UTF-8 is read
/// as what it encodes.
#[verifier::external_body]
pub(crate) fn from_utf8_lossy(bytes: &[u8]) -> (out: String)
    ensures
        out@ == lossy_chars(bytes@),
        valid_utf8(bytes@) ==> out@ == decode_utf8(bytes@),
{
    String::from_utf8_lossy(bytes).into_owned()
}

/// Calls `std::str::from_utf8` and takes the text as an owned string.
/// Well-formed UTF-8 gives the text that it encodes, anything else nothing.
#[verifier::external_body]
pub(crate) fn from_utf8(bytes: &[u8]) -> (out: Option<String>)
    ensures
        out is Some <==> valid_utf8(bytes@),
        out is Some ==> out->0@ == decode_utf8(bytes@),
{
    match std::str::from_utf8(bytes) {
        Ok(s) => Some(s.to_owned()),
        Err(_) => None,
    }
}

} // verus!

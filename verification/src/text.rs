//! Character and string helpers shared by the rest of the library.
//!
//! Strings are modelled by their `Seq<char>` views. Trimming follows the
//! Unicode `White_Space` property, as `str::trim` does; lower-casing of
//! arbitrary Unicode text is delegated to the standard library.
use vstd::prelude::*;

verus! {

/// The symbol of the standard base64 alphabet (`A-Z`, `a-z`, `0-9`, `+`,
/// `/`) for a six-bit value.
pub open spec fn base64_symbol(v: int) -> char {
    if v < 26 {
        ('A' as int + v) as char
    } else if v < 52 {
        ('a' as int + (v - 26)) as char
    } else if v < 62 {
        ('0' as int + (v - 52)) as char
    } else if v == 62 {
        '+'
    } else {
        '/'
    }
}

/// Standard base64 with `=` padding (RFC 4648): every three bytes become
/// four symbols of six bits each; a last group of one or two bytes becomes
/// two or three symbols, the unused low bits zero, padded with `=` to four.
pub open spec fn base64_padded(bytes: Seq<u8>) -> Seq<char>
    decreases bytes.len(),
{
    if bytes.len() == 0 {
        Seq::empty()
    } else if bytes.len() == 1 {
        let a = bytes[0] as int;
        seq![base64_symbol(a / 4), base64_symbol((a % 4) * 16), '=', '=']
    } else if bytes.len() == 2 {
        let a = bytes[0] as int;
        let b = bytes[1] as int;
        seq![base64_symbol(a / 4), base64_symbol((a % 4) * 16 + b / 16), base64_symbol((b % 16) * 4), '=']
    } else {
        let a = bytes[0] as int;
        let b = bytes[1] as int;
        let c = bytes[2] as int;
        seq![
            base64_symbol(a / 4),
            base64_symbol((a % 4) * 16 + b / 16),
            base64_symbol((b % 16) * 4 + c / 64),
            base64_symbol(c % 64),
        ] + base64_padded(bytes.skip(3))
    }
}

/// The Unicode `White_Space` property, which `char::is_whitespace` and
/// `str::trim` use.
pub open spec fn is_whitespace(c: char) -> bool {
    let u = c as u32;
    ||| 0x09 <= u <= 0x0D
    ||| u == 0x20
    ||| u == 0x85
    ||| u == 0xA0
    ||| u == 0x1680
    ||| 0x2000 <= u <= 0x200A
    ||| u == 0x2028
    ||| u == 0x2029
    ||| u == 0x202F
    ||| u == 0x205F
    ||| u == 0x3000
}

/// `s` without its leading white space.
pub open spec fn trim_start(s: Seq<char>) -> Seq<char>
    decreases s.len(),
{
    if s.len() > 0 && is_whitespace(s[0]) {
        trim_start(s.drop_first())
    } else {
        s
    }
}

/// `s` without its trailing white space.
pub open spec fn trim_end(s: Seq<char>) -> Seq<char>
    decreases s.len(),
{
    if s.len() > 0 && is_whitespace(s.last()) {
        trim_end(s.drop_last())
    } else {
        s
    }
}

/// `s` without leading and trailing white space, as `str::trim` returns it.
pub open spec fn trim(s: Seq<char>) -> Seq<char> {
    trim_end(trim_start(s))
}

/// Whether `s` holds nothing but white space (`s.trim().is_empty()`).
pub open spec fn is_blank(s: Seq<char>) -> bool {
    trim(s).len() == 0
}

pub open spec fn is_ascii_alphanumeric(c: char) -> bool {
    ||| 'a' <= c <= 'z'
    ||| 'A' <= c <= 'Z'
    ||| '0' <= c <= '9'
}

pub open spec fn is_ascii_upper(c: char) -> bool {
    'A' <= c <= 'Z'
}

/// `char::to_ascii_lowercase`.
pub open spec fn ascii_lower(c: char) -> char {
    if is_ascii_upper(c) {
        ((c as u32) + 32) as char
    } else {
        c
    }
}

/// `str::to_ascii_lowercase`, character by character.
pub open spec fn ascii_lowercase(s: Seq<char>) -> Seq<char> {
    s.map_values(|c: char| ascii_lower(c))
}

/// `str::eq_ignore_ascii_case`.
pub open spec fn eq_ignore_ascii_case(a: Seq<char>, b: Seq<char>) -> bool {
    ascii_lowercase(a) == ascii_lowercase(b)
}

pub open spec fn starts_with(s: Seq<char>, prefix: Seq<char>) -> bool {
    prefix.len() <= s.len() && s.subrange(0, prefix.len() as int) == prefix
}

pub open spec fn ends_with(s: Seq<char>, suffix: Seq<char>) -> bool {
    suffix.len() <= s.len() && s.subrange(s.len() - suffix.len(), s.len() as int) == suffix
}

/// Whether `needle` occurs in `s` as a contiguous run (`str::contains`).
pub open spec fn contains(s: Seq<char>, needle: Seq<char>) -> bool {
    exists|i: int| 0 <= i <= s.len() - needle.len() && #[trigger] s.subrange(i, i + needle.len()) == needle
}

/// What `str::to_lowercase` returns: the full Unicode lower-case mapping,
/// which depends on the character tables of the standard library.
pub uninterp spec fn unicode_lowercase(s: Seq<char>) -> Seq<char>;

/// Whether `char::is_alphanumeric` holds: the Unicode `Alphabetic` or
/// `Numeric` property.
pub uninterp spec fn unicode_alphanumeric(c: char) -> bool;

/// Appends a character (`String::push`).
#[verifier::external_body]
pub(crate) fn push_char(s: &mut String, c: char)
    ensures
        final(s)@ == old(s)@.push(c),
{
    s.push(c);
}

/// Lower-cases Unicode text (`str::to_lowercase`); the mapping is named, not
/// restated. On ASCII text it is `to_ascii_lowercase`: the letters `A-Z`
/// become `a-z` and every other character stays.
#[verifier::external_body]
pub(crate) fn to_lowercase(s: &str) -> (lowered: String)
    ensures
        lowered@ == unicode_lowercase(s@),
        (forall|i: int| 0 <= i < s@.len() ==> (#[trigger] s@[i] as u32) < 128) ==> lowered@ == ascii_lowercase(s@),
{
    s.to_lowercase()
}

/// `char::is_alphanumeric`; the Unicode tables are named, not restated.
/// Among ASCII characters exactly the letters and digits are alphanumeric.
#[verifier::external_body]
pub(crate) fn is_alphanumeric(c: char) -> (alphanumeric: bool)
    ensures
        alphanumeric == unicode_alphanumeric(c),
        (c as u32) < 128 ==> (alphanumeric <==> is_ascii_alphanumeric(c)),
{
    c.is_alphanumeric()
}

/// The characters of `s`, in order.
pub fn chars_of(s: &str) -> (chars: Vec<char>)
    ensures
        chars@ == s@,
{
    let mut chars: Vec<char> = Vec::new();
    for c in it: s.chars()
        invariant
            chars@ == it.seq().take(it.index() as int),
            it.seq() == s@,
    {
        chars.push(c);
    }
    chars
}

/// A string holding `chars[from..to]`.
pub fn string_from_range(chars: &Vec<char>, from: usize, to: usize) -> (s: String)
    requires
        from <= to <= chars.len(),
    ensures
        s@ == chars@.subrange(from as int, to as int),
{
    let mut s = String::new();
    let mut i = from;
    while i < to
        invariant
            from <= i <= to <= chars.len(),
            s@ == chars@.subrange(from as int, i as int),
        decreases to - i,
    {
        push_char(&mut s, chars[i]);
        assert(chars@.subrange(from as int, i + 1) == chars@.subrange(from as int, i as int).push(chars@[i as int]));
        i += 1;
    }
    s
}

/// A string holding all of `chars`.
pub fn string_from_chars(chars: &Vec<char>) -> (s: String)
    ensures
        s@ == chars@,
{
    let s = string_from_range(chars, 0, chars.len());
    assert(chars@.subrange(0, chars@.len() as int) == chars@);
    s
}

/// `char::is_whitespace`.
pub fn char_is_whitespace(c: char) -> (ws: bool)
    ensures
        ws == is_whitespace(c),
{
    let u = c as u32;
    (0x09 <= u && u <= 0x0D) || u == 0x20 || u == 0x85 || u == 0xA0 || u == 0x1680
        || (0x2000 <= u && u <= 0x200A) || u == 0x2028 || u == 0x2029 || u == 0x202F
        || u == 0x205F || u == 0x3000
}

pub proof fn lemma_trim_start_skip(s: Seq<char>, i: int)
    requires
        0 <= i <= s.len(),
        forall|j: int| 0 <= j < i ==> is_whitespace(#[trigger] s[j]),
    ensures
        trim_start(s) == trim_start(s.subrange(i, s.len() as int)),
    decreases i,
{
    if i > 0 {
        assert(s.drop_first().subrange(i - 1, s.drop_first().len() as int) == s.subrange(i, s.len() as int));
        lemma_trim_start_skip(s.drop_first(), i - 1);
    } else {
        assert(s.subrange(0, s.len() as int) == s);
    }
}

proof fn lemma_trim_end_skip(s: Seq<char>, k: int)
    requires
        0 <= k <= s.len(),
        forall|j: int| k <= j < s.len() ==> is_whitespace(#[trigger] s[j]),
    ensures
        trim_end(s) == trim_end(s.subrange(0, k)),
    decreases s.len() - k,
{
    if k < s.len() {
        assert(s.drop_last().subrange(0, k) == s.subrange(0, k));
        lemma_trim_end_skip(s.drop_last(), k);
    } else {
        assert(s.subrange(0, k) == s);
    }
}

/// Position range `[start, end)` of `chars` that `trim` keeps.
pub fn trim_bounds(chars: &Vec<char>) -> (bounds: (usize, usize))
    ensures
        bounds.0 <= bounds.1 <= chars.len(),
        chars@.subrange(bounds.0 as int, bounds.1 as int) == trim(chars@),
{
    let n = chars.len();
    let mut start: usize = 0;
    while start < n && char_is_whitespace(chars[start])
        invariant
            start <= n == chars.len(),
            forall|j: int| 0 <= j < start ==> is_whitespace(#[trigger] chars@[j]),
        decreases n - start,
    {
        start += 1;
    }
    proof {
        lemma_trim_start_skip(chars@, start as int);
    }
    let ghost rest = chars@.subrange(start as int, n as int);
    assert(trim_start(rest) == rest);
    let mut end: usize = n;
    while end > start && char_is_whitespace(chars[end - 1])
        invariant
            start <= end <= n == chars.len(),
            rest == chars@.subrange(start as int, n as int),
            forall|j: int| end <= j < n ==> is_whitespace(#[trigger] chars@[j]),
        decreases end,
    {
        end -= 1;
    }
    proof {
        assert forall|j: int| end - start <= j < rest.len() implies is_whitespace(#[trigger] rest[j]) by {
            assert(rest[j] == chars@[j + start]);
        }
        lemma_trim_end_skip(rest, end - start);
        assert(rest.subrange(0, end - start) == chars@.subrange(start as int, end as int));
        let t = chars@.subrange(start as int, end as int);
        if t.len() > 0 {
            assert(t.last() == chars@[end - 1]);
        }
    }
    (start, end)
}

/// `str::trim`, returned as a new string.
pub fn trim_str(s: &str) -> (trimmed: String)
    ensures
        trimmed@ == trim(s@),
{
    let chars = chars_of(s);
    let (start, end) = trim_bounds(&chars);
    string_from_range(&chars, start, end)
}

/// Whether `s.trim().is_empty()`.
pub fn str_is_blank(s: &str) -> (blank: bool)
    ensures
        blank == is_blank(s@),
{
    let chars = chars_of(s);
    let (start, end) = trim_bounds(&chars);
    start == end
}

/// `char::to_ascii_lowercase`.
pub fn char_ascii_lower(c: char) -> (lower: char)
    ensures
        lower == ascii_lower(c),
{
    if 'A' <= c && c <= 'Z' {
        ((c as u8) + 32) as char
    } else {
        c
    }
}

/// `str::eq_ignore_ascii_case`.
pub fn str_eq_ignore_ascii_case(a: &str, b: &str) -> (equal: bool)
    ensures
        equal == eq_ignore_ascii_case(a@, b@),
{
    let x = chars_of(a);
    let y = chars_of(b);
    if x.len() != y.len() {
        proof {
            assert(ascii_lowercase(a@).len() != ascii_lowercase(b@).len());
        }
        return false;
    }
    let mut i: usize = 0;
    while i < x.len()
        invariant
            x@ == a@,
            y@ == b@,
            x.len() == y.len(),
            i <= x.len(),
            forall|j: int| 0 <= j < i ==> ascii_lower(#[trigger] x@[j]) == ascii_lower(y@[j]),
        decreases x.len() - i,
    {
        if char_ascii_lower(x[i]) != char_ascii_lower(y[i]) {
            proof {
                assert(ascii_lowercase(a@)[i as int] != ascii_lowercase(b@)[i as int]);
            }
            return false;
        }
        i += 1;
    }
    proof {
        assert(ascii_lowercase(a@) =~= ascii_lowercase(b@));
    }
    true
}

} // verus!

verus! {

/// Whether two strings hold the same characters.
pub fn str_equal(a: &str, b: &str) -> (equal: bool)
    ensures
        equal == (a@ == b@),
{
    let x = chars_of(a);
    let y = chars_of(b);
    if x.len() != y.len() {
        return false;
    }
    let mut i: usize = 0;
    while i < x.len()
        invariant
            x@ == a@,
            y@ == b@,
            x.len() == y.len(),
            i <= x.len(),
            forall|j: int| 0 <= j < i ==> x@[j] == y@[j],
        decreases x.len() - i,
    {
        if x[i] != y[i] {
            return false;
        }
        i += 1;
    }
    assert(a@ =~= b@);
    true
}

/// Position of the first occurrence of `c` in `s`.
pub open spec fn first_index_of(s: Seq<char>, c: char) -> Option<int>
    decreases s.len(),
{
    if s.len() == 0 {
        None
    } else if s[0] == c {
        Some(0)
    } else {
        match first_index_of(s.drop_first(), c) {
            Some(i) => Some(i + 1),
            None => None,
        }
    }
}

proof fn lemma_first_index_of(s: Seq<char>, c: char, k: int)
    requires
        0 <= k <= s.len(),
        forall|j: int| 0 <= j < k ==> s[j] != c,
        k < s.len() ==> s[k] == c,
    ensures
        first_index_of(s, c) == (if k < s.len() { Some(k) } else { None::<int> }),
    decreases k,
{
    if k > 0 {
        assert forall|j: int| 0 <= j < k - 1 implies s.drop_first()[j] != c by {
            assert(s.drop_first()[j] == s[j + 1]);
        }
        lemma_first_index_of(s.drop_first(), c, k - 1);
    }
}

/// `str::split_once` on a character: the text before and after its first
/// occurrence.
pub open spec fn split_once(s: Seq<char>, c: char) -> Option<(Seq<char>, Seq<char>)> {
    match first_index_of(s, c) {
        Some(i) => Some((s.subrange(0, i), s.subrange(i + 1, s.len() as int))),
        None => None,
    }
}

/// Splits at the first occurrence of `c` (`str::split_once`).
pub fn split_once_str(s: &str, c: char) -> (parts: Option<(String, String)>)
    ensures
        match parts {
            Some((a, b)) => split_once(s@, c) == Some((a@, b@)),
            None => split_once(s@, c) is None,
        },
{
    let chars = chars_of(s);
    let mut k: usize = 0;
    while k < chars.len() && chars[k] != c
        invariant
            chars@ == s@,
            k <= chars.len(),
            forall|j: int| 0 <= j < k ==> chars@[j] != c,
        decreases chars.len() - k,
    {
        k += 1;
    }
    proof {
        lemma_first_index_of(s@, c, k as int);
    }
    if k == chars.len() {
        None
    } else {
        Some((string_from_range(&chars, 0, k), string_from_range(&chars, k + 1, chars.len())))
    }
}

} // verus!

verus! {

/// `chars` with ASCII letters lower-cased.
pub fn ascii_lowercase_chars(chars: &Vec<char>) -> (lower: Vec<char>)
    ensures
        lower@ == ascii_lowercase(chars@),
{
    let mut lower: Vec<char> = Vec::new();
    let mut i: usize = 0;
    while i < chars.len()
        invariant
            i <= chars.len(),
            lower@ == ascii_lowercase(chars@.take(i as int)),
        decreases chars.len() - i,
    {
        lower.push(char_ascii_lower(chars[i]));
        assert(ascii_lowercase(chars@.take(i + 1)) =~= ascii_lowercase(chars@.take(i as int)).push(
            ascii_lower(chars@[i as int]),
        ));
        i += 1;
    }
    assert(chars@.take(chars.len() as int) =~= chars@);
    lower
}

/// Whether `needle` occurs in `s` (`str::contains`).
pub fn contains_chars(s: &Vec<char>, needle: &Vec<char>) -> (found: bool)
    ensures
        found == contains(s@, needle@),
{
    if needle.len() > s.len() {
        return false;
    }
    let last = s.len() - needle.len();
    let mut i: usize = 0;
    while i <= last
        invariant
            last == s.len() - needle.len(),
            i <= last + 1,
            forall|p: int| 0 <= p < i ==> #[trigger] s@.subrange(p, p + needle@.len()) != needle@,
        decreases last + 1 - i,
    {
        let mut j: usize = 0;
        while j < needle.len() && s[i + j] == needle[j]
            invariant
                i <= last,
                last == s.len() - needle.len(),
                j <= needle.len(),
                forall|q: int| 0 <= q < j ==> s@[i + q] == needle@[q],
            decreases needle.len() - j,
        {
            j += 1;
        }
        if j == needle.len() {
            assert(s@.subrange(i as int, i + needle@.len()) =~= needle@);
            return true;
        }
        assert(s@.subrange(i as int, i + needle@.len())[j as int] != needle@[j as int]);
        i += 1;
    }
    false
}

} // verus!

verus! {

/// `s` with every occurrence of `needle` (taken left to right, not
/// overlapping) replaced by `replacement`, as `str::replace` does for a
/// non-empty needle.
pub open spec fn replace_all(s: Seq<char>, needle: Seq<char>, replacement: Seq<char>) -> Seq<char>
    decreases s.len(),
{
    if needle.len() == 0 || s.len() < needle.len() {
        s
    } else if s.subrange(0, needle.len() as int) == needle {
        replacement + replace_all(s.subrange(needle.len() as int, s.len() as int), needle, replacement)
    } else {
        seq![s[0]] + replace_all(s.drop_first(), needle, replacement)
    }
}

/// Replaces every occurrence of a non-empty `needle` (`str::replace`).
pub fn replace_str(s: &str, needle: &str, replacement: &str) -> (replaced: String)
    requires
        needle@.len() > 0,
    ensures
        replaced@ == replace_all(s@, needle@, replacement@),
{
    let chars = chars_of(s);
    let pattern = chars_of(needle);
    let n = chars.len();
    let m = pattern.len();
    let mut out = String::new();
    let mut i: usize = 0;
    assert(chars@.subrange(0, n as int) =~= s@);
    while i < n
        invariant
            chars@ == s@,
            pattern@ == needle@,
            n == chars.len(),
            m == pattern.len(),
            m > 0,
            i <= n,
            out@ + replace_all(chars@.subrange(i as int, n as int), pattern@, replacement@) == replace_all(
                s@,
                needle@,
                replacement@,
            ),
        decreases n - i,
    {
        let ghost rest = chars@.subrange(i as int, n as int);
        let mut matched = m <= n - i;
        if matched {
            let mut j: usize = 0;
            while j < m && chars[i + j] == pattern[j]
                invariant
                    i + m <= n == chars.len(),
                    m == pattern.len(),
                    j <= m,
                    forall|q: int| 0 <= q < j ==> chars@[i + q] == pattern@[q],
                decreases m - j,
            {
                j += 1;
            }
            matched = j == m;
            proof {
                if matched {
                    assert(rest.subrange(0, m as int) =~= pattern@);
                } else {
                    assert(rest.subrange(0, m as int)[j as int] != pattern@[j as int]);
                }
            }
        }
        if matched {
            let ghost before = out@;
            out.append(replacement);
            proof {
                assert(rest.subrange(m as int, rest.len() as int) =~= chars@.subrange(i + m, n as int));
                assert(out@ =~= before + replacement@);
                assert(before + (replacement@ + replace_all(chars@.subrange(i + m, n as int), pattern@, replacement@))
                    =~= out@ + replace_all(chars@.subrange(i + m, n as int), pattern@, replacement@));
            }
            i = i + m;
        } else {
            let ghost before = out@;
            push_char(&mut out, chars[i]);
            proof {
                assert(rest.drop_first() =~= chars@.subrange(i + 1, n as int));
                assert(rest[0] == chars@[i as int]);
                assert(before + (seq![chars@[i as int]] + replace_all(chars@.subrange(i + 1, n as int), pattern@, replacement@))
                    =~= out@ + replace_all(chars@.subrange(i + 1, n as int), pattern@, replacement@));
            }
            i = i + 1;
        }
    }
    proof {
        assert(chars@.subrange(n as int, n as int).len() == 0);
        assert(out@ + Seq::<char>::empty() =~= out@);
    }
    out
}

} // verus!

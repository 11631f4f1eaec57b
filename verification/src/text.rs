//! Verified text helpers: decimal rendering, list joining, padding and
//! substring search over `String` / `&str` values.  Every statement builder
//! in the engine is written on top of these.

use vstd::prelude::*;

verus! {

/// Relies on std's `String::push`: appends the given character to the end of
/// the string.
#[verifier::external_body]
pub fn push_char(s: &mut String, c: char)
    ensures
        final(s)@ == old(s)@.push(c),
{
    s.push(c);
}

/// The decimal digit characters, by value.
pub open spec fn digit_char(d: nat) -> char {
    if d == 0 {
        '0'
    } else if d == 1 {
        '1'
    } else if d == 2 {
        '2'
    } else if d == 3 {
        '3'
    } else if d == 4 {
        '4'
    } else if d == 5 {
        '5'
    } else if d == 6 {
        '6'
    } else if d == 7 {
        '7'
    } else if d == 8 {
        '8'
    } else {
        '9'
    }
}

/// The decimal rendering of `n`, most significant digit first, no leading
/// zeros (except for `n == 0`, rendered as "0").
pub open spec fn dec_digits(n: nat) -> Seq<char>
    decreases n,
{
    if n < 10 {
        seq![digit_char(n)]
    } else {
        dec_digits(n / 10).push(digit_char(n % 10))
    }
}

fn digit_to_char(d: u64) -> (c: char)
    requires
        d < 10,
    ensures
        c == digit_char(d as nat),
{
    if d == 0 {
        '0'
    } else if d == 1 {
        '1'
    } else if d == 2 {
        '2'
    } else if d == 3 {
        '3'
    } else if d == 4 {
        '4'
    } else if d == 5 {
        '5'
    } else if d == 6 {
        '6'
    } else if d == 7 {
        '7'
    } else if d == 8 {
        '8'
    } else {
        '9'
    }
}

/// Renders an unsigned number in decimal.
pub fn u64_to_string(n: u64) -> (r: String)
    ensures
        r@ == dec_digits(n as nat),
    decreases n,
{
    if n < 10 {
        let mut r = String::new();
        push_char(&mut r, digit_to_char(n));
        assert(r@ =~= dec_digits(n as nat));
        r
    } else {
        let mut r = u64_to_string(n / 10);
        push_char(&mut r, digit_to_char(n % 10));
        r
    }
}

/// Renders an unsigned 32-bit number in decimal.
pub fn u32_to_string(n: u32) -> (r: String)
    ensures
        r@ == dec_digits(n as nat),
{
    u64_to_string(n as u64)
}

/// The decimal rendering of a signed number: a minus sign before the digits
/// of the magnitude when negative.
pub open spec fn dec_digits_signed(n: int) -> Seq<char> {
    if n < 0 {
        seq!['-'] + dec_digits((-n) as nat)
    } else {
        dec_digits(n as nat)
    }
}

/// Renders a signed number in decimal.
pub fn i64_to_string(n: i64) -> (r: String)
    ensures
        r@ == dec_digits_signed(n as int),
{
    if n >= 0 {
        u64_to_string(n as u64)
    } else {
        let mag: u64 = (-(n as i128)) as u64;
        let mut r = String::new();
        push_char(&mut r, '-');
        let digits = u64_to_string(mag);
        r.append(digits.as_str());
        assert(r@ =~= seq!['-'] + dec_digits(mag as nat));
        r
    }
}

/// `parts` joined with `sep` between consecutive elements.
pub open spec fn spec_join(parts: Seq<Seq<char>>, sep: Seq<char>) -> Seq<char>
    decreases parts.len(),
{
    if parts.len() == 0 {
        Seq::empty()
    } else if parts.len() == 1 {
        parts[0]
    } else {
        spec_join(parts.drop_last(), sep) + sep + parts.last()
    }
}

/// Joins the strings with the separator, as the catalog statement builders
/// need for column and value lists.
pub fn join(parts: &Vec<String>, sep: &str) -> (r: String)
    ensures
        r@ == spec_join(parts@.map_values(|s: String| s@), sep@),
{
    let ghost views = parts@.map_values(|s: String| s@);
    let mut r = String::new();
    let mut i: usize = 0;
    while i < parts.len()
        invariant
            i <= parts@.len(),
            views == parts@.map_values(|s: String| s@),
            r@ == spec_join(views.take(i as int), sep@),
        decreases parts@.len() - i,
    {
        if i > 0 {
            r.append(sep);
        }
        r.append(parts[i].as_str());
        proof {
            assert(views.take(i + 1 as int).drop_last() =~= views.take(i as int));
            assert(views.take(i + 1 as int).last() == views[i as int]);
            if i == 0 {
                assert(r@ =~= spec_join(views.take(i + 1 as int), sep@));
            }
        }
        i = i + 1;
    }
    proof {
        assert(views.take(parts@.len() as int) =~= views);
    }
    r
}

/// `s` wrapped in single quotes, as schema name lists are quoted in catalog
/// queries.
pub fn quoted(s: &str) -> (r: String)
    ensures
        r@ == seq!['\''] + s@ + seq!['\''],
{
    let mut r = String::new();
    push_char(&mut r, '\'');
    r.append(s);
    push_char(&mut r, '\'');
    assert(r@ =~= seq!['\''] + s@ + seq!['\'']);
    r
}

/// A run of `n` spaces.
pub open spec fn spaces(n: nat) -> Seq<char> {
    Seq::new(n, |i: int| ' ')
}

/// Pads the text with spaces on the right up to width `len`; text already
/// that wide is returned unchanged.
pub fn rpad(text: &str, len: usize) -> (r: String)
    ensures
        text@.len() >= len ==> r@ == text@,
        text@.len() < len ==> r@ == text@ + spaces((len - text@.len()) as nat),
{
    let n = text.unicode_len();
    let mut r = String::from_str(text);
    if n >= len {
        return r;
    }
    let mut i: usize = n;
    while i < len
        invariant
            n <= i <= len,
            n == text@.len(),
            r@ == text@ + spaces((i - n) as nat),
        decreases len - i,
    {
        push_char(&mut r, ' ');
        assert(r@ =~= text@ + spaces((i + 1 - n) as nat));
        i = i + 1;
    }
    r
}

/// Pads the text with spaces on the left up to width `len`; text already
/// that wide is returned unchanged.
pub fn lpad(text: &str, len: usize) -> (r: String)
    ensures
        text@.len() >= len ==> r@ == text@,
        text@.len() < len ==> r@ == spaces((len - text@.len()) as nat) + text@,
{
    let n = text.unicode_len();
    if n >= len {
        return String::from_str(text);
    }
    let mut r = String::new();
    let mut i: usize = 0;
    while i < len - n
        invariant
            n < len,
            i <= len - n,
            n == text@.len(),
            r@ == spaces(i as nat),
        decreases len - n - i,
    {
        push_char(&mut r, ' ');
        assert(r@ =~= spaces((i + 1) as nat));
        i = i + 1;
    }
    r.append(text);
    r
}

/// Whether two pieces of text hold the same characters.
pub fn str_eq(a: &str, b: &str) -> (r: bool)
    ensures
        r == (a@ == b@),
{
    let n = a.unicode_len();
    let m = b.unicode_len();
    if n != m {
        return false;
    }
    let mut i: usize = 0;
    while i < n
        invariant
            n == a@.len(),
            n == b@.len(),
            i <= n,
            forall|j: int| 0 <= j < i ==> a@[j] == b@[j],
        decreases n - i,
    {
        if a.get_char(i) != b.get_char(i) {
            return false;
        }
        i = i + 1;
    }
    proof {
        assert(a@ =~= b@);
    }
    true
}

/// The pattern occurs in `s` at position `j`.
pub open spec fn matches_at(s: Seq<char>, pat: Seq<char>, j: int) -> bool {
    &&& 0 <= j
    &&& j + pat.len() <= s.len()
    &&& forall|k: int| 0 <= k < pat.len() ==> s[j + k] == pat[k]
}

/// Finds the first occurrence of `pat` in `s`, the position of its first
/// character, if it occurs at all.
pub fn find_sub(s: &str, pat: &str) -> (r: Option<usize>)
    ensures
        match r {
            Some(j) => matches_at(s@, pat@, j as int) && forall|j2: int|
                0 <= j2 < j ==> !matches_at(s@, pat@, j2),
            None => forall|j2: int| !matches_at(s@, pat@, j2),
        },
{
    let n = s.unicode_len();
    let m = pat.unicode_len();
    if m > n {
        return None;
    }
    let mut j: usize = 0;
    while j <= n - m
        invariant
            m <= n,
            n == s@.len(),
            m == pat@.len(),
            j <= n - m + 1,
            forall|j2: int| 0 <= j2 < j ==> !matches_at(s@, pat@, j2),
        decreases n - m + 1 - j,
    {
        let mut k: usize = 0;
        let mut all_match = true;
        while k < m
            invariant
                j + m <= n,
                n == s@.len(),
                m == pat@.len(),
                k <= m,
                all_match ==> forall|k2: int| 0 <= k2 < k ==> s@[j + k2] == pat@[k2],
                !all_match ==> !matches_at(s@, pat@, j as int) && k == m,
            decreases m - k,
        {
            if s.get_char(j + k) != pat.get_char(k) {
                all_match = false;
                assert(s@[j + k as int] != pat@[k as int]);
                assert(!matches_at(s@, pat@, j as int));
                k = m;
            } else {
                k = k + 1;
            }
        }
        if all_match {
            assert(matches_at(s@, pat@, j as int));
            return Some(j);
        }
        assert(!matches_at(s@, pat@, j as int));
        j = j + 1;
    }
    assert forall|j2: int| !matches_at(s@, pat@, j2) by {
        if 0 <= j2 <= n - m {
            assert(!matches_at(s@, pat@, j2));
        }
    }
    None
}

/// The pattern occurs somewhere in `s`.
pub open spec fn contains_sub(s: Seq<char>, pat: Seq<char>) -> bool {
    exists|j: int| matches_at(s, pat, j)
}

/// The first position at or after `j` where the pattern occurs.
pub open spec fn spec_find_from(s: Seq<char>, pat: Seq<char>, j: int) -> Option<int>
    decreases s.len() - j,
{
    if j < 0 || j + pat.len() > s.len() {
        None
    } else if matches_at(s, pat, j) {
        Some(j)
    } else {
        spec_find_from(s, pat, j + 1)
    }
}

/// A first match characterises `spec_find_from`: a position that matches,
/// before which nothing at or after `lo` matches, is what it finds.
pub proof fn lemma_find_some(s: Seq<char>, pat: Seq<char>, lo: int, j: int)
    requires
        0 <= lo <= j,
        matches_at(s, pat, j),
        forall|j2: int| lo <= j2 < j ==> !matches_at(s, pat, j2),
    ensures
        spec_find_from(s, pat, lo) == Some(j),
    decreases j - lo,
{
    if lo < j {
        lemma_find_some(s, pat, lo + 1, j);
    }
}

/// No match anywhere at or after `lo` means `spec_find_from` finds
/// nothing.
pub proof fn lemma_find_none(s: Seq<char>, pat: Seq<char>, lo: int)
    requires
        0 <= lo,
        forall|j2: int| lo <= j2 ==> !matches_at(s, pat, j2),
    ensures
        spec_find_from(s, pat, lo) is None,
    decreases s.len() - lo,
{
    if lo + pat.len() <= s.len() {
        lemma_find_none(s, pat, lo + 1);
    }
}

/// `s` with the first occurrence of `from` replaced by `to`; text without
/// an occurrence stands unchanged.
pub open spec fn spec_replace_first(s: Seq<char>, from: Seq<char>, to: Seq<char>) -> Seq<char> {
    match spec_find_from(s, from, 0) {
        Some(j) => s.take(j) + to + s.skip(j + from.len()),
        None => s,
    }
}

/// A copy of the characters of `s` from `from` up to `to`.
pub fn substring(s: &str, from: usize, to: usize) -> (r: String)
    requires
        from <= to <= s@.len(),
    ensures
        r@ == s@.subrange(from as int, to as int),
{
    let mut r = String::new();
    let mut i: usize = from;
    while i < to
        invariant
            from <= i <= to <= s@.len(),
            r@ == s@.subrange(from as int, i as int),
        decreases to - i,
    {
        push_char(&mut r, s.get_char(i));
        assert(r@ =~= s@.subrange(from as int, i + 1 as int));
        i = i + 1;
    }
    r
}

/// Replaces the first occurrence of `from` in `s` with `to`.
pub fn replace_first(s: &str, from: &str, to: &str) -> (r: String)
    ensures
        r@ == spec_replace_first(s@, from@, to@),
{
    let n = s.unicode_len();
    let m = from.unicode_len();
    match find_sub(s, from) {
        Some(j) => {
            proof {
                lemma_find_some(s@, from@, 0, j as int);
            }
            let mut r = substring(s, 0, j);
            r.append(to);
            let tail = substring(s, j + m, n);
            r.append(tail.as_str());
            proof {
                assert(s@.subrange(0, j as int) =~= s@.take(j as int));
                assert(s@.subrange(j + m as int, n as int) =~= s@.skip(j + from@.len()));
            }
            r
        },
        None => {
            proof {
                lemma_find_none(s@, from@, 0);
            }
            String::from_str(s)
        },
    }
}

/// A whitespace character, as leading text is trimmed from source lines.
pub open spec fn is_space(c: char) -> bool {
    c == ' ' || c == '\t' || c == '\n' || c == '\r'
}

/// How many whitespace characters the text begins with.
pub open spec fn leading_ws(s: Seq<char>) -> int
    decreases s.len(),
{
    if s.len() == 0 || !is_space(s[0]) {
        0
    } else {
        1 + leading_ws(s.drop_first())
    }
}

/// A stretch of leading whitespace followed by a non-space (or the text's
/// end) pins `leading_ws` down.
proof fn lemma_leading_ws(s: Seq<char>, i: int)
    requires
        0 <= i <= s.len(),
        forall|j: int| 0 <= j < i ==> is_space(s[j]),
        i < s.len() ==> !is_space(s[i]),
    ensures
        leading_ws(s) == i,
    decreases i,
{
    if s.len() == 0 || !is_space(s[0]) {
    } else {
        assert forall|j: int| 0 <= j < i - 1 implies is_space(s.drop_first()[j]) by {
            assert(s.drop_first()[j] == s[j + 1]);
        }
        assert(i - 1 < s.drop_first().len() ==> !is_space(s.drop_first()[i - 1]));
        lemma_leading_ws(s.drop_first(), i - 1);
    }
}

/// The text with its leading whitespace removed.
pub fn trim_start(s: &str) -> (r: String)
    ensures
        r@ == s@.skip(leading_ws(s@)),
{
    let n = s.unicode_len();
    let mut i: usize = 0;
    while i < n
        invariant
            i <= n,
            n == s@.len(),
            forall|j: int| 0 <= j < i ==> is_space(s@[j]),
        decreases n - i,
    {
        let c = s.get_char(i);
        if !(c == ' ' || c == '\t' || c == '\n' || c == '\r') {
            proof {
                lemma_leading_ws(s@, i as int);
            }
            let r = substring(s, i, n);
            assert(s@.subrange(i as int, n as int) =~= s@.skip(i as int));
            return r;
        }
        i = i + 1;
    }
    proof {
        lemma_leading_ws(s@, n as int);
        assert(s@.skip(n as int) =~= Seq::<char>::empty());
    }
    String::new()
}

/// Whether `pat` occurs anywhere in `s`.
pub fn has_sub(s: &str, pat: &str) -> (r: bool)
    ensures
        r == contains_sub(s@, pat@),
{
    match find_sub(s, pat) {
        Some(j) => {
            assert(matches_at(s@, pat@, j as int));
            true
        },
        None => false,
    }
}

/// A character folded to upper case, for the unaccented letters only:
/// accented letters pass through unchanged.  This is a deliberate
/// narrowing — catalog identifiers and keywords are unaccented, and an
/// accented letter in source text stays as it was stored instead of
/// being case-folded.
pub open spec fn upper_char(c: char) -> char {
    if 'a' <= c <= 'z' {
        ((c as u8) - 32) as char
    } else {
        c
    }
}

/// `s` with every unaccented lower-case letter folded to upper case.
pub open spec fn upper_seq(s: Seq<char>) -> Seq<char> {
    s.map_values(|c: char| upper_char(c))
}

/// Folds the string to upper case, unaccented letters only (see
/// `upper_char`), as object source text is normalised before the
/// creation statement is assembled.
pub fn to_upper(s: &str) -> (r: String)
    ensures
        r@ == upper_seq(s@),
{
    let n = s.unicode_len();
    let mut r = String::new();
    let mut i: usize = 0;
    while i < n
        invariant
            i <= n,
            n == s@.len(),
            r@ == upper_seq(s@.take(i as int)),
        decreases n - i,
    {
        let c = s.get_char(i);
        let u: char = if 'a' <= c && c <= 'z' {
            ((c as u8) - 32) as char
        } else {
            c
        };
        assert(u == upper_char(s@[i as int]));
        push_char(&mut r, u);
        assert(r@ =~= upper_seq(s@.take(i + 1 as int)));
        i = i + 1;
    }
    proof {
        assert(s@.take(n as int) =~= s@);
    }
    r
}

} // verus!

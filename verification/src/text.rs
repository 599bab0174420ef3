//! Plain text: comparing, trimming, letter case and decimal numbers.

use vstd::prelude::*;

verus! {

/// `String::push`: appends one character to the end of the string.
pub assume_specification[ String::push ](s: &mut String, c: char)
    ensures
        final(s)@ == old(s)@.push(c),
;

// ----------------------------------------------------------------------------------------
// Characters and pieces
// ----------------------------------------------------------------------------------------

/// The text of an optional string.
pub open spec fn opt_view(s: Option<String>) -> Option<Seq<char>> {
    match s {
        Some(t) => Some(t@),
        None => None,
    }
}

/// What a borrowed text that may be missing says.
pub open spec fn opt_str_view(s: Option<&str>) -> Option<Seq<char>> {
    match s {
        Some(t) => Some(t@),
        None => None,
    }
}

/// A copy of a text that may be missing.
pub fn copy_opt(s: &Option<String>) -> (r: Option<String>)
    ensures
        opt_view(r) == opt_view(*s),
{
    match s {
        Some(t) => Some(t.clone()),
        None => None,
    }
}

/// An owned copy of a borrowed text that may be missing.
pub fn own_opt(s: Option<&str>) -> (r: Option<String>)
    ensures
        opt_view(r) == opt_str_view(s),
{
    match s {
        Some(t) => Some(t.to_owned()),
        None => None,
    }
}

/// A text that may be missing, borrowed.
pub fn borrow_opt(s: &Option<String>) -> (r: Option<&str>)
    ensures
        opt_str_view(r) == opt_view(*s),
{
    match s {
        Some(t) => Some(t.as_str()),
        None => None,
    }
}

/// Whether two texts that may be missing say the same.
pub fn same_opt(a: &Option<String>, b: Option<&str>) -> (r: bool)
    ensures
        r == (opt_view(*a) == opt_str_view(b)),
{
    match (a, b) {
        (Some(s), Some(t)) => same(s.as_str(), t),
        (None, None) => true,
        _ => false,
    }
}

/// Whether two texts hold the same characters.
pub fn same(a: &str, b: &str) -> (r: bool)
    ensures
        r == (a@ == b@),
{
    a.to_owned() == b.to_owned()
}

/// The characters of a text.
pub fn chars_of(s: &str) -> (v: Vec<char>)
    ensures
        v@ == s@,
{
    let mut v: Vec<char> = Vec::new();
    for c in it: s.chars()
        invariant
            v@ == it.seq().take(it.index()),
            it.seq() == s@,
    {
        v.push(c);
    }
    assert(s@.take(s@.len() as int) == s@);
    v
}

/// The text made of `v[from..to]`.
pub fn text_between(v: &Vec<char>, from: usize, to: usize) -> (s: String)
    requires
        from <= to <= v@.len(),
    ensures
        s@ == v@.subrange(from as int, to as int),
{
    let mut s = String::new();
    let mut i: usize = from;
    while i < to
        invariant
            from <= i <= to <= v@.len(),
            s@ == v@.subrange(from as int, i as int),
        decreases to - i,
    {
        s.push(v[i]);
        i += 1;
    }
    s
}

/// `a` followed by `b`.
pub fn join(a: &str, b: &str) -> (s: String)
    ensures
        s@ == a@ + b@,
{
    let mut s = a.to_owned();
    s.append(b);
    s
}

/// `a`, then `b`, then `c`.
pub fn join3(a: &str, b: &str, c: &str) -> (s: String)
    ensures
        s@ == a@ + b@ + c@,
{
    let mut s = a.to_owned();
    s.append(b);
    s.append(c);
    s
}

// ----------------------------------------------------------------------------------------
// White space
// ----------------------------------------------------------------------------------------

/// The characters with the Unicode property `White_Space`.
pub open spec fn whitespace(c: char) -> bool {
    ||| '\u{9}' <= c <= '\u{d}'
    ||| c == '\u{20}'
    ||| c == '\u{85}'
    ||| c == '\u{a0}'
    ||| c == '\u{1680}'
    ||| '\u{2000}' <= c <= '\u{200a}'
    ||| c == '\u{2028}'
    ||| c == '\u{2029}'
    ||| c == '\u{202f}'
    ||| c == '\u{205f}'
    ||| c == '\u{3000}'
}

/// Whether a character is white space.
pub fn is_whitespace(c: char) -> (r: bool)
    ensures
        r == whitespace(c),
{
    ('\u{9}' <= c && c <= '\u{d}') || c == '\u{20}' || c == '\u{85}' || c == '\u{a0}' || c
        == '\u{1680}' || ('\u{2000}' <= c && c <= '\u{200a}') || c == '\u{2028}' || c == '\u{2029}'
        || c == '\u{202f}' || c == '\u{205f}' || c == '\u{3000}'
}

/// `s` without the white space it begins with.
pub open spec fn trimmed_start(s: Seq<char>) -> Seq<char>
    decreases s.len(),
{
    if s.len() > 0 && whitespace(s.first()) {
        trimmed_start(s.drop_first())
    } else {
        s
    }
}

/// `s` without the white space it ends with.
pub open spec fn trimmed_end(s: Seq<char>) -> Seq<char>
    decreases s.len(),
{
    if s.len() > 0 && whitespace(s.last()) {
        trimmed_end(s.drop_last())
    } else {
        s
    }
}

/// `s` without the white space around it.
pub open spec fn trimmed(s: Seq<char>) -> Seq<char> {
    trimmed_end(trimmed_start(s))
}

/// Whether nothing but white space is in `s`.
pub open spec fn blank(s: Seq<char>) -> bool {
    trimmed(s).len() == 0
}

/// Removes the white space around a text.
pub fn trim(s: &str) -> (r: String)
    ensures
        r@ == trimmed(s@),
{
    let v = chars_of(s);
    let mut from: usize = 0;
    assert(v@.skip(0) == v@);
    while from < v.len() && is_whitespace(v[from])
        invariant
            from <= v@.len(),
            trimmed_start(v@) == trimmed_start(v@.skip(from as int)),
        decreases v@.len() - from,
    {
        assert(v@.skip(from as int).drop_first() == v@.skip(from + 1));
        from += 1;
    }
    let ghost rest = v@.skip(from as int);
    assert(trimmed_start(v@) == rest);
    let mut to: usize = v.len();
    assert(v@.subrange(from as int, to as int) == rest);
    while from < to && is_whitespace(v[to - 1])
        invariant
            from <= to <= v@.len(),
            trimmed_end(rest) == trimmed_end(v@.subrange(from as int, to as int)),
        decreases to,
    {
        assert(v@.subrange(from as int, to as int).drop_last() == v@.subrange(
            from as int,
            to - 1,
        ));
        to -= 1;
    }
    text_between(&v, from, to)
}

/// Whether nothing but white space is in a text.
pub fn is_blank(s: &str) -> (r: bool)
    ensures
        r == blank(s@),
{
    trim(s).as_str().is_empty()
}

/// Changing characters one by one, white space to white space and the rest to the rest,
/// commutes with trimming.
pub proof fn lemma_trimmed_map(s: Seq<char>, f: spec_fn(char) -> char)
    requires
        forall|c: char| whitespace(#[trigger] f(c)) == whitespace(c),
    ensures
        trimmed(s.map_values(f)) == trimmed(s).map_values(f),
{
    lemma_trimmed_start_map(s, f);
    lemma_trimmed_end_map(trimmed_start(s), f);
}

proof fn lemma_trimmed_start_map(s: Seq<char>, f: spec_fn(char) -> char)
    requires
        forall|c: char| whitespace(#[trigger] f(c)) == whitespace(c),
    ensures
        trimmed_start(s.map_values(f)) == trimmed_start(s).map_values(f),
    decreases s.len(),
{
    if s.len() > 0 {
        assert(s.map_values(f).first() == f(s.first()));
        assert(s.map_values(f).drop_first() =~= s.drop_first().map_values(f));
        lemma_trimmed_start_map(s.drop_first(), f);
    } else {
        assert(s.map_values(f) =~= s);
    }
}

proof fn lemma_trimmed_end_map(s: Seq<char>, f: spec_fn(char) -> char)
    requires
        forall|c: char| whitespace(#[trigger] f(c)) == whitespace(c),
    ensures
        trimmed_end(s.map_values(f)) == trimmed_end(s).map_values(f),
    decreases s.len(),
{
    if s.len() > 0 {
        assert(s.map_values(f).last() == f(s.last()));
        assert(s.map_values(f).drop_last() =~= s.drop_last().map_values(f));
        lemma_trimmed_end_map(s.drop_last(), f);
    } else {
        assert(s.map_values(f) =~= s);
    }
}

/// Trimming a trimmed text changes nothing.
pub proof fn lemma_trimmed_twice(s: Seq<char>)
    ensures
        trimmed(trimmed(s)) == trimmed(s),
{
    lemma_trimmed_start_first(s);
    let t = trimmed_start(s);
    lemma_trimmed_end_ends(t);
    assert(trimmed_start(trimmed(s)) == trimmed(s));
}

proof fn lemma_trimmed_start_first(s: Seq<char>)
    ensures
        trimmed_start(s).len() > 0 ==> !whitespace(trimmed_start(s).first()),
    decreases s.len(),
{
    if s.len() > 0 && whitespace(s.first()) {
        lemma_trimmed_start_first(s.drop_first());
    }
}

proof fn lemma_trimmed_end_ends(s: Seq<char>)
    ensures
        trimmed_end(s).len() > 0 ==> {
            &&& trimmed_end(s).first() == s.first()
            &&& !whitespace(trimmed_end(s).last())
        },
    decreases s.len(),
{
    if s.len() > 0 && whitespace(s.last()) {
        lemma_trimmed_end_ends(s.drop_last());
    }
}

// ----------------------------------------------------------------------------------------
// Letter case
// ----------------------------------------------------------------------------------------

/// The lower-case form of an ASCII letter; any other character is left alone.
pub open spec fn ascii_lower(c: char) -> char {
    if 'A' <= c <= 'Z' {
        (c as u32 + 32) as char
    } else {
        c
    }
}

/// The upper-case form of an ASCII letter; any other character is left alone.
pub open spec fn ascii_upper(c: char) -> char {
    if 'a' <= c <= 'z' {
        (c as u32 - 32) as char
    } else {
        c
    }
}

/// `s` with its ASCII letters in lower case.
pub open spec fn lowered(s: Seq<char>) -> Seq<char> {
    s.map_values(|c: char| ascii_lower(c))
}

/// `s` with its ASCII letters in upper case.
pub open spec fn uppered(s: Seq<char>) -> Seq<char> {
    s.map_values(|c: char| ascii_upper(c))
}

/// `s` with every `from` replaced by `to`.
pub open spec fn replaced(s: Seq<char>, from: char, to: char) -> Seq<char> {
    s.map_values(|c: char| if c == from { to } else { c })
}

/// Puts the ASCII letters of a text in lower case.
pub fn to_ascii_lowercase(s: &str) -> (r: String)
    ensures
        r@ == lowered(s@),
{
    let mut r = String::new();
    for c in it: s.chars()
        invariant
            r@ == lowered(it.seq().take(it.index())),
            it.seq() == s@,
    {
        if 'A' <= c && c <= 'Z' {
            let low: u8 = (c as u8) + 32;
            r.push(low as char);
        } else {
            r.push(c);
        }
        assert(it.seq().take(it.index() + 1) == it.seq().take(it.index()).push(c));
    }
    assert(s@.take(s@.len() as int) == s@);
    r
}

/// Puts the ASCII letters of a text in upper case.
pub fn to_ascii_uppercase(s: &str) -> (r: String)
    ensures
        r@ == uppered(s@),
{
    let mut r = String::new();
    for c in it: s.chars()
        invariant
            r@ == uppered(it.seq().take(it.index())),
            it.seq() == s@,
    {
        if 'a' <= c && c <= 'z' {
            let up: u8 = (c as u8) - 32;
            r.push(up as char);
        } else {
            r.push(c);
        }
        assert(it.seq().take(it.index() + 1) == it.seq().take(it.index()).push(c));
    }
    assert(s@.take(s@.len() as int) == s@);
    r
}

/// Replaces every `from` in a text by `to`.
pub fn replace(s: &str, from: char, to: char) -> (r: String)
    ensures
        r@ == replaced(s@, from, to),
{
    let mut r = String::new();
    for c in it: s.chars()
        invariant
            r@ == replaced(it.seq().take(it.index()), from, to),
            it.seq() == s@,
    {
        if c == from {
            r.push(to);
        } else {
            r.push(c);
        }
        assert(it.seq().take(it.index() + 1) == it.seq().take(it.index()).push(c));
    }
    assert(s@.take(s@.len() as int) == s@);
    r
}

/// `s` without the `c` characters it ends with.
pub open spec fn trimmed_end_of(s: Seq<char>, c: char) -> Seq<char>
    decreases s.len(),
{
    if s.len() > 0 && s.last() == c {
        trimmed_end_of(s.drop_last(), c)
    } else {
        s
    }
}

/// What is left once a character has been trimmed off the end does not end in it.
pub proof fn lemma_trimmed_end_of(s: Seq<char>, c: char)
    ensures
        trimmed_end_of(s, c).len() > 0 ==> trimmed_end_of(s, c).last() != c,
    decreases s.len(),
{
    if s.len() > 0 && s.last() == c {
        lemma_trimmed_end_of(s.drop_last(), c);
    }
}

/// Removes the `c` characters at the end of a text.
pub fn trim_end_matches(s: &str, c: char) -> (r: String)
    ensures
        r@ == trimmed_end_of(s@, c),
{
    let v = chars_of(s);
    let mut to: usize = v.len();
    assert(v@.subrange(0, to as int) == v@);
    while 0 < to && v[to - 1] == c
        invariant
            to <= v@.len(),
            trimmed_end_of(v@, c) == trimmed_end_of(v@.subrange(0, to as int), c),
        decreases to,
    {
        assert(v@.subrange(0, to as int).drop_last() == v@.subrange(0, to - 1));
        to -= 1;
    }
    text_between(&v, 0, to)
}

// ----------------------------------------------------------------------------------------
// Decimal numbers
// ----------------------------------------------------------------------------------------

/// The character for a digit between zero and nine.
pub open spec fn digit(d: int) -> char {
    ('0' as u32 + d) as char
}

/// Whether a character is one of `0` to `9`.
pub open spec fn is_digit(c: char) -> bool {
    '0' <= c <= '9'
}

/// A number written in decimal, without leading zeros.
pub open spec fn decimal(n: nat) -> Seq<char>
    decreases n,
{
    if n < 10 {
        seq![digit(n as int)]
    } else {
        decimal(n / 10).push(digit((n % 10) as int))
    }
}

/// A signed number written in decimal.
pub open spec fn signed_decimal(n: int) -> Seq<char> {
    if n < 0 {
        seq!['-'] + decimal((-n) as nat)
    } else {
        decimal(n as nat)
    }
}

/// The number that a run of decimal digits stands for.
pub open spec fn digits_value(s: Seq<char>) -> int
    decreases s.len(),
{
    if s.len() == 0 {
        0
    } else {
        digits_value(s.drop_last()) * 10 + (s.last() as int - '0' as int)
    }
}

/// Whether `s` is one or more digits.
pub open spec fn all_digits(s: Seq<char>) -> bool {
    s.len() > 0 && forall|i: int| 0 <= i < s.len() ==> is_digit(#[trigger] s[i])
}

/// `s` without the one `+` it may begin with.
pub open spec fn unsigned_part(s: Seq<char>) -> Seq<char> {
    if s.len() > 0 && s[0] == '+' {
        s.drop_first()
    } else {
        s
    }
}

/// The unsigned number that `s` spells: an optional `+`, then one or more digits, for a
/// number no greater than `max`.
pub open spec fn parsed(s: Seq<char>, max: int) -> Option<int> {
    let digits = unsigned_part(s);
    if all_digits(digits) && digits_value(digits) <= max {
        Some(digits_value(digits))
    } else {
        None
    }
}

/// Writes a number in decimal.
pub fn to_decimal(n: u64) -> (s: String)
    ensures
        s@ == decimal(n as nat),
    decreases n,
{
    let last: u8 = (n % 10) as u8 + 48;
    if n < 10 {
        let mut s = String::new();
        s.push(last as char);
        s
    } else {
        let mut s = to_decimal(n / 10);
        s.push(last as char);
        s
    }
}

/// Writes a signed number in decimal.
pub fn to_signed_decimal(n: i64) -> (s: String)
    ensures
        s@ == signed_decimal(n as int),
{
    if n < 0 {
        let magnitude: u64 = if n == i64::MIN {
            0x8000_0000_0000_0000
        } else {
            (-n) as u64
        };
        let mut s = String::new();
        s.push('-');
        s.append(to_decimal(magnitude).as_str());
        s
    } else {
        to_decimal(n as u64)
    }
}

/// A run of digits is worth no less than any run it begins with.
proof fn lemma_prefix_value(s: Seq<char>, n: int)
    requires
        0 <= n <= s.len(),
        forall|i: int| 0 <= i < s.len() ==> is_digit(#[trigger] s[i]),
    ensures
        0 <= digits_value(s.take(n)) <= digits_value(s),
    decreases s.len(),
{
    if n == s.len() {
        assert(s.take(n) == s);
        if s.len() > 0 {
            lemma_prefix_value(s.drop_last(), s.len() - 1);
            assert(s.drop_last().take(s.len() - 1) == s.drop_last());
        }
    } else {
        lemma_prefix_value(s.drop_last(), n);
        assert(s.drop_last().take(n) == s.take(n));
        assert(is_digit(s[s.len() - 1]));
    }
}

/// Reads an unsigned decimal number no greater than `max`.
pub fn parse_unsigned(s: &str, max: u64) -> (r: Option<u64>)
    ensures
        r is Some <==> parsed(s@, max as int) is Some,
        r matches Some(n) ==> parsed(s@, max as int) == Some(n as int),
{
    let v = chars_of(s);
    let start: usize = if v.len() > 0 && v[0] == '+' {
        1
    } else {
        0
    };
    let ghost digits = unsigned_part(s@);
    assert(digits == v@.skip(start as int));
    if start == v.len() {
        return None;
    }
    let mut acc: u64 = 0;
    let mut i: usize = start;
    while i < v.len()
        invariant
            start <= i <= v@.len(),
            start <= 1,
            digits == v@.skip(start as int),
            digits == unsigned_part(s@),
            acc <= max,
            acc == digits_value(digits.take(i - start)),
            forall|j: int| 0 <= j < i - start ==> is_digit(#[trigger] digits[j]),
        decreases v@.len() - i,
    {
        let c = v[i];
        let ghost k = i - start;
        assert(c == digits[k]);
        if !('0' <= c && c <= '9') {
            assert(!is_digit(digits[k]));
            return None;
        }
        let d: u64 = (c as u64) - 48;
        assert(digits.take(k + 1).drop_last() == digits.take(k));
        assert(digits_value(digits.take(k + 1)) == acc * 10 + d);
        if d > max || acc > (max - d) / 10 {
            proof {
                if all_digits(digits) {
                    lemma_prefix_value(digits, k + 1);
                }
            }
            return None;
        }
        acc = acc * 10 + d;
        i += 1;
    }
    assert(digits.take(digits.len() as int) == digits);
    Some(acc)
}

// ----------------------------------------------------------------------------------------
// Splitting
// ----------------------------------------------------------------------------------------

/// The texts of a list of strings.
pub open spec fn texts(v: Seq<String>) -> Seq<Seq<char>> {
    v.map_values(|s: String| s@)
}

/// The pieces of `s` between the `sep` characters in it.
pub open spec fn pieces(s: Seq<char>, sep: char) -> Seq<Seq<char>>
    decreases s.len(),
{
    if s.len() == 0 {
        seq![Seq::<char>::empty()]
    } else {
        let before = pieces(s.drop_last(), sep);
        if s.last() == sep {
            before.push(Seq::<char>::empty())
        } else {
            before.drop_last().push(before.last().push(s.last()))
        }
    }
}

/// The pieces of `s` between the `sep` characters in it that are not blank.
pub open spec fn filled_pieces(s: Seq<char>, sep: char) -> Seq<Seq<char>> {
    pieces(s, sep).filter(|p: Seq<char>| !blank(p))
}

/// Splits a text at every `sep` and keeps the pieces that are not blank.
pub fn split_filled(s: &str, sep: char) -> (v: Vec<String>)
    ensures
        texts(v@) == filled_pieces(s@, sep),
{
    let ghost keep = |p: Seq<char>| !blank(p);
    let mut out: Vec<String> = Vec::new();
    let mut current = String::new();
    assert(pieces(s@.take(0), sep) == seq![Seq::<char>::empty()]);
    proof {
        reveal(Seq::filter);
        assert(pieces(s@.take(0), sep).drop_last() == Seq::<Seq<char>>::empty());
    }
    assert(texts(out@) == pieces(s@.take(0), sep).drop_last().filter(keep));
    for c in it: s.chars()
        invariant
            it.seq() == s@,
            keep == (|p: Seq<char>| !blank(p)),
            pieces(s@.take(it.index()), sep).len() > 0,
            current@ == pieces(s@.take(it.index()), sep).last(),
            texts(out@) == pieces(s@.take(it.index()), sep).drop_last().filter(keep),
    {
        let ghost before = pieces(s@.take(it.index()), sep);
        let ghost after = pieces(s@.take(it.index() + 1), sep);
        assert(s@.take(it.index() + 1).drop_last() == s@.take(it.index()));
        if c == sep {
            assert(after.drop_last() == before);
            assert(before.filter(keep) == if keep(before.last()) {
                before.drop_last().filter(keep).push(before.last())
            } else {
                before.drop_last().filter(keep)
            }) by {
                reveal(Seq::filter);
            }
            if !is_blank(current.as_str()) {
                let ghost old_texts = texts(out@);
                out.push(current);
                assert(texts(out@) == old_texts.push(before.last()));
            }
            current = String::new();
        } else {
            current.push(c);
            assert(after.drop_last() == before.drop_last());
        }
    }
    assert(s@.take(s@.len() as int) == s@);
    let ghost all = pieces(s@, sep);
    assert(all.filter(keep) == if keep(all.last()) {
        all.drop_last().filter(keep).push(all.last())
    } else {
        all.drop_last().filter(keep)
    }) by {
        reveal(Seq::filter);
    }
    if !is_blank(current.as_str()) {
        let ghost old_texts = texts(out@);
        out.push(current);
        assert(texts(out@) == old_texts.push(all.last()));
    }
    out
}

// ----------------------------------------------------------------------------------------
// Quoting
// ----------------------------------------------------------------------------------------

/// What the standard library's `Debug` formatting makes of a string: the text in double
/// quotes, with the characters that need it escaped.
pub uninterp spec fn debug_quoted(s: Seq<char>) -> Seq<char>;

/// `Debug` formatting of a `str`: the result is a function of the text alone, and bears the
/// name `debug_quoted`. Which characters are escaped, and how, is left unsaid.
#[verifier::external_body]
pub(crate) fn quote(s: &str) -> (r: String)
    ensures
        r@ == debug_quoted(s@),
{
    format!("{s:?}")
}

// ----------------------------------------------------------------------------------------
// Laws
// ----------------------------------------------------------------------------------------

/// Whether there is nothing but white space in a text.
pub open spec fn all_white(s: Seq<char>) -> bool {
    forall|i: int| 0 <= i < s.len() ==> whitespace(#[trigger] s[i])
}

/// Trimming takes the white space off both ends of a text and nothing else: what is left
/// neither begins nor ends with any, and what was taken off is nothing but white space.
pub proof fn trimming_takes_white_space_off(s: Seq<char>) -> (cut: (int, int))
    ensures
        0 <= cut.0 <= cut.1 <= s.len(),
        trimmed(s) == s.subrange(cut.0, cut.1),
        all_white(s.take(cut.0)),
        all_white(s.skip(cut.1)),
        trimmed(s).len() > 0 ==> !whitespace(trimmed(s).first()) && !whitespace(trimmed(s).last()),
{
    let a = lemma_start_cut(s);
    let t = trimmed_start(s);
    let b = lemma_end_cut(t);
    lemma_trimmed_start_first(s);
    lemma_trimmed_end_ends(t);
    assert(trimmed(s) =~= s.subrange(a, a + b));
    assert(s.skip(a + b) =~= t.skip(b));
    (a, a + b)
}

proof fn lemma_start_cut(s: Seq<char>) -> (a: int)
    ensures
        0 <= a <= s.len(),
        trimmed_start(s) == s.skip(a),
        all_white(s.take(a)),
    decreases s.len(),
{
    if s.len() > 0 && whitespace(s.first()) {
        let b = lemma_start_cut(s.drop_first());
        assert(s.drop_first().skip(b) =~= s.skip(b + 1));
        assert forall|i: int| 0 <= i < b + 1 implies whitespace(#[trigger] s.take(b + 1)[i]) by {
            if i > 0 {
                assert(s.drop_first().take(b)[i - 1] == s[i]);
            }
        }
        b + 1
    } else {
        assert(s.skip(0) =~= s);
        0
    }
}

proof fn lemma_end_cut(s: Seq<char>) -> (b: int)
    ensures
        0 <= b <= s.len(),
        trimmed_end(s) == s.take(b),
        all_white(s.skip(b)),
    decreases s.len(),
{
    if s.len() > 0 && whitespace(s.last()) {
        let n = s.len() - 1;
        let b = lemma_end_cut(s.drop_last());
        assert(s.drop_last().take(b) =~= s.take(b));
        assert forall|i: int| 0 <= i < s.skip(b).len() implies whitespace(
            #[trigger] s.skip(b)[i],
        ) by {
            if b + i < n {
                assert(s.drop_last().skip(b)[i] == s[b + i]);
            }
        }
        b
    } else {
        assert(s.take(s.len() as int) =~= s);
        s.len() as int
    }
}

/// A text is blank if and only if there is nothing but white space in it.
pub proof fn blank_is_all_white_space(s: Seq<char>)
    ensures
        blank(s) <==> all_white(s),
{
    let (a, b) = trimming_takes_white_space_off(s);
    if blank(s) {
        assert forall|i: int| 0 <= i < s.len() implies whitespace(#[trigger] s[i]) by {
            if i < a {
                assert(s.take(a)[i] == s[i]);
            } else {
                assert(s.skip(b)[i - b] == s[i]);
            }
        }
    } else {
        assert(trimmed(s).first() == s[a]);
    }
}

/// A number that was written in decimal is read back, unless it is above the limit; a `+` in
/// front of it makes no difference.
pub proof fn written_number_reads_back(n: nat, max: int)
    ensures
        parsed(decimal(n), max) == if n <= max {
            Some(n as int)
        } else {
            None
        },
        parsed(seq!['+'] + decimal(n), max) == parsed(decimal(n), max),
{
    lemma_decimal_digits(n);
    assert(is_digit(decimal(n)[0]));
    assert((seq!['+'] + decimal(n)).drop_first() =~= decimal(n));
}

proof fn lemma_decimal_digits(n: nat)
    ensures
        all_digits(decimal(n)),
        digits_value(decimal(n)) == n,
    decreases n,
{
    let d = (n % 10) as int;
    assert(digit(d) as int == '0' as int + d);
    if n >= 10 {
        lemma_decimal_digits(n / 10);
        assert(decimal(n).drop_last() =~= decimal(n / 10));
    } else {
        assert(decimal(n).drop_last() =~= Seq::empty());
        assert(digits_value(Seq::<char>::empty()) == 0);
    }
}

/// Nothing is read as a number that has anything but digits in it, apart from a `+` in front,
/// or that has no digit at all.
pub proof fn only_digits_are_read(s: Seq<char>, max: int, i: int)
    requires
        parsed(s, max) is Some,
        0 <= i < s.len(),
    ensures
        '0' <= s[i] <= '9' || i == 0 && s[i] == '+' && s.len() > 1,
        0 <= parsed(s, max)->0 <= max,
{
    let digits = unsigned_part(s);
    lemma_prefix_value(digits, 0);
    assert(digits.take(0) =~= Seq::empty());
    if s[0] == '+' {
        if i > 0 {
            assert(is_digit(digits[i - 1]));
        }
    } else {
        assert(is_digit(digits[i]));
    }
}

/// What is left once a character has been trimmed off the end is how the text begins, and
/// nothing but that character was taken off.
pub proof fn trimming_a_character_takes_nothing_else(s: Seq<char>, c: char)
    ensures
        ({
            let t = trimmed_end_of(s, c);
            &&& t.len() <= s.len()
            &&& t == s.take(t.len() as int)
            &&& forall|i: int| t.len() <= i < s.len() ==> #[trigger] s[i] == c
            &&& t.len() > 0 ==> t.last() != c
        }),
    decreases s.len(),
{
    if s.len() > 0 && s.last() == c {
        let shorter = s.drop_last();
        trimming_a_character_takes_nothing_else(shorter, c);
        let t = trimmed_end_of(s, c);
        assert(shorter.take(t.len() as int) =~= s.take(t.len() as int));
        assert forall|i: int| t.len() <= i < s.len() implies #[trigger] s[i] == c by {
            if i < s.len() - 1 {
                assert(shorter[i] == s[i]);
            }
        }
    } else {
        assert(s.take(s.len() as int) =~= s);
    }
}

/// A number below zero is written as a `-` and then the digits of what is missing to zero.
pub proof fn written_sign_is_the_sign(n: int)
    ensures
        n >= 0 ==> parsed(signed_decimal(n), n) == Some(n),
        n < 0 ==> signed_decimal(n)[0] == '-' && parsed(signed_decimal(n).drop_first(), -n)
            == Some(-n),
{
    if n < 0 {
        written_number_reads_back((-n) as nat, -n);
        assert(signed_decimal(n).drop_first() =~= decimal((-n) as nat));
    } else {
        written_number_reads_back(n as nat, n);
    }
}

/// The pieces of a text, each with the separator before the next, make up the text again.
pub open spec fn rejoined(parts: Seq<Seq<char>>, sep: char) -> Seq<char>
    decreases parts.len(),
{
    if parts.len() == 0 {
        Seq::empty()
    } else if parts.len() == 1 {
        parts[0]
    } else {
        rejoined(parts.drop_last(), sep).push(sep) + parts.last()
    }
}

/// A text is split at every separator and nowhere else: no piece has one in it, and put together
/// again with one between each two, the pieces are the text.
pub proof fn pieces_make_up_the_text(s: Seq<char>, sep: char)
    ensures
        pieces(s, sep).len() > 0,
        rejoined(pieces(s, sep), sep) == s,
        forall|k: int| 0 <= k < pieces(s, sep).len() ==> !(#[trigger] pieces(s, sep)[k]).contains(
            sep,
        ),
    decreases s.len(),
{
    let parts = pieces(s, sep);
    if s.len() == 0 {
        assert(rejoined(parts, sep) =~= s);
    } else {
        let before = pieces(s.drop_last(), sep);
        pieces_make_up_the_text(s.drop_last(), sep);
        if s.last() == sep {
            assert(parts.drop_last() =~= before);
            assert(rejoined(parts, sep) =~= s);
            assert forall|k: int| 0 <= k < parts.len() implies !(#[trigger] parts[k]).contains(
                sep,
            ) by {
                if k < before.len() {
                    assert(parts[k] == before[k]);
                }
            }
        } else {
            let n = before.len() - 1;
            let longer = before.last().push(s.last());
            assert(parts.drop_last() =~= before.drop_last());
            assert(parts.last() == longer);
            assert(s =~= s.drop_last().push(s.last()));
            if n == 0 {
                assert(parts[0] == longer);
                assert(rejoined(before, sep) == before[0]);
            } else {
                let head = rejoined(before.drop_last(), sep).push(sep);
                assert(rejoined(before, sep) == head + before.last());
                assert(rejoined(parts, sep) == head + longer);
                assert(head + longer =~= (head + before.last()).push(s.last()));
            }
            assert forall|k: int| 0 <= k < parts.len() implies !(#[trigger] parts[k]).contains(
                sep,
            ) by {
                assert(!before[k].contains(sep));
                if k == n && parts[k].contains(sep) {
                    let j = choose|j: int| 0 <= j < longer.len() && longer[j] == sep;
                    assert(before[n][j] == sep);
                }
            }
        }
    }
}

/// White space is what Unicode calls so: the control characters from tab to carriage return,
/// the space, and the spaces and line ends beyond ASCII.
pub proof fn white_space_by_number(c: char)
    ensures
        ({
            let n = c as u32;
            whitespace(c) <==> (9 <= n <= 13 || n == 0x20 || n == 0x85 || n == 0xa0 || n == 0x1680
                || 0x2000 <= n <= 0x200a || n == 0x2028 || n == 0x2029 || n == 0x202f || n == 0x205f
                || n == 0x3000)
        }),
{
}

/// Changing the letter case changes the 26 letters of ASCII, one by one, and nothing else.
pub proof fn letter_case_changes_letters_only(s: Seq<char>, i: int)
    requires
        0 <= i < s.len(),
    ensures
        uppered(s).len() == s.len(),
        lowered(s).len() == s.len(),
        ({
            let n = s[i] as u32;
            &&& uppered(s)[i] as u32 == if 97 <= n <= 122 {
                n - 32
            } else {
                n as int
            }
            &&& lowered(s)[i] as u32 == if 65 <= n <= 90 {
                n + 32
            } else {
                n as int
            }
        }),
{
}

/// Replacing a character leaves every other one where it is.
pub proof fn replacing_leaves_the_rest(s: Seq<char>, from: char, to: char, i: int)
    requires
        0 <= i < s.len(),
    ensures
        replaced(s, from, to).len() == s.len(),
        s[i] == from ==> replaced(s, from, to)[i] == to,
        s[i] != from ==> replaced(s, from, to)[i] == s[i],
{
}

} // verus!

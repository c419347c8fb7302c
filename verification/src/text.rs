//! Strings as sequences of characters: the searches, cuts and replacements
//! that the rest of the library is stated with.
use vstd::prelude::*;
use vstd::slice::slice_subrange;

verus! {

/// `String::push` of the standard library appends one character.
pub assume_specification[ String::push ](s: &mut String, c: char)
    ensures
        final(s)@ == old(s)@.push(c),
;

/// `pat` stands in `s` at position `i`.
pub open spec fn occurs_at(s: Seq<char>, pat: Seq<char>, i: int) -> bool {
    0 <= i && i + pat.len() <= s.len() && s.subrange(i, i + pat.len()) == pat
}

/// `pat` stands somewhere in `s`.
pub open spec fn contains(s: Seq<char>, pat: Seq<char>) -> bool {
    exists|i: int| occurs_at(s, pat, i)
}

/// `s` ends with `pat`.
pub open spec fn has_suffix(s: Seq<char>, pat: Seq<char>) -> bool {
    occurs_at(s, pat, s.len() - pat.len())
}

/// `s` with the occurrences of `pat`, taken from left to right without
/// overlap, replaced by `with`. An empty `pat` replaces nothing.
pub open spec fn replaced(s: Seq<char>, pat: Seq<char>, with: Seq<char>) -> Seq<char>
    decreases s.len(),
{
    if pat.len() == 0 || s.len() == 0 {
        s
    } else if occurs_at(s, pat, 0) {
        with + replaced(s.skip(pat.len() as int), pat, with)
    } else {
        seq![s[0]] + replaced(s.skip(1), pat, with)
    }
}

/// The code of `c` with `A` to `Z` taken for `a` to `z`.
pub open spec fn case_code(c: char) -> int {
    if 'A' <= c <= 'Z' {
        c as int + 32
    } else {
        c as int
    }
}

/// Equality up to the case of ASCII letters.
pub open spec fn same_ignoring_case(a: Seq<char>, b: Seq<char>) -> bool {
    &&& a.len() == b.len()
    &&& forall|i: int| 0 <= i < a.len() ==> case_code(#[trigger] a[i]) == case_code(b[i])
}

/// The characters with the Unicode property White_Space.
pub open spec fn is_white(c: char) -> bool {
    ||| '\u{9}' <= c <= '\u{d}'
    ||| c == ' '
    ||| c == '\u{85}'
    ||| c == '\u{a0}'
    ||| c == '\u{1680}'
    ||| '\u{2000}' <= c <= '\u{200a}'
    ||| c == '\u{2028}'
    ||| c == '\u{2029}'
    ||| c == '\u{202f}'
    ||| c == '\u{205f}'
    ||| c == '\u{3000}'
}

/// `s` without its leading white space.
pub open spec fn trimmed_start(s: Seq<char>) -> Seq<char>
    decreases s.len(),
{
    if s.len() > 0 && is_white(s[0]) {
        trimmed_start(s.skip(1))
    } else {
        s
    }
}

/// `s` without its trailing white space.
pub open spec fn trimmed_end(s: Seq<char>) -> Seq<char>
    decreases s.len(),
{
    if s.len() > 0 && is_white(s.last()) {
        trimmed_end(s.drop_last())
    } else {
        s
    }
}

/// `s` without its leading and trailing white space.
pub open spec fn trimmed(s: Seq<char>) -> Seq<char> {
    trimmed_end(trimmed_start(s))
}

/// `s` without the characters `c` that it begins with.
pub open spec fn without_leading(s: Seq<char>, c: char) -> Seq<char>
    decreases s.len(),
{
    if s.len() > 0 && s[0] == c {
        without_leading(s.skip(1), c)
    } else {
        s
    }
}

/// The characters of `s` before its first white space.
pub open spec fn word_prefix(s: Seq<char>) -> Seq<char>
    decreases s.len(),
{
    if s.len() == 0 || is_white(s[0]) {
        Seq::empty()
    } else {
        seq![s[0]] + word_prefix(s.skip(1))
    }
}

/// The first run of characters of `s` that are no white space.
pub open spec fn first_word_of(s: Seq<char>) -> Option<Seq<char>> {
    if trimmed_start(s).len() == 0 {
        None
    } else {
        Some(word_prefix(trimmed_start(s)))
    }
}

/// What follows the last `sep` in `s`: all of `s` where there is none.
pub open spec fn last_segment_of(s: Seq<char>, sep: char) -> Seq<char>
    decreases s.len(),
{
    if s.len() == 0 || s.last() == sep {
        Seq::empty()
    } else {
        last_segment_of(s.drop_last(), sep).push(s.last())
    }
}

/// The position of the first line feed in `s`, or the length of `s`.
pub open spec fn line_end(s: Seq<char>) -> nat
    decreases s.len(),
{
    if s.len() == 0 || s[0] == '\n' {
        0
    } else {
        1 + line_end(s.skip(1))
    }
}

/// `s` without one carriage return at its end.
pub open spec fn without_return(s: Seq<char>) -> Seq<char> {
    if s.len() > 0 && s.last() == '\r' {
        s.drop_last()
    } else {
        s
    }
}

/// The lines of `s`: each ends at a line feed, with or without a carriage
/// return before it; the last one may end with `s`.
pub open spec fn lines_of(s: Seq<char>) -> Seq<Seq<char>>
    decreases s.len(),
{
    if s.len() == 0 {
        Seq::empty()
    } else if line_end(s) >= s.len() {
        seq![s]
    } else {
        seq![without_return(s.take(line_end(s) as int))] + lines_of(
            s.skip(line_end(s) as int + 1),
        )
    }
}

/// The pieces of `list`, with `sep` between any two of them.
pub open spec fn joined(list: Seq<Seq<char>>, sep: Seq<char>) -> Seq<char>
    decreases list.len(),
{
    if list.len() == 0 {
        Seq::empty()
    } else if list.len() == 1 {
        list[0]
    } else {
        joined(list.drop_last(), sep) + sep + list.last()
    }
}

/// The views of a list of strings.
pub open spec fn texts(list: Seq<String>) -> Seq<Seq<char>> {
    list.map_values(|s: String| s@)
}

/// The view of an optional string.
pub open spec fn text_of(s: Option<String>) -> Option<Seq<char>> {
    match s {
        Some(t) => Some(t@),
        None => None,
    }
}

/// The digit that stands for `d`.
pub open spec fn digit(d: nat) -> char {
    (48 + d) as u8 as char
}

/// `n` in base ten.
pub open spec fn decimal(n: nat) -> Seq<char>
    decreases n,
{
    if n < 10 {
        seq![digit(n)]
    } else {
        decimal(n / 10).push(digit(n % 10))
    }
}

/// Whether `s` holds nothing but decimal digits.
pub open spec fn all_digits(s: Seq<char>) -> bool {
    forall|i: int| 0 <= i < s.len() ==> '0' <= #[trigger] s[i] <= '9'
}

/// The number that the digits of `s` write down.
pub open spec fn number_of(s: Seq<char>) -> nat
    decreases s.len(),
{
    if s.len() == 0 {
        0
    } else {
        (number_of(s.drop_last()) * 10 + (s.last() as nat - 48)) as nat
    }
}

/// The `u64` that `s` writes down: an optional plus sign, then digits.
pub open spec fn parsed_u64(s: Seq<char>) -> Option<u64> {
    let digits = if s.len() > 0 && s[0] == '+' {
        s.skip(1)
    } else {
        s
    };
    if digits.len() == 0 || !all_digits(digits) || number_of(digits) > u64::MAX {
        None
    } else {
        Some(number_of(digits) as u64)
    }
}

/// The characters of `s`.
pub fn to_chars(s: &str) -> (r: Vec<char>)
    ensures
        r@ == s@,
{
    let mut r: Vec<char> = Vec::new();
    for c in it: s.chars()
        invariant
            it.seq() == s@,
            r@ == it.seq().take(it.index() as int),
    {
        r.push(c);
    }
    r
}

/// The string with the characters `chars`.
pub fn from_chars(chars: &[char]) -> (r: String)
    ensures
        r@ == chars@,
{
    let mut r: String = String::new();
    let mut i: usize = 0;
    while i < chars.len()
        invariant
            i <= chars@.len(),
            r@ == chars@.take(i as int),
        decreases chars@.len() - i,
    {
        r.push(chars[i]);
        i = i + 1;
    }
    assert(chars@.take(i as int) =~= chars@);
    r
}

/// Whether `pat` stands in `s` at position `i`.
fn matches_at(s: &[char], pat: &[char], i: usize) -> (r: bool)
    ensures
        r == occurs_at(s@, pat@, i as int),
{
    if pat.len() > s.len() || i > s.len() - pat.len() {
        return false;
    }
    let mut k: usize = 0;
    while k < pat.len()
        invariant
            k <= pat@.len(),
            i + pat@.len() <= s.len(),
            forall|j: int| 0 <= j < k ==> s@[i + j] == #[trigger] pat@[j],
        decreases pat@.len() - k,
    {
        if s[i + k] != pat[k] {
            assert(s@.subrange(i as int, i + pat@.len())[k as int] != pat@[k as int]);
            return false;
        }
        k = k + 1;
    }
    assert(s@.subrange(i as int, i + pat@.len()) =~= pat@);
    true
}

/// Whether `pat` stands in `text`.
pub fn has(text: &str, pat: &str) -> (r: bool)
    ensures
        r == contains(text@, pat@),
{
    let s: Vec<char> = to_chars(text);
    let p: Vec<char> = to_chars(pat);
    let mut i: usize = 0;
    while i < s.len()
        invariant
            i <= s@.len(),
            s@ == text@,
            p@ == pat@,
            forall|j: int| 0 <= j < i ==> !occurs_at(text@, pat@, j),
        decreases s@.len() - i,
    {
        if matches_at(s.as_slice(), p.as_slice(), i) {
            return true;
        }
        i = i + 1;
    }
    matches_at(s.as_slice(), p.as_slice(), i)
}

/// Whether `text` ends with `pat`.
pub fn ends_with(text: &str, pat: &str) -> (r: bool)
    ensures
        r == has_suffix(text@, pat@),
{
    let s: Vec<char> = to_chars(text);
    let p: Vec<char> = to_chars(pat);
    p.len() <= s.len() && matches_at(s.as_slice(), p.as_slice(), s.len() - p.len())
}

/// Whether two strings hold the same characters.
pub fn same(a: &str, b: &str) -> (r: bool)
    ensures
        r == (a@ == b@),
{
    let s: Vec<char> = to_chars(a);
    let p: Vec<char> = to_chars(b);
    let r: bool = s.len() == p.len() && matches_at(s.as_slice(), p.as_slice(), 0);
    assert(a@.len() == b@.len() ==> a@.subrange(0, b@.len() as int) =~= a@);
    r
}

/// `text` with the occurrences of `pat` replaced by `with`.
pub fn replace_all(text: &str, pat: &str, with: &str) -> (r: String)
    ensures
        r@ == replaced(text@, pat@, with@),
{
    let s: Vec<char> = to_chars(text);
    let p: Vec<char> = to_chars(pat);
    let mut r: String = String::new();
    let mut i: usize = 0;
    assert(s@.skip(0) =~= s@);
    if p.len() == 0 {
        return from_chars(s.as_slice());
    }
    while i < s.len()
        invariant
            i <= s@.len(),
            p@ == pat@,
            p@.len() > 0,
            r@ + replaced(s@.skip(i as int), pat@, with@) == replaced(s@, pat@, with@),
        decreases s@.len() - i,
    {
        let ghost rest = s@.skip(i as int);
        assert(occurs_at(s@, pat@, i as int) <==> occurs_at(rest, pat@, 0)) by {
            if i + pat@.len() <= s@.len() {
                assert(s@.subrange(i as int, i + pat@.len()) =~= rest.subrange(
                    0,
                    pat@.len() as int,
                ));
            }
        }
        let ghost before = r@;
        if matches_at(s.as_slice(), p.as_slice(), i) {
            r.append(with);
            assert(rest.skip(pat@.len() as int) =~= s@.skip(i + pat@.len()));
            assert(before + (with@ + replaced(rest.skip(pat@.len() as int), pat@, with@)) =~= r@
                + replaced(s@.skip(i + pat@.len()), pat@, with@));
            i = i + p.len();
        } else {
            r.push(s[i]);
            assert(rest.skip(1) =~= s@.skip(i + 1));
            assert(before + (seq![rest[0]] + replaced(rest.skip(1), pat@, with@)) =~= r@ + replaced(
                s@.skip(i + 1),
                pat@,
                with@,
            ));
            i = i + 1;
        }
    }
    assert(replaced(s@.skip(i as int), pat@, with@) =~= Seq::empty());
    assert(r@ + Seq::<char>::empty() =~= r@);
    r
}

/// The code of `c` with `A` to `Z` taken for `a` to `z`.
fn folded(c: char) -> (r: u32)
    ensures
        r == case_code(c),
{
    if 'A' <= c && c <= 'Z' {
        c as u32 + 32
    } else {
        c as u32
    }
}

/// Whether two strings are equal up to the case of ASCII letters.
pub fn eq_ignore_case(a: &str, b: &str) -> (r: bool)
    ensures
        r == same_ignoring_case(a@, b@),
{
    let s: Vec<char> = to_chars(a);
    let p: Vec<char> = to_chars(b);
    if s.len() != p.len() {
        return false;
    }
    let mut i: usize = 0;
    while i < s.len()
        invariant
            i <= s@.len(),
            s@.len() == p@.len(),
            s@ == a@,
            p@ == b@,
            forall|j: int| 0 <= j < i ==> case_code(#[trigger] a@[j]) == case_code(b@[j]),
        decreases s@.len() - i,
    {
        if folded(s[i]) != folded(p[i]) {
            return false;
        }
        i = i + 1;
    }
    true
}

/// Whether `c` has the Unicode property White_Space.
pub fn white(c: char) -> (r: bool)
    ensures
        r == is_white(c),
{
    ('\u{9}' <= c && c <= '\u{d}') || c == ' ' || c == '\u{85}' || c == '\u{a0}' || c
        == '\u{1680}' || ('\u{2000}' <= c && c <= '\u{200a}') || c == '\u{2028}' || c == '\u{2029}'
        || c == '\u{202f}' || c == '\u{205f}' || c == '\u{3000}'
}

/// How many characters of white space `s` begins with.
fn leading_white(s: &[char]) -> (n: usize)
    ensures
        n <= s@.len(),
        trimmed_start(s@) == s@.skip(n as int),
        n < s@.len() ==> !is_white(s@[n as int]),
{
    let mut n: usize = 0;
    assert(s@.skip(0) =~= s@);
    while n < s.len() && white(s[n])
        invariant
            n <= s@.len(),
            trimmed_start(s@.skip(n as int)) == trimmed_start(s@),
        decreases s@.len() - n,
    {
        assert(s@.skip(n as int).skip(1) =~= s@.skip(n + 1));
        n = n + 1;
    }
    n
}

/// `text` without its leading and trailing white space.
pub fn trim(text: &str) -> (r: String)
    ensures
        r@ == trimmed(text@),
{
    let s: Vec<char> = to_chars(text);
    let from: usize = leading_white(s.as_slice());
    let mut to: usize = s.len();
    let ghost kept = s@.skip(from as int);
    assert(s@.subrange(from as int, to as int) =~= kept);
    while to > from && white(s[to - 1])
        invariant
            from <= to <= s@.len(),
            trimmed_end(s@.subrange(from as int, to as int)) == trimmed_end(kept),
        decreases to,
    {
        assert(s@.subrange(from as int, to as int).drop_last() =~= s@.subrange(
            from as int,
            to - 1,
        ));
        to = to - 1;
    }
    from_chars(slice_subrange(s.as_slice(), from, to))
}

/// `text` without the characters `c` that it begins with.
pub fn strip_leading(text: &str, c: char) -> (r: String)
    ensures
        r@ == without_leading(text@, c),
{
    let s: Vec<char> = to_chars(text);
    let mut n: usize = 0;
    assert(s@.skip(0) =~= s@);
    while n < s.len() && s[n] == c
        invariant
            n <= s@.len(),
            without_leading(s@.skip(n as int), c) == without_leading(s@, c),
        decreases s@.len() - n,
    {
        assert(s@.skip(n as int).skip(1) =~= s@.skip(n + 1));
        n = n + 1;
    }
    assert(s@.skip(n as int) =~= s@.subrange(n as int, s@.len() as int));
    from_chars(slice_subrange(s.as_slice(), n, s.len()))
}

/// The first run of characters of `text` that are no white space.
pub fn first_word(text: &str) -> (r: Option<String>)
    ensures
        text_of(r) == first_word_of(text@),
{
    let s: Vec<char> = to_chars(text);
    let from: usize = leading_white(s.as_slice());
    if from == s.len() {
        return None;
    }
    let ghost rest = s@.skip(from as int);
    let mut to: usize = from;
    assert(s@.subrange(from as int, to as int) + word_prefix(s@.skip(to as int)) =~= word_prefix(
        rest,
    ));
    while to < s.len() && !white(s[to])
        invariant
            from <= to <= s@.len(),
            s@.subrange(from as int, to as int) + word_prefix(s@.skip(to as int)) == word_prefix(
                rest,
            ),
        decreases s@.len() - to,
    {
        assert(s@.skip(to as int).skip(1) =~= s@.skip(to + 1));
        assert(s@.subrange(from as int, to as int) + (seq![s@[to as int]] + word_prefix(
            s@.skip(to + 1),
        )) =~= s@.subrange(from as int, to + 1) + word_prefix(s@.skip(to + 1)));
        to = to + 1;
    }
    assert(word_prefix(s@.skip(to as int)) =~= Seq::empty());
    assert(s@.subrange(from as int, to as int) =~= word_prefix(rest));
    Some(from_chars(slice_subrange(s.as_slice(), from, to)))
}

/// What follows the last `sep` in `text`.
pub fn last_segment(text: &str, sep: char) -> (r: String)
    ensures
        r@ == last_segment_of(text@, sep),
{
    let s: Vec<char> = to_chars(text);
    let mut from: usize = s.len();
    assert(s@.take(from as int) =~= s@);
    assert(last_segment_of(s@, sep) + s@.skip(from as int) =~= last_segment_of(s@, sep));
    while from > 0 && s[from - 1] != sep
        invariant
            from <= s@.len(),
            last_segment_of(s@.take(from as int), sep) + s@.skip(from as int) == last_segment_of(
                s@,
                sep,
            ),
        decreases from,
    {
        assert(s@.take(from as int).drop_last() =~= s@.take(from - 1));
        assert(last_segment_of(s@.take(from - 1), sep).push(s@[from - 1]) + s@.skip(from as int)
            =~= last_segment_of(s@.take(from - 1), sep) + s@.skip(from - 1));
        from = from - 1;
    }
    assert(last_segment_of(s@.take(from as int), sep) =~= Seq::empty());
    assert(s@.subrange(from as int, s@.len() as int) =~= last_segment_of(s@, sep));
    from_chars(slice_subrange(s.as_slice(), from, s.len()))
}

/// The lines of `text`.
pub fn lines(text: &str) -> (r: Vec<String>)
    ensures
        texts(r@) == lines_of(text@),
{
    let s: Vec<char> = to_chars(text);
    let mut r: Vec<String> = Vec::new();
    let mut from: usize = 0;
    assert(s@.skip(0) =~= s@);
    assert(texts(r@) + lines_of(s@) =~= lines_of(s@));
    while from < s.len()
        invariant
            from <= s@.len(),
            s@ == text@,
            texts(r@) + lines_of(s@.skip(from as int)) == lines_of(text@),
        decreases s@.len() - from,
    {
        let ghost rest = s@.skip(from as int);
        let ghost done = texts(r@);
        let mut to: usize = from;
        while to < s.len() && s[to] != '\n'
            invariant
                from <= to <= s@.len(),
                rest == s@.skip(from as int),
                to - from + line_end(s@.skip(to as int)) == line_end(rest),
            decreases s@.len() - to,
        {
            assert(s@.skip(to as int).skip(1) =~= s@.skip(to + 1));
            to = to + 1;
        }
        assert(line_end(rest) == to - from);
        let line: String;
        if to == s.len() {
            line = from_chars(slice_subrange(s.as_slice(), from, to));
            assert(line@ =~= rest);
            assert(lines_of(rest) == seq![rest]);
            from = to;
        } else {
            assert(rest.take(to - from) =~= s@.subrange(from as int, to as int));
            let mut end: usize = to;
            if to > from && s[to - 1] == '\r' {
                end = to - 1;
            }
            line = from_chars(slice_subrange(s.as_slice(), from, end));
            assert(line@ =~= without_return(rest.take(to - from)));
            assert(rest.skip(to - from + 1) =~= s@.skip(to + 1));
            from = to + 1;
        }
        assert(s@.skip(s@.len() as int) =~= Seq::empty());
        r.push(line);
        assert(texts(r@) =~= done.push(line@));
        assert(lines_of(rest) =~= seq![line@] + lines_of(s@.skip(from as int)));
        assert(done + (seq![line@] + lines_of(s@.skip(from as int))) =~= texts(r@) + lines_of(
            s@.skip(from as int),
        ));
    }
    assert(s@.skip(from as int) =~= Seq::empty());
    assert(texts(r@) + Seq::<Seq<char>>::empty() =~= texts(r@));
    r
}

/// The pieces of `list`, with `sep` between any two of them.
pub fn join(list: &Vec<String>, sep: &str) -> (r: String)
    ensures
        r@ == joined(texts(list@), sep@),
{
    let mut r: String = String::new();
    let mut i: usize = 0;
    let ghost all = texts(list@);
    while i < list.len()
        invariant
            i <= list@.len(),
            all == texts(list@),
            r@ == joined(all.take(i as int), sep@),
        decreases list@.len() - i,
    {
        if i > 0 {
            r.append(sep);
        }
        r.append(list[i].as_str());
        assert(all.take(i + 1).drop_last() =~= all.take(i as int));
        assert(r@ =~= joined(all.take(i + 1), sep@));
        i = i + 1;
    }
    assert(all.take(i as int) =~= all);
    r
}

/// `n` in base ten.
pub fn decimal_text(n: u64) -> (r: String)
    ensures
        r@ == decimal(n as nat),
    decreases n,
{
    let last: char = (48u8 + (n % 10) as u8) as char;
    let mut r: String = if n < 10 {
        String::new()
    } else {
        decimal_text(n / 10)
    };
    r.push(last);
    assert(r@ =~= decimal(n as nat));
    r
}

/// Digits write down no less than any of their leading parts do.
proof fn number_of_grows(s: Seq<char>, i: int)
    requires
        all_digits(s),
        0 <= i <= s.len(),
    ensures
        number_of(s.take(i)) <= number_of(s),
    decreases s.len() - i,
{
    if i < s.len() {
        number_of_grows(s, i + 1);
        assert(s.take(i + 1).drop_last() =~= s.take(i));
    } else {
        assert(s.take(i) =~= s);
    }
}

/// The `u64` that `text` writes down.
pub fn parse_u64(text: &str) -> (r: Option<u64>)
    ensures
        r == parsed_u64(text@),
{
    let s: Vec<char> = to_chars(text);
    let from: usize = if s.len() > 0 && s[0] == '+' {
        1
    } else {
        0
    };
    let ghost digits = s@.skip(from as int);
    assert(s@.skip(0) =~= s@);
    if from == s.len() {
        return None;
    }
    let mut n: u64 = 0;
    let mut i: usize = from;
    while i < s.len()
        invariant
            from <= i <= s@.len(),
            s@ == text@,
            from == (if text@.len() > 0 && text@[0] == '+' {
                1int
            } else {
                0
            }),
            digits == s@.skip(from as int),
            digits == text@.skip(from as int),
            from == 0 ==> digits == text@,
            digits.len() > 0,
            all_digits(digits.take(i - from)),
            n == number_of(digits.take(i - from)),
        decreases s@.len() - i,
    {
        let c: char = s[i];
        assert(c == digits[i - from]);
        if c < '0' || '9' < c {
            return None;
        }
        let d: u64 = c as u64 - 48;
        let ghost next = digits.take(i - from + 1);
        proof {
            assert(next.drop_last() =~= digits.take(i - from));
            assert(number_of(next) == n * 10 + d);
            if all_digits(digits) {
                number_of_grows(digits, i - from + 1);
            }
        }
        if n > u64::MAX / 10 || n * 10 > u64::MAX - d {
            return None;
        }
        n = n * 10 + d;
        i = i + 1;
    }
    assert(digits.take(i - from) =~= digits);
    Some(n)
}

/// What `str::to_lowercase` of the standard library makes of `s`.
pub uninterp spec fn lowercase(s: Seq<char>) -> Seq<char>;

/// `str::to_lowercase` of the standard library: the Unicode lower case of a
/// string. A string of ASCII characters keeps its length, and only its letters
/// `A` to `Z` change, to `a` to `z`.
#[verifier::external_body]
pub(crate) fn to_lower(s: &str) -> (r: String)
    ensures
        r@ == lowercase(s@),
        vstd::utf8::is_ascii_chars(s@) ==> r@.len() == s@.len() && forall|i: int|
            0 <= i < s@.len() ==> #[trigger] r@[i] as int == case_code(s@[i]),
{
    s.to_lowercase()
}

/// What `String::from_utf8_lossy` of the standard library makes of `bytes`.
pub uninterp spec fn lossy_text(bytes: Seq<u8>) -> Seq<char>;

/// `String::from_utf8_lossy` of the standard library: the text that the bytes
/// encode, with a replacement character for each part that is not UTF-8. Valid
/// UTF-8 is decoded as it stands.
#[verifier::external_body]
pub(crate) fn decode_lossy(bytes: &[u8]) -> (r: String)
    ensures
        r@ == lossy_text(bytes@),
        vstd::utf8::valid_utf8(bytes@) ==> r@ == vstd::utf8::decode_utf8(bytes@),
{
    String::from_utf8_lossy(bytes).into_owned()
}

/// `str::from_utf8` of the standard library: the text that the bytes encode,
/// where all of them are valid UTF-8.
#[verifier::external_body]
pub(crate) fn decode_strict(bytes: &[u8]) -> (r: Option<String>)
    ensures
        r is Some <==> vstd::utf8::valid_utf8(bytes@),
        r matches Some(s) ==> s@ == vstd::utf8::decode_utf8(bytes@),
{
    std::str::from_utf8(bytes).ok().map(|s| s.to_string())
}

/// A text ends with another one exactly where it is some text followed by it.
pub proof fn suffixes_stand_at_the_end(s: Seq<char>, a: Seq<char>, pat: Seq<char>)
    ensures
        has_suffix(a + pat, pat),
        has_suffix(s, pat) <==> exists|b: Seq<char>| s == #[trigger] (b + pat),
{
    let all = a + pat;
    assert(all.subrange(a.len() as int, all.len() as int) =~= pat);
    if has_suffix(s, pat) {
        let b = s.take(s.len() - pat.len());
        assert(s =~= b + pat);
    }
    if exists|b: Seq<char>| s == #[trigger] (b + pat) {
        let b = choose|b: Seq<char>| s == #[trigger] (b + pat);
        assert(s.subrange(b.len() as int, s.len() as int) =~= pat);
    }
}

/// A text holds another one exactly where it is that one between two texts.
pub proof fn parts_stand_between(s: Seq<char>, a: Seq<char>, pat: Seq<char>, b: Seq<char>)
    ensures
        contains(a + pat + b, pat),
        contains(s, pat) <==> exists|c: Seq<char>, d: Seq<char>| s == #[trigger] (c + pat + d),
{
    let all = a + pat + b;
    let at = a.len() as int;
    assert(all.subrange(at, at + pat.len()) =~= pat);
    assert(occurs_at(all, pat, at));
    if contains(s, pat) {
        let i = choose|i: int| occurs_at(s, pat, i);
        let c = s.take(i);
        let d = s.skip(i + pat.len());
        assert(s =~= c + pat + d);
    }
    if exists|c: Seq<char>, d: Seq<char>| s == #[trigger] (c + pat + d) {
        let (c, d) = choose|c: Seq<char>, d: Seq<char>| s == #[trigger] (c + pat + d);
        let i = c.len() as int;
        assert(s.subrange(i, i + pat.len()) =~= pat);
        assert(occurs_at(s, pat, i));
    }
}

/// Replacing begins with the first occurrence, leaves what stands before it, and
/// goes on behind it.
pub proof fn replacing_goes_from_the_left(
    a: Seq<char>,
    pat: Seq<char>,
    rest: Seq<char>,
    with: Seq<char>,
)
    requires
        pat.len() > 0,
        forall|i: int| 0 <= i < a.len() ==> !occurs_at(a + pat + rest, pat, i),
    ensures
        replaced(a + pat + rest, pat, with) == a + with + replaced(rest, pat, with),
    decreases a.len(),
{
    let s = a + pat + rest;
    if a.len() == 0 {
        assert(s.subrange(0, pat.len() as int) =~= pat);
        assert(s.skip(pat.len() as int) =~= rest);
        assert(a + with + replaced(rest, pat, with) =~= with + replaced(rest, pat, with));
    } else {
        let b = a.skip(1);
        assert(!occurs_at(s, pat, 0));
        assert(s.skip(1) =~= b + pat + rest);
        assert forall|i: int| 0 <= i < b.len() implies !occurs_at(b + pat + rest, pat, i) by {
            assert(!occurs_at(s, pat, i + 1));
            if occurs_at(b + pat + rest, pat, i) {
                assert(s.subrange(i + 1, i + 1 + pat.len()) =~= (b + pat + rest).subrange(
                    i,
                    i + pat.len(),
                ));
            }
        }
        replacing_goes_from_the_left(b, pat, rest, with);
        assert(seq![a[0]] + (b + with + replaced(rest, pat, with)) =~= a + with + replaced(
            rest,
            pat,
            with,
        ));
    }
}

/// Replacing what does not occur changes nothing.
pub proof fn nothing_to_replace(s: Seq<char>, pat: Seq<char>, with: Seq<char>)
    requires
        !contains(s, pat),
    ensures
        replaced(s, pat, with) == s,
    decreases s.len(),
{
    if pat.len() > 0 && s.len() > 0 {
        assert(!occurs_at(s, pat, 0));
        let rest = s.skip(1);
        if contains(rest, pat) {
            let i = choose|i: int| occurs_at(rest, pat, i);
            assert(s.subrange(i + 1, i + 1 + pat.len()) =~= rest.subrange(i, i + pat.len()));
            assert(occurs_at(s, pat, i + 1));
        }
        nothing_to_replace(rest, pat, with);
        assert(seq![s[0]] + rest =~= s);
    }
}

/// The two cases of one ASCII letter.
pub open spec fn two_cases(x: char, y: char) -> bool {
    ||| 'a' <= x <= 'z' && x as int == y as int + 32
    ||| 'a' <= y <= 'z' && y as int == x as int + 32
}

/// Texts are the same up to case exactly where they are as long as each other, and
/// differ at most in the case of ASCII letters.
pub proof fn only_the_case_of_letters_is_ignored(a: Seq<char>, b: Seq<char>)
    ensures
        same_ignoring_case(a, b) <==> (a.len() == b.len() && forall|i: int|
            0 <= i < a.len() ==> a[i] == b[i] || #[trigger] two_cases(a[i], b[i])),
{
    assert forall|x: char, y: char| #[trigger] case_code(x) == #[trigger] case_code(y) implies x
        == y || two_cases(x, y) by {}
    if same_ignoring_case(a, b) {
        assert forall|i: int| 0 <= i < a.len() implies a[i] == b[i] || #[trigger] two_cases(
            a[i],
            b[i],
        ) by {
            assert(case_code(a[i]) == case_code(b[i]));
        }
    }
    if a.len() == b.len() && forall|i: int|
        0 <= i < a.len() ==> a[i] == b[i] || #[trigger] two_cases(a[i], b[i]) {
        assert forall|i: int| 0 <= i < a.len() implies case_code(#[trigger] a[i]) == case_code(
            b[i],
        ) by {
            assert(a[i] == b[i] || two_cases(a[i], b[i]));
        }
    }
}

/// `s` holds nothing but white space.
pub open spec fn blank(s: Seq<char>) -> bool {
    forall|i: int| 0 <= i < s.len() ==> is_white(#[trigger] s[i])
}

/// `s` neither begins nor ends with white space.
pub open spec fn no_margin(s: Seq<char>) -> bool {
    s.len() > 0 ==> !is_white(s[0]) && !is_white(s.last())
}

/// Trimming takes off the white space on both sides, all of it and nothing else.
pub proof fn trimming_leaves_the_middle(a: Seq<char>, middle: Seq<char>, b: Seq<char>)
    requires
        blank(a),
        no_margin(middle),
        blank(b),
    ensures
        trimmed(a + middle + b) == middle,
{
    start_of(a, middle + b);
    assert(a + (middle + b) =~= a + middle + b);
    if middle.len() > 0 {
        assert((middle + b)[0] == middle[0]);
        assert(trimmed_start(middle + b) == middle + b);
        end_of(middle, b);
    } else {
        assert(middle + b =~= b + Seq::<char>::empty());
        start_of(b, Seq::empty());
        assert(trimmed(a + middle + b) =~= middle);
    }
}

proof fn start_of(a: Seq<char>, rest: Seq<char>)
    requires
        blank(a),
    ensures
        trimmed_start(a + rest) == trimmed_start(rest),
    decreases a.len(),
{
    let s = a + rest;
    if a.len() == 0 {
        assert(s =~= rest);
    } else {
        assert(s[0] == a[0]);
        assert(s.skip(1) =~= a.skip(1) + rest);
        start_of(a.skip(1), rest);
    }
}

proof fn end_of(s: Seq<char>, b: Seq<char>)
    requires
        blank(b),
        s.len() > 0 ==> !is_white(s.last()),
    ensures
        trimmed_end(s + b) == s,
    decreases b.len(),
{
    let all = s + b;
    if b.len() == 0 {
        assert(all =~= s);
    } else {
        assert(all.last() == b.last());
        assert(all.drop_last() =~= s + b.drop_last());
        end_of(s, b.drop_last());
    }
}

/// The characters that a text begins with are dropped, all of them and no others.
pub proof fn leading_characters_are_dropped(lead: Seq<char>, rest: Seq<char>, c: char)
    requires
        forall|i: int| 0 <= i < lead.len() ==> #[trigger] lead[i] == c,
        rest.len() > 0 ==> rest[0] != c,
    ensures
        without_leading(lead + rest, c) == rest,
    decreases lead.len(),
{
    let s = lead + rest;
    if lead.len() == 0 {
        assert(s =~= rest);
    } else {
        assert(s[0] == lead[0]);
        assert(s.skip(1) =~= lead.skip(1) + rest);
        leading_characters_are_dropped(lead.skip(1), rest, c);
    }
}

/// The first word of a text is what stands between the white space that the text
/// begins with and the next white space, if there is any.
pub proof fn first_word_stands_before_white_space(
    pad: Seq<char>,
    word: Seq<char>,
    rest: Seq<char>,
)
    requires
        blank(pad),
        forall|i: int| 0 <= i < word.len() ==> !is_white(#[trigger] word[i]),
        rest.len() > 0 ==> is_white(rest[0]),
    ensures
        word.len() > 0 ==> first_word_of(pad + word + rest) == Some(word),
        first_word_of(pad) is None,
{
    start_of(pad, Seq::empty());
    assert(pad + Seq::<char>::empty() =~= pad);
    if word.len() > 0 {
        start_of(pad, word + rest);
        assert(pad + (word + rest) =~= pad + word + rest);
        assert((word + rest)[0] == word[0]);
        word_of(word, rest);
    }
}

proof fn word_of(word: Seq<char>, rest: Seq<char>)
    requires
        forall|i: int| 0 <= i < word.len() ==> !is_white(#[trigger] word[i]),
        rest.len() > 0 ==> is_white(rest[0]),
    ensures
        word_prefix(word + rest) == word,
    decreases word.len(),
{
    let s = word + rest;
    if word.len() == 0 {
        assert(s =~= rest);
    } else {
        assert(s[0] == word[0]);
        assert(s.skip(1) =~= word.skip(1) + rest);
        word_of(word.skip(1), rest);
        assert(seq![word[0]] + word.skip(1) =~= word);
    }
}

/// The last segment of a text is what stands behind its last separator, or all of
/// it where there is none.
pub proof fn last_segment_stands_behind_the_separator(
    before: Seq<char>,
    segment: Seq<char>,
    sep: char,
)
    requires
        forall|i: int| 0 <= i < segment.len() ==> #[trigger] segment[i] != sep,
    ensures
        last_segment_of(before.push(sep) + segment, sep) == segment,
        last_segment_of(segment, sep) == segment,
    decreases segment.len(),
{
    let s = before.push(sep) + segment;
    if segment.len() == 0 {
        assert(s.last() == sep);
        assert(last_segment_of(segment, sep) =~= segment);
    } else {
        last_segment_stands_behind_the_separator(before, segment.drop_last(), sep);
        assert(s.drop_last() =~= before.push(sep) + segment.drop_last());
        assert(s.last() == segment.last());
        assert(segment.drop_last().push(segment.last()) =~= segment);
    }
}

/// A text is split into its lines at the line feeds. A line keeps all its
/// characters but one carriage return before its line feed.
pub proof fn lines_are_split_at_line_feeds(line: Seq<char>, rest: Seq<char>)
    requires
        forall|i: int| 0 <= i < line.len() ==> #[trigger] line[i] != '\n',
    ensures
        lines_of(Seq::empty()) == Seq::<Seq<char>>::empty(),
        line.len() > 0 ==> lines_of(line) == seq![line],
        !(line.len() > 0 && line.last() == '\r') ==> lines_of(line.push('\n') + rest) == seq![line]
            + lines_of(rest),
        lines_of(line.push('\r').push('\n') + rest) == seq![line] + lines_of(rest),
{
    assert(line + Seq::<char>::empty() =~= line);
    line_end_of(line, Seq::empty());
    one_line(line, rest);
    let cr = line.push('\r');
    assert forall|i: int| 0 <= i < cr.len() implies #[trigger] cr[i] != '\n' by {
        if i < line.len() {
            assert(cr[i] == line[i]);
        }
    }
    one_line(cr, rest);
    assert(cr.drop_last() =~= line);
}

proof fn one_line(line: Seq<char>, rest: Seq<char>)
    requires
        forall|i: int| 0 <= i < line.len() ==> #[trigger] line[i] != '\n',
    ensures
        lines_of(line.push('\n') + rest) == seq![without_return(line)] + lines_of(rest),
{
    let s = line.push('\n') + rest;
    let tail = seq!['\n'] + rest;
    assert(s =~= line + tail);
    line_end_of(line, tail);
    assert(s.take(line.len() as int) =~= line);
    assert(s.skip(line.len() as int + 1) =~= rest);
}

proof fn line_end_of(line: Seq<char>, tail: Seq<char>)
    requires
        forall|i: int| 0 <= i < line.len() ==> #[trigger] line[i] != '\n',
        tail.len() > 0 ==> tail[0] == '\n',
    ensures
        line_end(line + tail) == line.len(),
    decreases line.len(),
{
    let s = line + tail;
    if line.len() == 0 {
        assert(s =~= tail);
    } else {
        assert(s[0] == line[0]);
        assert(s.skip(1) =~= line.skip(1) + tail);
        line_end_of(line.skip(1), tail);
    }
}

/// Two lists, one joined after the other, are joined with one separator between
/// them.
pub proof fn joining_is_associative(a: Seq<Seq<char>>, b: Seq<Seq<char>>, sep: Seq<char>)
    ensures
        joined(Seq::empty(), sep) == Seq::<char>::empty(),
        a.len() == 1 ==> joined(a, sep) == a[0],
        a.len() > 0 && b.len() > 0 ==> joined(a + b, sep) == joined(a, sep) + sep + joined(b, sep),
    decreases b.len(),
{
    if a.len() > 0 && b.len() > 0 {
        let all = a + b;
        assert(all.last() == b.last());
        assert(all.drop_last() =~= a + b.drop_last());
        if b.len() == 1 {
            assert(all.drop_last() =~= a);
        } else {
            joining_is_associative(a, b.drop_last(), sep);
            assert(joined(all, sep) =~= joined(a, sep) + sep + joined(b, sep));
        }
    }
}

/// A number reads back from its digits, with any zeros or one plus sign before
/// them, where it is small enough; a larger one does not, and neither does a text
/// that holds anything else.
pub proof fn numbers_read_back(zeros: Seq<char>, n: nat)
    requires
        forall|i: int| 0 <= i < zeros.len() ==> #[trigger] zeros[i] == '0',
    ensures
        parsed_u64(zeros + decimal(n)) == (if n <= u64::MAX {
            Some(n as u64)
        } else {
            None
        }),
        parsed_u64(seq!['+'] + (zeros + decimal(n))) == parsed_u64(zeros + decimal(n)),
{
    let s = zeros + decimal(n);
    decimal_digits(n);
    zeros_do_not_count(zeros, decimal(n));
    assert(all_digits(s)) by {
        assert forall|i: int| 0 <= i < s.len() implies '0' <= #[trigger] s[i] <= '9' by {
            if i < zeros.len() {
                assert(s[i] == zeros[i]);
            } else {
                assert(s[i] == decimal(n)[i - zeros.len()]);
            }
        }
    }
    assert(s[0] != '+') by {
        assert('0' <= s[0] <= '9');
    }
    let t = seq!['+'] + s;
    assert(t.skip(1) =~= s);
}

/// A text that holds anything but digits behind an optional plus sign, or nothing,
/// is no number.
pub proof fn only_digits_make_a_number(s: Seq<char>, i: int)
    requires
        0 <= i < s.len(),
        !('0' <= s[i] <= '9'),
        i > 0 || s[i] != '+',
    ensures
        parsed_u64(s) is None,
        parsed_u64(Seq::empty()) is None,
        parsed_u64(seq!['+']) is None,
{
    assert(seq!['+'].skip(1) =~= Seq::<char>::empty());
    if s[0] == '+' {
        assert(s.skip(1)[i - 1] == s[i]);
    }
}

proof fn decimal_digits(n: nat)
    ensures
        decimal(n).len() > 0,
        all_digits(decimal(n)),
        number_of(decimal(n)) == n,
    decreases n,
{
    if n < 10 {
        assert(decimal(n).drop_last() =~= Seq::<char>::empty());
        assert(number_of(Seq::empty()) == 0);
        assert(decimal(n).last() == digit(n));
    } else {
        decimal_digits(n / 10);
        let s = decimal(n / 10);
        let t = decimal(n);
        assert(t.drop_last() =~= s);
        assert(t.last() == digit(n % 10));
        assert(number_of(t) == number_of(s) * 10 + n % 10);
        assert forall|i: int| 0 <= i < t.len() implies '0' <= #[trigger] t[i] <= '9' by {
            if i < s.len() {
                assert(t[i] == s[i]);
            }
        }
    }
}

proof fn zeros_do_not_count(zeros: Seq<char>, s: Seq<char>)
    requires
        forall|i: int| 0 <= i < zeros.len() ==> #[trigger] zeros[i] == '0',
        all_digits(s),
    ensures
        number_of(zeros + s) == number_of(s),
    decreases zeros.len() + s.len(),
{
    let all = zeros + s;
    if s.len() > 0 {
        assert(all.drop_last() =~= zeros + s.drop_last());
        assert(all.last() == s.last());
        assert forall|i: int| 0 <= i < s.drop_last().len() implies '0'
            <= #[trigger] s.drop_last()[i] <= '9' by {
            assert(s.drop_last()[i] == s[i]);
        }
        zeros_do_not_count(zeros, s.drop_last());
    } else if zeros.len() > 0 {
        let fewer = zeros.drop_last();
        assert(all.drop_last() =~= fewer + s);
        assert(all.last() == zeros.last());
        zeros_do_not_count(fewer, s);
    }
}

/// Digits are written in base ten, without zeros before them.
pub proof fn numbers_are_written_in_base_ten(n: nat, d: nat)
    requires
        d < 10,
    ensures
        n > 0 ==> decimal(10 * n + d) == decimal(n) + decimal(d),
        decimal(d).len() == 1,
        decimal(d)[0] as int == 48 + d,
{
    if n > 0 {
        assert((10 * n + d) / 10 == n && (10 * n + d) % 10 == d);
        assert(decimal(10 * n + d) =~= decimal(n) + decimal(d));
    }
}

/// The view of a list of strings shows each of them, and that of an optional string
/// shows it where there is one.
pub proof fn strings_are_shown_as_they_are(list: Seq<String>, s: String)
    ensures
        texts(list).len() == list.len(),
        forall|i: int| 0 <= i < list.len() ==> #[trigger] texts(list)[i] == list[i]@,
        text_of(Some(s)) == Some(s@),
        text_of(None) is None,
{
}

/// White space in ASCII is the space and the five control characters from the tab to
/// the carriage return; beyond it there are nineteen more characters.
pub proof fn white_space_is_known(c: char)
    ensures
        (c as int) < 128 ==> (is_white(c) <==> c == ' ' || 9 <= c as int <= 13),
        c as int >= 128 ==> (is_white(c) <==> c as int == 0x85 || c as int == 0xa0 || c as int
            == 0x1680 || 0x2000 <= c as int <= 0x200a || c as int == 0x2028 || c as int == 0x2029
            || c as int == 0x202f || c as int == 0x205f || c as int == 0x3000),
{
}

} // verus!

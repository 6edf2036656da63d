//! Character-level building blocks for the text transformations.
//!
//! Text is modelled as `Seq<char>`. The executable functions that search or
//! cut a text work on `&[char]`, so that every position can be reached in
//! constant time; `chars_of` and `string_of` convert from and to strings.

use vstd::prelude::*;
use vstd::string::StringExecFns;

verus! {

/// Whether `c` carries the Unicode `White_Space` property.
pub open spec fn is_space(c: char) -> bool {
    let n = c as u32;
    ||| (0x09 <= n && n <= 0x0d)
    ||| n == 0x20
    ||| n == 0x85
    ||| n == 0xa0
    ||| n == 0x1680
    ||| (0x2000 <= n && n <= 0x200a)
    ||| n == 0x2028
    ||| n == 0x2029
    ||| n == 0x202f
    ||| n == 0x205f
    ||| n == 0x3000
}

/// Whether `needle` stands in `hay` at position `at`.
pub open spec fn occurs_at(hay: Seq<char>, needle: Seq<char>, at: int) -> bool {
    &&& 0 <= at
    &&& at + needle.len() <= hay.len()
    &&& hay.subrange(at, at + needle.len()) =~= needle
}

/// Whether `hay` begins with `needle`.
pub open spec fn has_prefix(hay: Seq<char>, needle: Seq<char>) -> bool {
    occurs_at(hay, needle, 0)
}

/// Whether `needle` stands somewhere in `hay`.
pub open spec fn contains_text(hay: Seq<char>, needle: Seq<char>) -> bool {
    exists|at: int| occurs_at(hay, needle, at)
}

/// The first position at or after `from` where `needle` stands in `hay`.
pub open spec fn find_from(hay: Seq<char>, needle: Seq<char>, from: int) -> Option<int>
    decreases hay.len() - from,
{
    if from < 0 || from + needle.len() > hay.len() {
        None
    } else if occurs_at(hay, needle, from) {
        Some(from)
    } else {
        find_from(hay, needle, from + 1)
    }
}

/// The first position where `needle` stands in `hay`.
pub open spec fn find_first(hay: Seq<char>, needle: Seq<char>) -> Option<int> {
    find_from(hay, needle, 0)
}

/// The last position at or before `from` where `needle` stands in `hay`.
pub open spec fn find_back_from(hay: Seq<char>, needle: Seq<char>, from: int) -> Option<int>
    decreases from + 1,
{
    if from < 0 {
        None
    } else if occurs_at(hay, needle, from) {
        Some(from)
    } else {
        find_back_from(hay, needle, from - 1)
    }
}

/// The last position where `needle` stands in `hay`.
pub open spec fn find_last(hay: Seq<char>, needle: Seq<char>) -> Option<int> {
    find_back_from(hay, needle, hay.len() - needle.len())
}

/// Whether `c` is a quotation mark, double or single.
pub open spec fn is_quote(c: char) -> bool {
    c == '"' || c == '\''
}

/// A class of characters that can be stripped from the ends of a text.
#[derive(Clone, Copy, Debug, PartialEq, Eq, Structural)]
pub enum CharClass {
    /// White space.
    Space,
    /// Quotation marks, double and single.
    Quote,
}

impl CharClass {
    /// Whether `c` is of this class.
    pub open spec fn holds(self, c: char) -> bool {
        match self {
            CharClass::Space => is_space(c),
            CharClass::Quote => is_quote(c),
        }
    }

    /// Whether `c` is of this class.
    pub fn test(&self, c: char) -> (r: bool)
        ensures
            r == self.holds(c),
    {
        match self {
            CharClass::Space => is_whitespace(c),
            CharClass::Quote => c == '"' || c == '\'',
        }
    }
}

/// `s` without its leading characters of the class.
pub open spec fn strip_start(s: Seq<char>, class: CharClass) -> Seq<char>
    decreases s.len(),
{
    if s.len() > 0 && class.holds(s[0]) {
        strip_start(s.skip(1), class)
    } else {
        s
    }
}

/// `s` without its trailing characters of the class.
pub open spec fn strip_end(s: Seq<char>, class: CharClass) -> Seq<char>
    decreases s.len(),
{
    if s.len() > 0 && class.holds(s.last()) {
        strip_end(s.drop_last(), class)
    } else {
        s
    }
}

/// `s` without its leading and trailing characters of the class.
pub open spec fn stripped(s: Seq<char>, class: CharClass) -> Seq<char> {
    strip_end(strip_start(s, class), class)
}

/// `s` without its leading and trailing white space.
pub open spec fn trim(s: Seq<char>) -> Seq<char> {
    stripped(s, CharClass::Space)
}

/// `s` without its leading and trailing quotation marks.
pub open spec fn unquoted(s: Seq<char>) -> Seq<char> {
    stripped(s, CharClass::Quote)
}

/// What a sequence of strings holds, one text for each string.
pub open spec fn texts_of(strings: Seq<String>) -> Seq<Seq<char>> {
    strings.map_values(|s: String| s@)
}

/// The texts of `parts` in order, with `sep` between each two neighbours.
pub open spec fn join(parts: Seq<Seq<char>>, sep: Seq<char>) -> Seq<char>
    decreases parts.len(),
{
    if parts.len() == 0 {
        Seq::empty()
    } else if parts.len() == 1 {
        parts[0]
    } else {
        join(parts.drop_last(), sep) + sep + parts.last()
    }
}

/// `text` with each `from` replaced by the text `to`.
pub open spec fn replaced_char(text: Seq<char>, from: char, to: Seq<char>) -> Seq<char>
    decreases text.len(),
{
    if text.len() == 0 {
        Seq::empty()
    } else if text.last() == from {
        replaced_char(text.drop_last(), from, to) + to
    } else {
        replaced_char(text.drop_last(), from, to).push(text.last())
    }
}

/// `text` with `prefix` put after each line break.
pub open spec fn with_line_prefix(text: Seq<char>, prefix: Seq<char>) -> Seq<char> {
    replaced_char(text, '\n', seq!['\n'] + prefix)
}

/// The character of the digit `d`.
pub open spec fn digit_char(d: int) -> char {
    if d == 0 {
        '0'
    } else if d == 1 {
        '1'
    } else if d == 2 {
        '2'
    } else if d == 3 {
        '3'
    } else if d == 4 {
        '4'
    } else if d == 5 {
        '5'
    } else if d == 6 {
        '6'
    } else if d == 7 {
        '7'
    } else if d == 8 {
        '8'
    } else {
        '9'
    }
}

/// The number `n` written in decimal digits.
pub open spec fn decimal(n: nat) -> Seq<char>
    decreases n,
{
    if n < 10 {
        seq![digit_char(n as int)]
    } else {
        decimal(n / 10).push(digit_char((n % 10) as int))
    }
}

/// Whether `text` is `lower` but for the case of its letters, `upper` being
/// `lower` in capital letters.
pub open spec fn same_ignoring_case(text: Seq<char>, lower: Seq<char>, upper: Seq<char>) -> bool {
    &&& text.len() == lower.len()
    &&& text.len() == upper.len()
    &&& forall|i: int| 0 <= i < text.len() ==> text[i] == lower[i] || text[i] == upper[i]
}

/// `text` without the occurrences of `part`, found from left to right, none
/// overlapping another.
pub open spec fn without_text(text: Seq<char>, part: Seq<char>) -> Seq<char>
    decreases text.len(),
{
    if part.len() == 0 || text.len() < part.len() {
        text
    } else if has_prefix(text, part) {
        without_text(text.skip(part.len() as int), part)
    } else {
        seq![text[0]] + without_text(text.skip(1), part)
    }
}

/// Whether `a` comes before `b` where the two are compared byte by byte, a
/// text coming before each text that it begins.
pub open spec fn bytes_before(a: Seq<u8>, b: Seq<u8>) -> bool
    decreases a.len(),
{
    if b.len() == 0 {
        false
    } else if a.len() == 0 {
        true
    } else if a[0] != b[0] {
        a[0] < b[0]
    } else {
        bytes_before(a.skip(1), b.skip(1))
    }
}

/// Whether the text `a` comes before the text `b` in the order of their
/// UTF-8 bytes.
pub open spec fn text_before(a: Seq<char>, b: Seq<char>) -> bool {
    bytes_before(vstd::utf8::encode_utf8(a), vstd::utf8::encode_utf8(b))
}

/// `find_from` returns the least position at or after `from`, if there is one.
pub proof fn lemma_find_from(hay: Seq<char>, needle: Seq<char>, from: int)
    requires
        0 <= from,
    ensures
        match find_from(hay, needle, from) {
            Some(at) => from <= at && occurs_at(hay, needle, at) && forall|j: int|
                from <= j < at ==> !occurs_at(hay, needle, j),
            None => forall|j: int| from <= j ==> !occurs_at(hay, needle, j),
        },
    decreases hay.len() - from,
{
    if from + needle.len() <= hay.len() && !occurs_at(hay, needle, from) {
        lemma_find_from(hay, needle, from + 1);
    }
}

/// `find_first` is `Some` exactly when `needle` stands somewhere in `hay`.
pub proof fn lemma_find_first_contains(hay: Seq<char>, needle: Seq<char>)
    ensures
        find_first(hay, needle) is Some <==> contains_text(hay, needle),
{
    lemma_find_from(hay, needle, 0);
    if contains_text(hay, needle) {
        let at = choose|at: int| occurs_at(hay, needle, at);
        assert(occurs_at(hay, needle, at));
    }
}

/// `find_back_from` returns the greatest position at or before `from`, if there is one.
pub proof fn lemma_find_back_from(hay: Seq<char>, needle: Seq<char>, from: int)
    ensures
        match find_back_from(hay, needle, from) {
            Some(at) => 0 <= at <= from && occurs_at(hay, needle, at) && forall|j: int|
                at < j <= from ==> !occurs_at(hay, needle, j),
            None => forall|j: int| 0 <= j <= from ==> !occurs_at(hay, needle, j),
        },
    decreases from + 1,
{
    if from >= 0 && !occurs_at(hay, needle, from) {
        lemma_find_back_from(hay, needle, from - 1);
    }
}

/// The characters of `s`, in order.
pub fn chars_of(s: &str) -> (out: Vec<char>)
    ensures
        out@ == s@,
{
    let mut out: Vec<char> = Vec::new();
    for c in it: s.chars()
        invariant
            it.seq() == s@,
            out@ == it.seq().take(it.index()),
    {
        out.push(c);
    }
    out
}

/// `String::push`: appends one character to the end of the string.
#[verifier::external_body]
fn push_char(s: &mut String, c: char)
    ensures
        final(s)@ == old(s)@.push(c),
{
    s.push(c)
}

/// The string made of `chars`, in order.
pub fn string_of(chars: &[char]) -> (out: String)
    ensures
        out@ == chars@,
{
    let mut out = String::new();
    let mut i: usize = 0;
    while i < chars.len()
        invariant
            i <= chars.len(),
            out@ == chars@.take(i as int),
        decreases chars.len() - i,
    {
        push_char(&mut out, chars[i]);
        i += 1;
    }
    out
}

/// Whether `c` is white space.
pub fn is_whitespace(c: char) -> (r: bool)
    ensures
        r == is_space(c),
{
    let n: u32 = c as u32;
    (0x09 <= n && n <= 0x0d) || n == 0x20 || n == 0x85 || n == 0xa0 || n == 0x1680 || (0x2000 <= n
        && n <= 0x200a) || n == 0x2028 || n == 0x2029 || n == 0x202f || n == 0x205f || n == 0x3000
}

/// Whether `needle` stands in `hay` at position `at`.
pub fn matches_at(hay: &[char], needle: &[char], at: usize) -> (r: bool)
    ensures
        r == occurs_at(hay@, needle@, at as int),
{
    if at > hay.len() || needle.len() > hay.len() - at {
        return false;
    }
    let mut i: usize = 0;
    while i < needle.len()
        invariant
            at + needle.len() <= hay.len(),
            i <= needle.len(),
            forall|j: int| 0 <= j < i ==> hay@[at + j] == needle@[j],
        decreases needle.len() - i,
    {
        if hay[at + i] != needle[i] {
            return false;
        }
        i += 1;
    }
    true
}

/// Whether `a` and `b` hold the same characters.
pub fn same_chars(a: &[char], b: &[char]) -> (r: bool)
    ensures
        r == (a@ == b@),
{
    if a.len() != b.len() {
        return false;
    }
    let same = matches_at(a, b, 0);
    assert(a@.subrange(0, a.len() as int) =~= a@);
    same
}

/// Whether `a` and `b` hold the same text.
pub fn same_text(a: &str, b: &str) -> (r: bool)
    ensures
        r == (a@ == b@),
{
    let left = a.as_bytes();
    let right = b.as_bytes();
    proof {
        vstd::utf8::encode_utf8_decode_utf8(a@);
        vstd::utf8::encode_utf8_decode_utf8(b@);
    }
    if left.len() != right.len() {
        return false;
    }
    let mut i: usize = 0;
    while i < left.len()
        invariant
            left@.len() == right@.len(),
            a@ == b@ ==> left@ == right@,
            i <= left.len(),
            forall|j: int| 0 <= j < i ==> left@[j] == right@[j],
        decreases left.len() - i,
    {
        if left[i] != right[i] {
            return false;
        }
        i += 1;
    }
    assert(left@ =~= right@);
    true
}

/// Whether `a` comes before `b` in the order of their UTF-8 bytes.
pub fn comes_before(a: &str, b: &str) -> (before: bool)
    ensures
        before == text_before(a@, b@),
{
    let left = a.as_bytes();
    let right = b.as_bytes();
    let mut i: usize = 0;
    proof {
        assert(left@.skip(0) =~= left@);
        assert(right@.skip(0) =~= right@);
    }
    loop
        invariant
            i <= left.len(),
            i <= right.len(),
            left@ == vstd::utf8::encode_utf8(a@),
            right@ == vstd::utf8::encode_utf8(b@),
            bytes_before(left@, right@) == bytes_before(
                left@.skip(i as int),
                right@.skip(i as int),
            ),
        decreases left.len() - i,
    {
        if i >= right.len() {
            return false;
        }
        if i >= left.len() {
            return true;
        }
        if left[i] != right[i] {
            return left[i] < right[i];
        }
        proof {
            assert(left@.skip(i as int).skip(1) =~= left@.skip(i + 1));
            assert(right@.skip(i as int).skip(1) =~= right@.skip(i + 1));
        }
        i += 1;
    }
}

/// A position as the specifications count it.
pub open spec fn position(at: Option<usize>) -> Option<int> {
    match at {
        Some(i) => Some(i as int),
        None => None,
    }
}

/// The first position at or after `from` where `needle` stands in `hay`.
pub fn find_in(hay: &[char], needle: &[char], from: usize) -> (at: Option<usize>)
    ensures
        position(at) == find_from(hay@, needle@, from as int),
{
    if needle.len() > hay.len() || from > hay.len() - needle.len() {
        return None;
    }
    let last: usize = hay.len() - needle.len();
    let mut i: usize = from;
    while i <= last
        invariant
            last == hay.len() - needle.len(),
            from <= i <= last + 1,
            find_from(hay@, needle@, from as int) == find_from(hay@, needle@, i as int),
        decreases last + 1 - i,
    {
        if matches_at(hay, needle, i) {
            return Some(i);
        }
        i += 1;
    }
    None
}

/// The last position where `needle` stands in `hay`.
pub fn rfind_in(hay: &[char], needle: &[char]) -> (at: Option<usize>)
    ensures
        position(at) == find_last(hay@, needle@),
{
    if needle.len() > hay.len() {
        return None;
    }
    let mut i: usize = hay.len() - needle.len();
    loop
        invariant
            i <= hay.len() - needle.len(),
            find_last(hay@, needle@) == find_back_from(hay@, needle@, i as int),
        decreases i,
    {
        if matches_at(hay, needle, i) {
            return Some(i);
        }
        if i == 0 {
            return None;
        }
        i -= 1;
    }
}

/// Whether `needle` stands somewhere in `hay`.
pub fn contains_in(hay: &[char], needle: &[char]) -> (r: bool)
    ensures
        r == contains_text(hay@, needle@),
{
    proof {
        lemma_find_first_contains(hay@, needle@);
    }
    find_in(hay, needle, 0).is_some()
}

/// A copy of the characters of `s` from `from` up to `to`.
pub fn copy_range(s: &[char], from: usize, to: usize) -> (out: Vec<char>)
    requires
        from <= to <= s.len(),
    ensures
        out@ == s@.subrange(from as int, to as int),
{
    let mut out: Vec<char> = Vec::new();
    let mut i: usize = from;
    while i < to
        invariant
            from <= i <= to <= s.len(),
            out@ == s@.subrange(from as int, i as int),
        decreases to - i,
    {
        out.push(s[i]);
        i += 1;
    }
    out
}

/// Appends the characters of `src` to `dst`.
pub fn append_chars(dst: &mut Vec<char>, src: &[char])
    ensures
        final(dst)@ == old(dst)@ + src@,
{
    let mut i: usize = 0;
    while i < src.len()
        invariant
            i <= src.len(),
            dst@ == old(dst)@ + src@.take(i as int),
        decreases src.len() - i,
    {
        dst.push(src[i]);
        i += 1;
    }
}

/// Skipping `k` leading characters of the class does not change what
/// `strip_start` gives.
pub proof fn lemma_strip_start_skip(s: Seq<char>, class: CharClass, k: int)
    requires
        0 <= k <= s.len(),
        forall|j: int| 0 <= j < k ==> class.holds(s[j]),
    ensures
        strip_start(s, class) == strip_start(s.skip(k), class),
    decreases k,
{
    if k == 0 {
        assert(s.skip(0) =~= s);
    } else {
        lemma_strip_start_skip(s.skip(1), class, k - 1);
        assert(s.skip(1).skip(k - 1) =~= s.skip(k));
    }
}

/// Dropping trailing characters of the class does not change what
/// `strip_end` gives.
pub proof fn lemma_strip_end_take(s: Seq<char>, class: CharClass, k: int)
    requires
        0 <= k <= s.len(),
        forall|j: int| k <= j < s.len() ==> class.holds(s[j]),
    ensures
        strip_end(s, class) == strip_end(s.take(k), class),
    decreases s.len() - k,
{
    if k == s.len() {
        assert(s.take(k) =~= s);
    } else {
        lemma_strip_end_take(s.drop_last(), class, k);
        assert(s.drop_last().take(k) =~= s.take(k));
    }
}

/// What `strip_start` gives is the end of the text, and does not begin with
/// a character of the class.
pub proof fn lemma_strip_start_form(s: Seq<char>, class: CharClass)
    ensures
        exists|k: int| 0 <= k <= s.len() && strip_start(s, class) == #[trigger] s.skip(k),
        strip_start(s, class).len() > 0 ==> !class.holds(strip_start(s, class)[0]),
    decreases s.len(),
{
    if s.len() > 0 && class.holds(s[0]) {
        lemma_strip_start_form(s.skip(1), class);
        let k = choose|k: int|
            0 <= k <= s.skip(1).len() && strip_start(s.skip(1), class) == #[trigger] s.skip(1).skip(k);
        assert(s.skip(1).skip(k) =~= s.skip(k + 1));
    } else {
        assert(s.skip(0) =~= s);
    }
}

/// What `strip_end` gives is the beginning of the text, and does not end
/// with a character of the class.
pub proof fn lemma_strip_end_form(s: Seq<char>, class: CharClass)
    ensures
        exists|k: int| 0 <= k <= s.len() && strip_end(s, class) == #[trigger] s.take(k),
        strip_end(s, class).len() > 0 ==> !class.holds(strip_end(s, class).last()),
    decreases s.len(),
{
    if s.len() > 0 && class.holds(s.last()) {
        lemma_strip_end_form(s.drop_last(), class);
        let k = choose|k: int|
            0 <= k <= s.drop_last().len() && strip_end(s.drop_last(), class)
                == #[trigger] s.drop_last().take(k);
        assert(s.drop_last().take(k) =~= s.take(k));
    } else {
        assert(s.take(s.len() as int) =~= s);
    }
}

/// Stripping a text a second time strips nothing more: trimming and
/// unquoting give a text that they leave as it is.
pub proof fn lemma_stripped_twice(s: Seq<char>, class: CharClass)
    ensures
        stripped(stripped(s, class), class) == stripped(s, class),
        trim(trim(s)) == trim(s),
        unquoted(unquoted(s)) == unquoted(s),
{
    lemma_stripped_once_more(s, class);
    lemma_stripped_once_more(s, CharClass::Space);
    lemma_stripped_once_more(s, CharClass::Quote);
}

/// Stripping a text a second time strips nothing more.
proof fn lemma_stripped_once_more(s: Seq<char>, class: CharClass)
    ensures
        stripped(stripped(s, class), class) == stripped(s, class),
{
    let begun = strip_start(s, class);
    let done = strip_end(begun, class);
    lemma_strip_start_form(s, class);
    lemma_strip_end_form(begun, class);
    if done.len() > 0 {
        let k = choose|k: int| 0 <= k <= begun.len() && done == #[trigger] begun.take(k);
        assert(done[0] == begun[0]);
    }
}

/// The bounds of `s` without its leading and trailing characters of the class.
pub fn strip_bounds(s: &[char], class: CharClass) -> (bounds: (usize, usize))
    ensures
        bounds.0 <= bounds.1 <= s.len(),
        s@.subrange(bounds.0 as int, bounds.1 as int) == stripped(s@, class),
{
    let mut a: usize = 0;
    while a < s.len() && class.test(s[a])
        invariant
            a <= s.len(),
            forall|j: int| 0 <= j < a ==> class.holds(s@[j]),
        decreases s.len() - a,
    {
        a += 1;
    }
    let mut b: usize = s.len();
    while b > a && class.test(s[b - 1])
        invariant
            a <= b <= s.len(),
            forall|j: int| b <= j < s.len() ==> class.holds(s@[j]),
        decreases b,
    {
        b -= 1;
    }
    proof {
        lemma_strip_start_skip(s@, class, a as int);
        let rest = s@.skip(a as int);
        assert forall|j: int| b - a <= j < rest.len() implies class.holds(rest[j]) by {
            assert(rest[j] == s@[a + j]);
        }
        lemma_strip_end_take(rest, class, b - a);
        let kept = rest.take(b - a);
        assert(kept =~= s@.subrange(a as int, b as int));
    }
    (a, b)
}

/// `s` without its leading and trailing characters of the class.
pub fn strip_chars(s: &[char], class: CharClass) -> (out: Vec<char>)
    ensures
        out@ == stripped(s@, class),
{
    let (a, b) = strip_bounds(s, class);
    copy_range(s, a, b)
}

/// `s` without its leading and trailing white space.
pub fn trim_chars(s: &[char]) -> (out: Vec<char>)
    ensures
        out@ == trim(s@),
{
    strip_chars(s, CharClass::Space)
}

/// Appends `text` to `texts`.
pub fn push_text(texts: &mut Vec<String>, text: String)
    ensures
        texts_of(final(texts)@) == texts_of(old(texts)@).push(text@),
{
    texts.push(text);
}

/// The strings of `parts` in order, with `sep` between each two neighbours.
pub fn join_strings(parts: &Vec<String>, sep: &str) -> (out: String)
    ensures
        out@ == join(texts_of(parts@), sep@),
{
    let mut out = String::new();
    let mut i: usize = 0;
    while i < parts.len()
        invariant
            i <= parts.len(),
            out@ == join(texts_of(parts@).take(i as int), sep@),
        decreases parts.len() - i,
    {
        proof {
            let all = texts_of(parts@);
            assert(all.take(i + 1).drop_last() =~= all.take(i as int));
        }
        if i > 0 {
            out.append(sep);
        }
        out.append(parts[i].as_str());
        i += 1;
    }
    assert(texts_of(parts@).take(parts.len() as int) =~= texts_of(parts@));
    out
}

/// `text` with each `from` replaced by the text `to`.
pub fn replace_char(text: &[char], from: char, to: &[char]) -> (out: Vec<char>)
    ensures
        out@ == replaced_char(text@, from, to@),
{
    let mut out: Vec<char> = Vec::new();
    let mut i: usize = 0;
    while i < text.len()
        invariant
            i <= text.len(),
            out@ == replaced_char(text@.take(i as int), from, to@),
        decreases text.len() - i,
    {
        proof {
            assert(text@.take(i + 1).drop_last() =~= text@.take(i as int));
        }
        if text[i] == from {
            append_chars(&mut out, to);
        } else {
            out.push(text[i]);
        }
        i += 1;
    }
    assert(text@.take(text.len() as int) =~= text@);
    out
}

/// `text` with `prefix` put after each line break.
pub fn prefix_lines(text: &[char], prefix: &[char]) -> (out: Vec<char>)
    ensures
        out@ == with_line_prefix(text@, prefix@),
{
    let mut to: Vec<char> = Vec::new();
    to.push('\n');
    append_chars(&mut to, prefix);
    replace_char(text, '\n', &to)
}

/// The character of the digit `d`.
fn digit_of(d: usize) -> (c: char)
    requires
        d < 10,
    ensures
        c == digit_char(d as int),
{
    if d == 0 {
        '0'
    } else if d == 1 {
        '1'
    } else if d == 2 {
        '2'
    } else if d == 3 {
        '3'
    } else if d == 4 {
        '4'
    } else if d == 5 {
        '5'
    } else if d == 6 {
        '6'
    } else if d == 7 {
        '7'
    } else if d == 8 {
        '8'
    } else {
        '9'
    }
}

/// The digits of `n` behind one another, the last digit first.
spec fn digits_reversed(n: nat) -> Seq<char>
    decreases n,
{
    if n < 10 {
        seq![digit_char(n as int)]
    } else {
        seq![digit_char((n % 10) as int)] + digits_reversed(n / 10)
    }
}

/// Turned round, the digits from the last to the first are the number in
/// decimal.
proof fn lemma_digits_reversed(n: nat)
    ensures
        digits_reversed(n).reverse() == decimal(n),
    decreases n,
{
    if n < 10 {
        assert(digits_reversed(n).reverse() =~= decimal(n));
    } else {
        lemma_digits_reversed(n / 10);
        let head = seq![digit_char((n % 10) as int)];
        let tail = digits_reversed(n / 10);
        assert((head + tail).reverse() =~= tail.reverse().push(digit_char((n % 10) as int)));
    }
}

/// The number `n` written in decimal digits.
pub fn decimal_of(n: usize) -> (out: String)
    ensures
        out@ == decimal(n as nat),
{
    let mut digits: Vec<char> = Vec::new();
    let mut rest: usize = n;
    while rest >= 10
        invariant
            digits@ + digits_reversed(rest as nat) == digits_reversed(n as nat),
        decreases rest,
    {
        let ghost before = digits@;
        digits.push(digit_of(rest % 10));
        proof {
            assert(before.push(digit_char((rest % 10) as int)) + digits_reversed((rest / 10) as nat)
                =~= before + digits_reversed(rest as nat));
        }
        rest = rest / 10;
    }
    digits.push(digit_of(rest));
    let mut out: Vec<char> = Vec::new();
    let mut i: usize = digits.len();
    while i > 0
        invariant
            i <= digits.len(),
            out@ == digits@.reverse().take(digits.len() - i),
        decreases i,
    {
        i -= 1;
        out.push(digits[i]);
    }
    proof {
        lemma_digits_reversed(n as nat);
    }
    string_of(&out)
}

/// Whether `text` is `lower` but for the case of its letters.
pub fn matches_ignoring_case(text: &[char], lower: &[char], upper: &[char]) -> (r: bool)
    ensures
        r == same_ignoring_case(text@, lower@, upper@),
{
    if text.len() != lower.len() || text.len() != upper.len() {
        return false;
    }
    let mut i: usize = 0;
    while i < text.len()
        invariant
            text.len() == lower.len(),
            text.len() == upper.len(),
            i <= text.len(),
            forall|j: int| 0 <= j < i ==> text@[j] == lower@[j] || text@[j] == upper@[j],
        decreases text.len() - i,
    {
        if text[i] != lower[i] && text[i] != upper[i] {
            return false;
        }
        i += 1;
    }
    true
}

/// `text` without the occurrences of `part`.
pub fn remove_all(text: &[char], part: &[char]) -> (out: Vec<char>)
    ensures
        out@ == without_text(text@, part@),
{
    if part.len() == 0 {
        return copy_range(text, 0, text.len());
    }
    let mut out: Vec<char> = Vec::new();
    let mut i: usize = 0;
    proof {
        assert(text@.skip(0) =~= text@);
    }
    while i < text.len()
        invariant
            i <= text.len(),
            part.len() > 0,
            out@ + without_text(text@.skip(i as int), part@) == without_text(text@, part@),
        decreases text.len() - i,
    {
        let ghost rest = text@.skip(i as int);
        if matches_at(text, part, i) {
            proof {
                assert(rest.subrange(0, part@.len() as int) =~= text@.subrange(
                    i as int,
                    i + part@.len(),
                ));
                assert(rest.skip(part@.len() as int) =~= text@.skip(i + part@.len()));
            }
            i += part.len();
        } else {
            proof {
                if rest.len() >= part@.len() {
                    assert(rest.subrange(0, part@.len() as int) =~= text@.subrange(
                        i as int,
                        i + part@.len(),
                    ));
                    assert(rest.skip(1) =~= text@.skip(i + 1));
                    assert(out@.push(text@[i as int]) + without_text(text@.skip(i + 1), part@) =~= out@
                        + (seq![rest[0]] + without_text(rest.skip(1), part@)));
                } else {
                    assert(out@.push(text@[i as int]) + without_text(text@.skip(i + 1), part@) =~= out@
                        + rest);
                }
            }
            out.push(text[i]);
            i += 1;
        }
    }
    out
}

} // verus!

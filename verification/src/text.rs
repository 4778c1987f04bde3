//! Text as sequences of characters.
use vstd::prelude::*;
use vstd::utf8::*;

verus! {

/// `String::push`: appends one character to the end of the string.
pub assume_specification[ String::push ](s: &mut String, ch: char)
    ensures
        final(s)@ == old(s)@.push(ch),
;

/// The view of an optional string.
pub open spec fn text_view(text: Option<String>) -> Option<Seq<char>> {
    match text {
        Some(s) => Some(s@),
        None => None,
    }
}

/// The characters of `s`, in order.
pub(crate) fn chars_of(s: &str) -> (chars: Vec<char>)
    ensures
        chars@ == s@,
{
    let mut chars: Vec<char> = Vec::new();
    for c in it: s.chars()
        invariant
            chars@ == it.seq().take(it.index()),
            it.seq() == s@,
    {
        chars.push(c);
    }
    chars
}

/// The text made of `chars[from..to]`.
pub(crate) fn text_of(chars: &Vec<char>, from: usize, to: usize) -> (text: String)
    requires
        from <= to <= chars@.len(),
    ensures
        text@ == chars@.subrange(from as int, to as int),
{
    let mut text = String::new();
    for i in from..to
        invariant
            from <= to <= chars@.len(),
            text@ == chars@.subrange(from as int, i as int),
    {
        text.push(chars[i]);
    }
    text
}

/// The text that `bytes` encode in UTF-8; `None` where they encode none.
pub open spec fn utf8_text(bytes: Seq<u8>) -> Option<Seq<char>> {
    if valid_utf8(bytes) {
        Some(decode_utf8(bytes))
    } else {
        None
    }
}

/// `String::from_utf8`: succeeds exactly on well-formed UTF-8, with the text it encodes.
#[verifier::external_body]
pub(crate) fn string_from_utf8(bytes: Vec<u8>) -> (text: Option<String>)
    ensures
        text_view(text) == utf8_text(bytes@),
{
    String::from_utf8(bytes).ok()
}

/// What `str::to_lowercase` makes of a text, by the Unicode case mappings.
pub uninterp spec fn lowercase(s: Seq<char>) -> Seq<char>;

/// The lower case of an ASCII letter; every other character is its own.
pub open spec fn ascii_lowercase_char(c: char) -> char {
    if 'A' <= c <= 'Z' {
        (c as u32 + 32) as char
    } else {
        c
    }
}

/// `s` with its ASCII letters in lower case.
pub open spec fn ascii_lowercase(s: Seq<char>) -> Seq<char> {
    s.map_values(|c: char| ascii_lowercase_char(c))
}

/// `str::to_lowercase`: the result is named by [`lowercase`]. On text that is all ASCII
/// the Unicode mappings change the letters `A` to `Z` and nothing else.
#[verifier::external_body]
pub(crate) fn to_lowercase(s: &str) -> (lower: String)
    ensures
        lower@ == lowercase(s@),
        is_ascii_chars(s@) ==> lower@ == ascii_lowercase(s@),
{
    s.to_lowercase()
}

/// Whether `part` stands in `s` at `at`.
pub open spec fn occurs_at(s: Seq<char>, part: Seq<char>, at: int) -> bool {
    0 <= at && at + part.len() <= s.len() && s.subrange(at, at + part.len()) == part
}

/// Whether `part` stands anywhere in `s`.
pub open spec fn has_part(s: Seq<char>, part: Seq<char>) -> bool {
    exists|at: int| occurs_at(s, part, at)
}

/// Whether `s` begins with `part`.
pub open spec fn has_prefix(s: Seq<char>, part: Seq<char>) -> bool {
    occurs_at(s, part, 0)
}

/// Whether `part` stands in `s` at `at`.
pub(crate) fn text_occurs_at(s: &Vec<char>, part: &Vec<char>, at: usize) -> (found: bool)
    ensures
        found == occurs_at(s@, part@, at as int),
{
    if at > s.len() || s.len() - at < part.len() {
        return false;
    }
    for i in 0..part.len()
        invariant
            at + part.len() <= s.len(),
            forall|j: int| 0 <= j < i ==> s@[at + j] == part@[j],
    {
        if s[at + i] != part[i] {
            assert(s@.subrange(at as int, at + part@.len())[i as int] != part@[i as int]);
            return false;
        }
    }
    assert(s@.subrange(at as int, at + part@.len()) =~= part@);
    true
}

/// Whether `part` stands anywhere in `s`.
pub fn text_contains(s: &str, part: &str) -> (found: bool)
    ensures
        found == has_part(s@, part@),
{
    let s_chars = chars_of(s);
    let part_chars = chars_of(part);
    for at in 0..s_chars.len()
        invariant
            s_chars@ == s@,
            part_chars@ == part@,
            forall|i: int| 0 <= i < at ==> !#[trigger] occurs_at(s@, part@, i),
    {
        if text_occurs_at(&s_chars, &part_chars, at) {
            return true;
        }
    }
    let found = text_occurs_at(&s_chars, &part_chars, s_chars.len());
    assert(forall|i: int| i > s@.len() ==> !#[trigger] occurs_at(s@, part@, i));
    found
}

/// Whether the two texts are the same.
pub fn text_equals(a: &str, b: &str) -> (same: bool)
    ensures
        same == (a@ == b@),
{
    let a_chars = chars_of(a);
    let b_chars = chars_of(b);
    if a_chars.len() != b_chars.len() {
        return false;
    }
    let same = text_occurs_at(&a_chars, &b_chars, 0);
    assert(a@.subrange(0, a@.len() as int) =~= a@);
    same
}

/// The characters with the Unicode property `White_Space`.
pub open spec fn white_space(c: char) -> bool {
    ||| 0x9 <= c as u32 <= 0xd
    ||| c as u32 == 0x20
    ||| c as u32 == 0x85
    ||| c as u32 == 0xa0
    ||| c as u32 == 0x1680
    ||| 0x2000 <= c as u32 <= 0x200a
    ||| c as u32 == 0x2028
    ||| c as u32 == 0x2029
    ||| c as u32 == 0x202f
    ||| c as u32 == 0x205f
    ||| c as u32 == 0x3000
}

/// Whether `c` has the Unicode property `White_Space`.
pub fn is_white_space(c: char) -> (b: bool)
    ensures
        b == white_space(c),
{
    let n: u32 = c as u32;
    (0x9 <= n && n <= 0xd) || n == 0x20 || n == 0x85 || n == 0xa0 || n == 0x1680 || (0x2000 <= n && n
        <= 0x200a) || n == 0x2028 || n == 0x2029 || n == 0x202f || n == 0x205f || n == 0x3000
}

/// `s` without the white space it begins with.
pub open spec fn trimmed_start(s: Seq<char>) -> Seq<char>
    decreases s.len(),
{
    if s.len() > 0 && white_space(s[0]) {
        trimmed_start(s.skip(1))
    } else {
        s
    }
}

/// `s` without the white space it ends with.
pub open spec fn trimmed_end(s: Seq<char>) -> Seq<char>
    decreases s.len(),
{
    if s.len() > 0 && white_space(s.last()) {
        trimmed_end(s.drop_last())
    } else {
        s
    }
}

/// `s` without the white space at its two ends.
pub open spec fn trimmed(s: Seq<char>) -> Seq<char> {
    trimmed_end(trimmed_start(s))
}

/// The bounds of `chars[from..to]` without the white space at its two ends.
pub(crate) fn trim_bounds(chars: &Vec<char>, from: usize, to: usize) -> (bounds: (usize, usize))
    requires
        from <= to <= chars@.len(),
    ensures
        from <= bounds.0 <= bounds.1 <= to,
        chars@.subrange(bounds.0 as int, bounds.1 as int) == trimmed(
            chars@.subrange(from as int, to as int),
        ),
{
    let mut start = from;
    while start < to && is_white_space(chars[start])
        invariant
            from <= start <= to <= chars@.len(),
            trimmed_start(chars@.subrange(from as int, to as int)) == trimmed_start(
                chars@.subrange(start as int, to as int),
            ),
        decreases to - start,
    {
        assert(chars@.subrange(start as int, to as int).skip(1) =~= chars@.subrange(
            start + 1,
            to as int,
        ));
        start = start + 1;
    }
    let mut end = to;
    while start < end && is_white_space(chars[end - 1])
        invariant
            from <= start <= end <= to <= chars@.len(),
            trimmed_end(chars@.subrange(start as int, to as int)) == trimmed_end(
                chars@.subrange(start as int, end as int),
            ),
        decreases end - start,
    {
        assert(chars@.subrange(start as int, end as int).drop_last() =~= chars@.subrange(
            start as int,
            end - 1,
        ));
        end = end - 1;
    }
    (start, end)
}

/// `s` without the white space at its two ends.
pub fn trim_text(s: &str) -> (text: String)
    ensures
        text@ == trimmed(s@),
{
    let chars = chars_of(s);
    assert(s@.subrange(0, s@.len() as int) =~= s@);
    let (start, end) = trim_bounds(&chars, 0, chars.len());
    text_of(&chars, start, end)
}

/// The length of the first line of `s`, its line feed not counted.
pub open spec fn line_length(s: Seq<char>) -> nat
    decreases s.len(),
{
    if s.len() == 0 || s[0] == '\n' {
        0
    } else {
        1 + line_length(s.skip(1))
    }
}

/// The first line holds no line feed, and one ends it unless the text ends first.
pub proof fn lemma_line_length(s: Seq<char>)
    ensures
        line_length(s) <= s.len(),
        line_length(s) < s.len() ==> s[line_length(s) as int] == '\n',
        forall|i: int| 0 <= i < line_length(s) ==> s[i] != '\n',
    decreases s.len(),
{
    if s.len() > 0 && s[0] != '\n' {
        let rest = s.skip(1);
        lemma_line_length(rest);
        assert forall|i: int| 0 <= i < line_length(s) implies s[i] != '\n' by {
            if i > 0 {
                assert(rest[i - 1] == s[i]);
            }
        }
    }
}

/// `line` without the carriage return it ends with, if any.
pub open spec fn without_cr(line: Seq<char>) -> Seq<char> {
    if line.len() > 0 && line.last() == '\r' {
        line.drop_last()
    } else {
        line
    }
}

/// The lines of `s`. A line ends at `\n` or `\r\n`; the last line need not be ended.
pub open spec fn text_lines(s: Seq<char>) -> Seq<Seq<char>>
    decreases s.len(),
{
    proof {
        lemma_line_length(s);
    }
    let n = line_length(s);
    if s.len() == 0 {
        Seq::empty()
    } else if n == s.len() {
        seq![s]
    } else {
        seq![without_cr(s.take(n as int))] + text_lines(s.skip(n as int + 1))
    }
}

/// The view of an optional string is its text, and there is one exactly where there is a
/// string.
pub proof fn law_text_view(text: Option<String>, s: String)
    ensures
        text_view(Some(s)) == Some(s@),
        text_view(text) is None <==> text is None,
        text matches Some(t) ==> text_view(text) == Some(t@),
{
}

/// Bytes are read as a text exactly where they are the encoding of it.
pub proof fn law_utf8_text(bytes: Seq<u8>, text: Seq<char>)
    ensures
        utf8_text(bytes) == Some(text) <==> bytes == encode_utf8(text),
{
    encode_utf8_valid_utf8(text);
    encode_utf8_decode_utf8(text);
    if valid_utf8(bytes) {
        decode_utf8_encode_utf8(bytes);
    }
}

/// Lower case keeps the length. It moves each of the 26 ASCII capitals to the letter 32 code
/// points on, and nothing else.
pub proof fn law_ascii_lowercase(s: Seq<char>)
    ensures
        ascii_lowercase(s).len() == s.len(),
        forall|i: int|
            0 <= i < s.len() ==> if 0x41 <= s[i] as int <= 0x5a {
                (#[trigger] ascii_lowercase(s)[i]) as int == s[i] as int + 32
            } else {
                ascii_lowercase(s)[i] == s[i]
            },
{
}

/// A text has a part exactly where it is something, then the part, then something.
pub proof fn law_parts(s: Seq<char>, part: Seq<char>)
    ensures
        has_part(s, part) <==> exists|before: Seq<char>, after: Seq<char>|
            s == #[trigger] (before + part + after),
{
    if has_part(s, part) {
        let at = choose|at: int| occurs_at(s, part, at);
        let before = s.take(at);
        let after = s.skip(at + part.len());
        assert(s =~= before + part + after);
    }
    if exists|before: Seq<char>, after: Seq<char>| s == #[trigger] (before + part + after) {
        let (before, after) = choose|before: Seq<char>, after: Seq<char>|
            s == #[trigger] (before + part + after);
        assert(s.subrange(before.len() as int, (before.len() + part.len()) as int) =~= part);
        assert(occurs_at(s, part, before.len() as int));
    }
}

/// A text has a prefix exactly where it is the prefix, then something.
pub proof fn law_prefixes(s: Seq<char>, part: Seq<char>)
    ensures
        has_prefix(s, part) <==> exists|rest: Seq<char>| s == #[trigger] (part + rest),
{
    if has_prefix(s, part) {
        assert(s =~= part + s.skip(part.len() as int));
    }
    if exists|rest: Seq<char>| s == #[trigger] (part + rest) {
        let rest = choose|rest: Seq<char>| s == #[trigger] (part + rest);
        assert((part + rest).subrange(0, part.len() as int) =~= part);
    }
}

/// Whether `s` is white space and nothing else.
pub open spec fn blank(s: Seq<char>) -> bool {
    forall|i: int| 0 <= i < s.len() ==> white_space(#[trigger] s[i])
}

/// Whether `s` has no white space at its ends.
pub open spec fn tight(s: Seq<char>) -> bool {
    s.len() > 0 ==> !white_space(s[0]) && !white_space(s[s.len() - 1])
}

/// Trimming takes off all white space around a text, and no more.
pub proof fn law_trimmed(before: Seq<char>, core: Seq<char>, after: Seq<char>)
    requires
        blank(before),
        tight(core),
        blank(after),
    ensures
        trimmed(before + core + after) == core,
{
    assert(before + core + after =~= before + (core + after));
    lemma_trimmed_start_blank(before, core + after);
    if core.len() > 0 {
        assert((core + after)[0] == core[0]);
        lemma_trimmed_end_blank(core, after);
    } else {
        assert(core + after =~= after + Seq::empty());
        lemma_trimmed_start_blank(after, Seq::empty());
        assert(core =~= Seq::empty());
    }
}

/// Every text is white space, then a text without any at its ends, then white space.
pub proof fn lemma_trim_parts(s: Seq<char>) -> (parts: (Seq<char>, Seq<char>, Seq<char>))
    ensures
        s == parts.0 + parts.1 + parts.2,
        blank(parts.0),
        tight(parts.1),
        blank(parts.2),
    decreases s.len(),
{
    if s.len() == 0 {
        assert(s =~= s + s + s);
        (s, s, s)
    } else if white_space(s[0]) {
        let (a, core, b) = lemma_trim_parts(s.skip(1));
        assert(s =~= seq![s[0]] + s.skip(1));
        assert(seq![s[0]] + (a + core + b) =~= (seq![s[0]] + a) + core + b);
        (seq![s[0]] + a, core, b)
    } else if white_space(s.last()) {
        let (a, core, b) = lemma_trim_parts(s.drop_last());
        assert(s =~= s.drop_last().push(s.last()));
        assert((a + core + b).push(s.last()) =~= a + core + b.push(s.last()));
        (a, core, b.push(s.last()))
    } else {
        let none = Seq::<char>::empty();
        assert(s =~= none + s + none);
        (none, s, none)
    }
}

pub(crate) proof fn lemma_trimmed_start_blank(before: Seq<char>, s: Seq<char>)
    requires
        blank(before),
    ensures
        trimmed_start(before + s) == trimmed_start(s),
    decreases before.len(),
{
    if before.len() == 0 {
        assert(before + s =~= s);
    } else {
        assert(white_space(before[0]));
        assert((before + s)[0] == before[0]);
        assert((before + s).skip(1) =~= before.skip(1) + s);
        assert forall|i: int| 0 <= i < before.skip(1).len() implies white_space(
            #[trigger] before.skip(1)[i],
        ) by {
            assert(before.skip(1)[i] == before[i + 1]);
        }
        lemma_trimmed_start_blank(before.skip(1), s);
    }
}

proof fn lemma_trimmed_end_blank(s: Seq<char>, after: Seq<char>)
    requires
        blank(after),
        s.len() > 0 ==> !white_space(s.last()),
    ensures
        trimmed_end(s + after) == s,
    decreases after.len(),
{
    if after.len() == 0 {
        assert(s + after =~= s);
    } else {
        assert(white_space(after[after.len() - 1]));
        assert((s + after).last() == after.last());
        assert((s + after).drop_last() =~= s + after.drop_last());
        assert forall|i: int| 0 <= i < after.drop_last().len() implies white_space(
            #[trigger] after.drop_last()[i],
        ) by {
            assert(after.drop_last()[i] == after[i]);
        }
        lemma_trimmed_end_blank(s, after.drop_last());
    }
}

/// A line ends at a line feed, with which one carriage return before it goes too. What
/// follows the last line feed is a line unless it is empty.
pub proof fn law_lines(line: Seq<char>, rest: Seq<char>)
    requires
        !line.contains('\n'),
    ensures
        text_lines(line + seq!['\r', '\n'] + rest) == seq![line] + text_lines(rest),
        line.len() == 0 || line[line.len() - 1] != '\r' ==> text_lines(line + seq!['\n'] + rest)
            == seq![line] + text_lines(rest),
        line.len() > 0 ==> text_lines(line) == seq![line],
        line.len() == 0 ==> text_lines(line) == Seq::<Seq<char>>::empty(),
{
    lemma_line_length(line);
    if line_length(line) < line.len() {
        assert(line.contains('\n'));
    }
    lemma_first_line(line, rest);
    let with_cr = line.push('\r');
    assert(line + seq!['\r', '\n'] + rest =~= with_cr + seq!['\n'] + rest);
    if with_cr.contains('\n') {
        let i = choose|i: int| 0 <= i < with_cr.len() && with_cr[i] == '\n';
        assert(line[i] == '\n');
    }
    lemma_first_line(with_cr, rest);
    assert(without_cr(with_cr) =~= line);
}

pub(crate) proof fn lemma_first_line(line: Seq<char>, rest: Seq<char>)
    requires
        !line.contains('\n'),
    ensures
        text_lines(line + seq!['\n'] + rest) == seq![without_cr(line)] + text_lines(rest),
{
    let s = line + seq!['\n'] + rest;
    lemma_line_length(s);
    let n = line_length(s);
    assert(s[line.len() as int] == '\n');
    assert(n == line.len()) by {
        if n < line.len() {
            assert(s[n as int] == line[n as int]);
            assert(line.contains('\n'));
        }
    }
    assert(s.take(n as int) =~= line);
    assert(s.skip(n as int + 1) =~= rest);
}

/// White space is one of 25 characters: the six in ASCII, two in Latin-1, and 17 spaces and
/// separators beyond.
pub proof fn law_white_space(c: char)
    ensures
        white_space(c) <==> seq![
            '\t',
            '\n',
            '\u{b}',
            '\u{c}',
            '\r',
            ' ',
            '\u{85}',
            '\u{a0}',
            '\u{1680}',
            '\u{2000}',
            '\u{2001}',
            '\u{2002}',
            '\u{2003}',
            '\u{2004}',
            '\u{2005}',
            '\u{2006}',
            '\u{2007}',
            '\u{2008}',
            '\u{2009}',
            '\u{200a}',
            '\u{2028}',
            '\u{2029}',
            '\u{202f}',
            '\u{205f}',
            '\u{3000}',
        ].contains(c),
{
    let spaces = seq![
        '\t',
        '\n',
        '\u{b}',
        '\u{c}',
        '\r',
        ' ',
        '\u{85}',
        '\u{a0}',
        '\u{1680}',
        '\u{2000}',
        '\u{2001}',
        '\u{2002}',
        '\u{2003}',
        '\u{2004}',
        '\u{2005}',
        '\u{2006}',
        '\u{2007}',
        '\u{2008}',
        '\u{2009}',
        '\u{200a}',
        '\u{2028}',
        '\u{2029}',
        '\u{202f}',
        '\u{205f}',
        '\u{3000}',
    ];
    if white_space(c) {
        let n = c as u32;
        let at: int = if n <= 0xd {
            n - 0x9
        } else if n == 0x20 {
            5
        } else if n == 0x85 {
            6
        } else if n == 0xa0 {
            7
        } else if n == 0x1680 {
            8
        } else if n <= 0x200a {
            n - 0x2000 + 9
        } else if n == 0x2028 {
            20
        } else if n == 0x2029 {
            21
        } else if n == 0x202f {
            22
        } else if n == 0x205f {
            23
        } else {
            24
        };
        assert(spaces[at] == c);
    }
}

} // verus!

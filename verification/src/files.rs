//! File paths on the clipboard, as `text/uri-list`.
use vstd::prelude::*;
use vstd::utf8::*;

use crate::text::{
    blank, chars_of, has_prefix, law_lines, law_trimmed, law_utf8_text,
    lemma_first_line, lemma_line_length, lemma_trim_parts, line_length, text_lines, text_occurs_at,
    text_of, text_view, tight, trim_bounds, trimmed, trimmed_end, trimmed_start, utf8_text,
    white_space, without_cr,
};

verus! {

/// The value of a hexadecimal digit.
pub open spec fn hex_value(digit: u8) -> Option<int> {
    if 0x30 <= digit <= 0x39 {
        Some(digit - 0x30)
    } else if 0x41 <= digit <= 0x46 {
        Some(digit - 0x41 + 10)
    } else if 0x61 <= digit <= 0x66 {
        Some(digit - 0x61 + 10)
    } else {
        None
    }
}

/// `bytes` with each `%` that two hexadecimal digits follow replaced, together with them,
/// by the byte that they name. Every other byte stays.
pub open spec fn percent_decoded(bytes: Seq<u8>) -> Seq<u8>
    decreases bytes.len(),
{
    if bytes.len() == 0 {
        Seq::empty()
    } else if bytes.len() >= 3 && bytes[0] == 0x25 && hex_value(bytes[1]) is Some && hex_value(
        bytes[2],
    ) is Some {
        seq![(16 * hex_value(bytes[1])->0 + hex_value(bytes[2])->0) as u8] + percent_decoded(
            bytes.skip(3),
        )
    } else {
        seq![bytes[0]] + percent_decoded(bytes.skip(1))
    }
}

/// `urlencoding::decode`: undoes percent-encoding on the UTF-8 bytes of `s`, and fails
/// exactly where what comes out is not UTF-8.
#[verifier::external_body]
fn url_decode(s: &str) -> (decoded: Option<String>)
    ensures
        text_view(decoded) == utf8_text(percent_decoded(encode_utf8(s@))),
{
    urlencoding::decode(s).ok().map(|text| text.into_owned())
}

/// The path that a `file://` entry names: percent-decoded where that gives text, and as it
/// stands where it does not.
pub open spec fn decoded_path(path: Seq<char>) -> Seq<char> {
    match utf8_text(percent_decoded(encode_utf8(path))) {
        Some(decoded) => decoded,
        None => path,
    }
}

/// The path that a line of a `text/uri-list` gives, if it gives one.
pub open spec fn path_in_line(line: Seq<char>) -> Option<Seq<char>> {
    let entry = trimmed(line);
    if entry.len() == 0 || entry[0] == '#' {
        None
    } else if has_prefix(entry, "file://"@) {
        Some(decoded_path(entry.skip(7)))
    } else if entry[0] == '/' {
        Some(entry)
    } else {
        None
    }
}

/// The paths that `lines` give, in order.
pub open spec fn paths_in_lines(lines: Seq<Seq<char>>) -> Seq<Seq<char>>
    decreases lines.len(),
{
    if lines.len() == 0 {
        Seq::empty()
    } else {
        let rest = paths_in_lines(lines.drop_first());
        match path_in_line(lines[0]) {
            Some(path) => seq![path] + rest,
            None => rest,
        }
    }
}

/// The paths that a `text/uri-list` document lists.
pub open spec fn listed_paths(raw: Seq<char>) -> Seq<Seq<char>> {
    paths_in_lines(text_lines(raw))
}

/// The views of a list of strings.
pub open spec fn texts_view(texts: Seq<String>) -> Seq<Seq<char>> {
    texts.map_values(|text: String| text@)
}

/// The path that the line `chars[from..to]` gives, if it gives one.
fn read_line(chars: &Vec<char>, from: usize, to: usize) -> (path: Option<String>)
    requires
        from <= to <= chars@.len(),
    ensures
        text_view(path) == path_in_line(chars@.subrange(from as int, to as int)),
{
    proof {
        reveal_strlit("file://");
    }
    let (start, end) = trim_bounds(chars, from, to);
    let ghost entry = chars@.subrange(start as int, end as int);
    if start == end || chars[start] == '#' {
        return None;
    }
    let scheme = chars_of("file://");
    if end - start >= 7 && text_occurs_at(chars, &scheme, start) {
        assert(chars@.subrange(start as int, start + 7) =~= entry.subrange(0, 7));
        assert(entry.skip(7) =~= chars@.subrange(start + 7, end as int));
        let raw = text_of(chars, start + 7, end);
        match url_decode(raw.as_str()) {
            Some(decoded) => Some(decoded),
            None => Some(raw),
        }
    } else {
        assert(!has_prefix(entry, "file://"@)) by {
            if has_prefix(entry, "file://"@) {
                assert(chars@.subrange(start as int, start + 7) =~= entry.subrange(0, 7));
            }
        }
        if chars[start] == '/' {
            Some(text_of(chars, start, end))
        } else {
            None
        }
    }
}

/// The paths that a `text/uri-list` document lists. Blank lines, comments and entries that
/// are neither `file://` URIs nor absolute paths are passed over.
pub fn parse_uri_list(raw: &str) -> (paths: Vec<String>)
    ensures
        texts_view(paths@) == listed_paths(raw@),
{
    let chars = chars_of(raw);
    let mut paths: Vec<String> = Vec::new();
    let mut from: usize = 0;
    assert(chars@.skip(0) =~= chars@);
    assert(texts_view(paths@) =~= Seq::empty());
    while from < chars.len()
        invariant
            chars@ == raw@,
            from <= chars@.len(),
            listed_paths(raw@) == texts_view(paths@) + listed_paths(chars@.skip(from as int)),
        decreases chars@.len() - from,
    {
        let ghost rest = chars@.skip(from as int);
        let mut end = from;
        while end < chars.len() && chars[end] != '\n'
            invariant
                from <= end <= chars@.len(),
                line_length(chars@.skip(from as int)) == end - from + line_length(
                    chars@.skip(end as int),
                ),
            decreases chars@.len() - end,
        {
            assert(chars@.skip(end as int).skip(1) =~= chars@.skip(end + 1));
            end = end + 1;
        }
        let mut line_end = end;
        if end < chars.len() && end > from && chars[end - 1] == '\r' {
            line_end = end - 1;
        }
        let ghost line = chars@.subrange(from as int, line_end as int);
        let ghost before = paths@;
        let found = read_line(&chars, from, line_end);
        let next = if end < chars.len() {
            end + 1
        } else {
            end
        };
        proof {
            let after = chars@.skip(next as int);
            if end < chars.len() {
                assert(rest.take(end - from) =~= chars@.subrange(from as int, end as int));
                assert(line =~= without_cr(rest.take(end - from)));
                assert(rest.skip(end - from + 1) =~= after);
            } else {
                assert(line =~= rest);
                assert(after =~= Seq::empty());
                assert(seq![line] + text_lines(after) =~= seq![line]);
            }
            assert(text_lines(rest) == seq![line] + text_lines(after));
            assert(text_lines(rest).drop_first() =~= text_lines(after));
        }
        match found {
            Some(path) => {
                paths.push(path);
                assert(texts_view(paths@) =~= texts_view(before).push(path@));
            },
            None => {},
        }
        from = next;
        assert(listed_paths(raw@) =~= texts_view(paths@) + listed_paths(chars@.skip(from as int)));
    }
    assert(chars@.skip(from as int) =~= Seq::empty());
    paths
}

/// The `text/uri-list` document that offers `paths`.
pub open spec fn uri_list(paths: Seq<Seq<char>>) -> Seq<char>
    decreases paths.len(),
{
    if paths.len() == 0 {
        Seq::empty()
    } else {
        "file://"@ + paths[0] + "\r\n"@ + uri_list(paths.drop_first())
    }
}

/// The `text/uri-list` document that offers `paths`.
pub fn write_uri_list(paths: &Vec<String>) -> (text: String)
    ensures
        text@ == uri_list(texts_view(paths@)),
{
    let mut text = String::new();
    assert(paths@.skip(0) =~= paths@);
    assert(uri_list(texts_view(paths@)) =~= text@ + uri_list(texts_view(paths@.skip(0))));
    for i in 0..paths.len()
        invariant
            uri_list(texts_view(paths@)) == text@ + uri_list(texts_view(paths@.skip(i as int))),
    {
        let ghost before = text@;
        let ghost rest = texts_view(paths@.skip(i as int));
        text.append("file://");
        text.append(paths[i].as_str());
        text.append("\r\n");
        assert(rest.drop_first() =~= texts_view(paths@.skip(i + 1)));
        assert(rest[0] == paths@[i as int]@);
        assert(before + uri_list(rest) =~= text@ + uri_list(rest.drop_first()));
    }
    assert(texts_view(paths@.skip(paths@.len() as int)) =~= Seq::empty());
    assert(text@ + uri_list(Seq::empty()) =~= text@);
    text
}

/// `texts` one after the other, with a line feed between each two.
pub open spec fn joined_lines(texts: Seq<Seq<char>>) -> Seq<char>
    decreases texts.len(),
{
    if texts.len() == 0 {
        Seq::empty()
    } else if texts.len() == 1 {
        texts[0]
    } else {
        texts[0] + "\n"@ + joined_lines(texts.drop_first())
    }
}

/// `texts` one after the other, with a line feed between each two.
pub fn join_lines(texts: &Vec<String>) -> (text: String)
    ensures
        text@ == joined_lines(texts_view(texts@)),
{
    let mut text = String::new();
    if texts.len() == 0 {
        return text;
    }
    text.append(texts[0].as_str());
    assert(texts_view(texts@).drop_first() =~= texts_view(texts@.skip(1)));
    for i in 1..texts.len()
        invariant
            texts@.len() >= 1,
            joined_lines(texts_view(texts@)) == if i == texts@.len() {
                text@
            } else {
                text@ + "\n"@ + joined_lines(texts_view(texts@.skip(i as int)))
            },
    {
        let ghost before = text@;
        let ghost rest = texts_view(texts@.skip(i as int));
        text.append("\n");
        text.append(texts[i].as_str());
        assert(rest[0] == texts@[i as int]@);
        assert(rest.drop_first() =~= texts_view(texts@.skip(i + 1)));
        proof {
            if rest.len() == 1 {
                assert(before + "\n"@ + rest[0] =~= text@);
            } else {
                assert(before + "\n"@ + joined_lines(rest) =~= text@ + "\n"@ + joined_lines(
                    rest.drop_first(),
                ));
            }
        }
    }
    text
}

/// Whether a path that was offered in a `text/uri-list` is read back as it was: it is one
/// line, ends in no white space, and holds no escape that decoding would replace.
pub open spec fn survives_uri_list(path: Seq<char>) -> bool {
    &&& !path.contains('\n')
    &&& trimmed_end(path) == path
    &&& decoded_path(path) == path
}

/// What is read back of an offered list of paths is that list if, and only if, each path is
/// one that survives.
pub proof fn law_uri_list_round_trip(paths: Seq<Seq<char>>)
    ensures
        listed_paths(uri_list(paths)) == paths <==> (forall|i: int|
            0 <= i < paths.len() ==> survives_uri_list(#[trigger] paths[i])),
    decreases paths.len(),
{
    let doc = uri_list(paths);
    if paths.len() == 0 {
        assert(listed_paths(doc) =~= paths);
    } else {
        let path = paths[0];
        let rest = paths.drop_first();
        law_uri_list_round_trip(rest);
        lemma_first_entry(path, uri_list(rest));
        let listed = listed_paths(doc);
        if survives_uri_list(path) {
            assert(listed == seq![path] + listed_paths(uri_list(rest)));
            assert(listed.drop_first() =~= listed_paths(uri_list(rest)));
            assert(seq![path] + rest =~= paths);
            if forall|i: int| 0 <= i < rest.len() ==> survives_uri_list(#[trigger] rest[i]) {
                assert forall|i: int| 0 <= i < paths.len() implies survives_uri_list(
                    #[trigger] paths[i],
                ) by {
                    if i > 0 {
                        assert(paths[i] == rest[i - 1]);
                    }
                }
            } else {
                let i = choose|i: int| 0 <= i < rest.len() && !survives_uri_list(#[trigger] rest[i]);
                assert(paths[i + 1] == rest[i]);
                if listed == paths {
                    assert(listed.drop_first() == rest);
                }
            }
        } else {
            assert(listed[0] != path);
        }
    }
}

/// A path without `%` holds nothing for decoding to replace.
pub proof fn law_plain_path_is_kept(path: Seq<char>)
    requires
        !path.contains('%'),
    ensures
        decoded_path(path) == path,
{
    lemma_no_percent_byte(path);
    lemma_nothing_to_decode(encode_utf8(path));
    encode_utf8_valid_utf8(path);
    encode_utf8_decode_utf8(path);
}

proof fn lemma_no_percent_byte(path: Seq<char>)
    requires
        !path.contains('%'),
    ensures
        !encode_utf8(path).contains(0x25u8),
    decreases path.len(),
{
    if path.len() > 0 {
        let first = path[0] as u32;
        let rest = path.drop_first();
        assert(!rest.contains('%')) by {
            if rest.contains('%') {
                let i = choose|i: int| 0 <= i < rest.len() && rest[i] == '%';
                assert(path[i + 1] == '%');
            }
        }
        lemma_no_percent_byte(rest);
        assert(path[0] != '%');
        assert(first <= 0x7f && first != 0x25 ==> (first & 0x7f) as u8 != 0x25) by (bit_vector);
        assert(0xc0u8 | ((first >> 6) & 0x1f) as u8 != 0x25u8) by (bit_vector);
        assert(0xe0u8 | ((first >> 12) & 0xf) as u8 != 0x25u8) by (bit_vector);
        assert(0xf0u8 | ((first >> 18) & 0x7) as u8 != 0x25u8) by (bit_vector);
        assert(0x80u8 | (first & 0x3f) as u8 != 0x25u8) by (bit_vector);
        assert(0x80u8 | ((first >> 6) & 0x3f) as u8 != 0x25u8) by (bit_vector);
        assert(0x80u8 | ((first >> 12) & 0x3f) as u8 != 0x25u8) by (bit_vector);
        let head = encode_scalar(first);
        char_u32_cast(path[0], first);
        assert(first != 0x25u32);
        assert(forall|i: int| 0 <= i < head.len() ==> head[i] != 0x25u8);
        let tail = encode_utf8(rest);
        assert forall|i: int| 0 <= i < (head + tail).len() implies (head + tail)[i] != 0x25u8 by {
            if i >= head.len() {
                assert((head + tail)[i] == tail[i - head.len()]);
            }
        }
    }
}

proof fn lemma_nothing_to_decode(bytes: Seq<u8>)
    requires
        !bytes.contains(0x25u8),
    ensures
        percent_decoded(bytes) == bytes,
    decreases bytes.len(),
{
    if bytes.len() > 0 {
        let rest = bytes.skip(1);
        assert(!rest.contains(0x25u8)) by {
            if rest.contains(0x25u8) {
                let i = choose|i: int| 0 <= i < rest.len() && rest[i] == 0x25u8;
                assert(bytes[i + 1] == 0x25u8);
            }
        }
        lemma_nothing_to_decode(rest);
        assert(bytes[0] != 0x25u8);
        assert(seq![bytes[0]] + rest =~= bytes);
    }
}

proof fn lemma_decoding_shrinks(bytes: Seq<u8>)
    ensures
        percent_decoded(bytes).len() <= bytes.len(),
    decreases bytes.len(),
{
    if bytes.len() > 0 {
        lemma_decoding_shrinks(bytes.skip(1));
        if bytes.len() >= 3 {
            lemma_decoding_shrinks(bytes.skip(3));
        }
    }
}

proof fn lemma_decoded_path_is_no_longer(path: Seq<char>)
    ensures
        encode_utf8(decoded_path(path)).len() <= encode_utf8(path).len(),
{
    let bytes = percent_decoded(encode_utf8(path));
    lemma_decoding_shrinks(encode_utf8(path));
    if valid_utf8(bytes) {
        decode_utf8_encode_utf8(bytes);
    }
}

proof fn lemma_shorter_prefix_encodes_shorter(path: Seq<char>, n: int)
    requires
        0 <= n < path.len(),
    ensures
        encode_utf8(path.take(n)).len() < encode_utf8(path).len(),
    decreases n,
{
    assert(encode_scalar(path[0] as u32).len() >= 1);
    if n > 0 {
        lemma_shorter_prefix_encodes_shorter(path.drop_first(), n - 1);
        assert(path.take(n).drop_first() =~= path.drop_first().take(n - 1));
    }
}

proof fn lemma_trimmed_end_is_prefix(s: Seq<char>) -> (n: int)
    ensures
        0 <= n <= s.len(),
        trimmed_end(s) == s.take(n),
    decreases s.len(),
{
    if s.len() > 0 && white_space(s.last()) {
        let n = lemma_trimmed_end_is_prefix(s.drop_last());
        assert(s.drop_last().take(n) =~= s.take(n));
        n
    } else {
        assert(s.take(s.len() as int) =~= s);
        s.len() as int
    }
}

/// The scheme is no white space, so trimming an entry trims its path.
proof fn lemma_trimmed_entry(path: Seq<char>)
    ensures
        trimmed("file://"@ + path) == "file://"@ + trimmed_end(path),
    decreases path.len(),
{
    reveal_strlit("file://");
    let entry = "file://"@ + path;
    assert(entry[0] == 'f');
    assert(trimmed_start(entry) == entry);
    if path.len() == 0 {
        assert(entry =~= "file://"@);
        assert(trimmed_end(path) =~= path);
        assert("file://"@ + trimmed_end(path) =~= entry);
    } else {
        assert(entry.last() == path.last());
        if white_space(path.last()) {
            assert(entry.drop_last() =~= "file://"@ + path.drop_last());
            lemma_trimmed_entry(path.drop_last());
            assert(("file://"@ + path.drop_last())[0] == 'f');
        }
    }
}

proof fn lemma_entry_line(path: Seq<char>)
    ensures
        path_in_line("file://"@ + path) == Some(decoded_path(trimmed_end(path))),
{
    reveal_strlit("file://");
    lemma_trimmed_entry(path);
    let entry = "file://"@ + trimmed_end(path);
    assert(entry[0] == 'f');
    assert(entry.subrange(0, 7) =~= "file://"@);
    assert(entry.skip(7) =~= trimmed_end(path));
}

/// The first path read back of a list that begins with `path`, and what is read after it.
proof fn lemma_first_entry(path: Seq<char>, rest: Seq<char>)
    ensures
        ({
            let listed = listed_paths("file://"@ + path + "\r\n"@ + rest);
            &&& listed.len() > 0
            &&& survives_uri_list(path) ==> listed == seq![path] + listed_paths(rest)
            &&& !survives_uri_list(path) ==> listed[0] != path
        }),
{
    reveal_strlit("file://");
    reveal_strlit("\r\n");
    let doc = "file://"@ + path + "\r\n"@ + rest;
    let n = line_length(doc);
    lemma_line_length(doc);
    assert(doc[path.len() as int + 8] == '\n');
    assert(n <= path.len() + 8);
    let line = without_cr(doc.take(n as int));
    let after = text_lines(doc.skip(n as int + 1));
    assert(text_lines(doc) == seq![line] + after);
    assert(text_lines(doc)[0] == line);
    assert(text_lines(doc).drop_first() =~= after);
    assert(doc[n as int] == '\n');
    assert forall|i: int| 0 <= i < 7 implies doc[i] != '\n' by {
        assert(doc[i] == "file://"@[i]);
    }
    assert(n >= 7);
    assert(forall|i: int| 0 <= i < path.len() ==> doc[i + 7] == path[i]);
    if path.contains('\n') {
        let k = choose|k: int| 0 <= k < path.len() && path[k] == '\n';
        assert(doc[k + 7] == '\n');
        assert(n <= k + 7);
        let m = line.len() - 7;
        assert(doc[6] == '/');
        assert(line =~= "file://"@ + path.take(m));
        lemma_entry_line(path.take(m));
        let t = lemma_trimmed_end_is_prefix(path.take(m));
        assert(path.take(m).take(t) =~= path.take(t));
        lemma_decoded_path_is_no_longer(path.take(t));
        lemma_shorter_prefix_encodes_shorter(path, t);
    } else {
        assert(n == path.len() + 8) by {
            if n < path.len() + 7 {
                assert(doc[n as int] == path[n - 7]);
                assert(path.contains('\n'));
            }
            assert(doc[path.len() as int + 7] == '\r');
        }
        assert(doc.take(n as int).last() == '\r');
        assert(line =~= "file://"@ + path);
        assert(doc.skip(n as int + 1) =~= rest);
        lemma_entry_line(path);
        if trimmed_end(path) != path {
            let t = lemma_trimmed_end_is_prefix(path);
            assert(t < path.len()) by {
                assert(path.take(path.len() as int) =~= path);
            }
            lemma_decoded_path_is_no_longer(path.take(t));
            lemma_shorter_prefix_encodes_shorter(path, t);
        }
    }
}

/// The hexadecimal digit for a value below 16, in capitals or not.
pub open spec fn hex_digit(value: int, capitals: bool) -> u8 {
    if value < 10 {
        (0x30 + value) as u8
    } else if capitals {
        (0x41 + value - 10) as u8
    } else {
        (0x61 + value - 10) as u8
    }
}

/// `bytes` with each byte that `escape` picks written as `%` and two hexadecimal digits.
pub open spec fn percent_encoded(
    bytes: Seq<u8>,
    escape: spec_fn(u8) -> bool,
    capitals: bool,
) -> Seq<u8>
    decreases bytes.len(),
{
    if bytes.len() == 0 {
        Seq::empty()
    } else {
        let rest = percent_encoded(bytes.skip(1), escape, capitals);
        let b = bytes[0];
        if escape(b) {
            seq![0x25u8, hex_digit(b as int / 16, capitals), hex_digit(b as int % 16, capitals)]
                + rest
        } else {
            seq![b] + rest
        }
    }
}

/// The bytes that stand for themselves in the path of a URI: the unreserved characters and
/// the slash.
pub open spec fn stands_for_itself(b: u8) -> bool {
    ||| 0x41 <= b <= 0x5a
    ||| 0x61 <= b <= 0x7a
    ||| 0x30 <= b <= 0x39
    ||| b == 0x2d
    ||| b == 0x2e
    ||| b == 0x5f
    ||| b == 0x7e
    ||| b == 0x2f
}

/// `bytes` with all that does not stand for itself escaped.
pub open spec fn uri_bytes(bytes: Seq<u8>, capitals: bool) -> Seq<u8> {
    percent_encoded(bytes, |b: u8| !stands_for_itself(b), capitals)
}

/// `bytes` as the path of a URI.
pub open spec fn uri_path(bytes: Seq<u8>, capitals: bool) -> Seq<char> {
    uri_bytes(bytes, capitals).map_values(|b: u8| b as char)
}

/// Decoding undoes every percent-encoding that escapes the percent sign, whatever else it
/// escapes and however it writes the digits.
pub proof fn law_decoding_undoes_encoding(
    bytes: Seq<u8>,
    escape: spec_fn(u8) -> bool,
    capitals: bool,
)
    requires
        escape(0x25),
    ensures
        percent_decoded(percent_encoded(bytes, escape, capitals)) == bytes,
    decreases bytes.len(),
{
    if bytes.len() == 0 {
        assert(percent_decoded(percent_encoded(bytes, escape, capitals)) =~= bytes);
    } else {
        let b = bytes[0];
        let rest = percent_encoded(bytes.skip(1), escape, capitals);
        let encoded = percent_encoded(bytes, escape, capitals);
        law_decoding_undoes_encoding(bytes.skip(1), escape, capitals);
        assert(seq![b] + bytes.skip(1) =~= bytes);
        if escape(b) {
            assert(encoded.skip(3) =~= rest);
            assert(hex_value(encoded[1]) == Some(b as int / 16));
            assert(hex_value(encoded[2]) == Some(b as int % 16));
        } else {
            assert(encoded.skip(1) =~= rest);
            assert(encoded[0] == b);
        }
    }
}

/// Whether a byte is a hexadecimal digit: `0` to `9`, `A` to `F` or `a` to `f`.
pub open spec fn is_hex_digit(b: u8) -> bool {
    0x30 <= b <= 0x39 || 0x41 <= b <= 0x46 || 0x61 <= b <= 0x66
}

/// A byte that begins no escape is kept: any but a percent sign, and a percent sign that two
/// hexadecimal digits do not follow.
pub proof fn law_other_bytes_stay(b: u8, rest: Seq<u8>)
    requires
        b == 0x25 ==> rest.len() < 2 || !is_hex_digit(rest[0]) || !is_hex_digit(rest[1]),
    ensures
        percent_decoded(seq![b] + rest) == seq![b] + percent_decoded(rest),
{
    let bytes = seq![b] + rest;
    assert(bytes.skip(1) =~= rest);
    if b == 0x25 && rest.len() >= 2 {
        assert(bytes[1] == rest[0]);
        assert(bytes[2] == rest[1]);
    }
}

/// A path is recovered from every way of escaping it in which the percent sign is escaped.
pub proof fn law_escaped_path_is_decoded(
    path: Seq<char>,
    written: Seq<char>,
    escape: spec_fn(u8) -> bool,
    capitals: bool,
)
    requires
        escape(0x25),
        encode_utf8(written) == percent_encoded(encode_utf8(path), escape, capitals),
    ensures
        decoded_path(written) == path,
{
    law_decoding_undoes_encoding(encode_utf8(path), escape, capitals);
    law_utf8_text(encode_utf8(path), path);
}

proof fn lemma_uri_path(bytes: Seq<u8>, capitals: bool)
    ensures
        encode_utf8(uri_path(bytes, capitals)) == uri_bytes(bytes, capitals),
        percent_decoded(encode_utf8(uri_path(bytes, capitals))) == bytes,
        forall|i: int|
            0 <= i < uri_path(bytes, capitals).len() ==> !white_space(
                #[trigger] uri_path(bytes, capitals)[i],
            ) && uri_path(bytes, capitals)[i] != '\n',
{
    let encoded = uri_bytes(bytes, capitals);
    let text = uri_path(bytes, capitals);
    lemma_encoded_bytes_are_plain(bytes, capitals);
    law_decoding_undoes_encoding(bytes, |b: u8| !stands_for_itself(b), capitals);
    assert forall|i: int| 0 <= i < text.len() implies (#[trigger] text[i]) as u32 == encoded[i]
        && text[i] as u8 == encoded[i] && !white_space(text[i]) && text[i] != '\n' by {
        assert(stands_for_itself(encoded[i]) || encoded[i] == 0x25);
    }
    assert(is_ascii_chars(text));
    is_ascii_chars_encode_utf8(text);
    assert(encode_utf8(text) =~= encoded);
}

proof fn lemma_encoded_bytes_are_plain(bytes: Seq<u8>, capitals: bool)
    ensures
        forall|i: int|
            0 <= i < uri_bytes(bytes, capitals).len() ==> stands_for_itself(
                #[trigger] uri_bytes(bytes, capitals)[i],
            ) || uri_bytes(bytes, capitals)[i] == 0x25,
    decreases bytes.len(),
{
    if bytes.len() > 0 {
        let rest = uri_bytes(bytes.skip(1), capitals);
        let encoded = uri_bytes(bytes, capitals);
        lemma_encoded_bytes_are_plain(bytes.skip(1), capitals);
        let n: int = if stands_for_itself(bytes[0]) {
            1
        } else {
            3
        };
        assert(encoded.skip(n) =~= rest);
        assert forall|i: int| 0 <= i < encoded.len() implies stands_for_itself(
            #[trigger] encoded[i],
        ) || encoded[i] == 0x25 by {
            if i >= n {
                assert(encoded[i] == rest[i - n]);
            }
        }
    }
}

proof fn lemma_trimmed_line(before: Seq<char>, entry: Seq<char>, after: Seq<char>)
    requires
        blank(before),
        tight(entry),
        blank(after),
    ensures
        path_in_line(before + entry + after) == path_in_line(entry),
{
    let none = Seq::<char>::empty();
    law_trimmed(before, entry, after);
    law_trimmed(none, entry, none);
    assert(none + entry + none =~= entry);
}

/// A `file://` entry whose path is written as a URI, with white space around it or not, is
/// read as exactly the path. Where the escaped bytes are no text, it is read as written.
pub proof fn law_uri_is_read_back(
    before: Seq<char>,
    bytes: Seq<u8>,
    capitals: bool,
    after: Seq<char>,
)
    requires
        blank(before),
        blank(after),
    ensures
        path_in_line(
            before + (seq!['f', 'i', 'l', 'e', ':', '/', '/'] + uri_path(bytes, capitals)) + after,
        ) == Some(
            match utf8_text(bytes) {
                Some(path) => path,
                None => uri_path(bytes, capitals),
            },
        ),
        forall|path: Seq<char>|
            bytes == #[trigger] encode_utf8(path) ==> path_in_line(
                before + (seq!['f', 'i', 'l', 'e', ':', '/', '/'] + uri_path(bytes, capitals))
                    + after,
            ) == Some(path),
{
    reveal_strlit("file://");
    let written = uri_path(bytes, capitals);
    let entry = seq!['f', 'i', 'l', 'e', ':', '/', '/'] + written;
    assert(seq!['f', 'i', 'l', 'e', ':', '/', '/'] =~= "file://"@);
    lemma_uri_path(bytes, capitals);
    assert(tight(entry)) by {
        if written.len() > 0 {
            assert(entry[entry.len() - 1] == written[written.len() - 1]);
        }
    }
    lemma_trimmed_line(before, entry, after);
    let none = Seq::<char>::empty();
    law_trimmed(none, written, none);
    lemma_entry_line(written);
    assert(trimmed_end(written) == written);
    assert forall|path: Seq<char>| bytes == #[trigger] encode_utf8(path) implies utf8_text(bytes)
        == Some(path) by {
        law_utf8_text(bytes, path);
    }
}

/// What an entry names is what its bytes decode to, wherever they decode to text, and what is
/// written wherever they do not.
pub proof fn law_entry_names_what_it_decodes_to(written: Seq<char>, path: Seq<char>)
    ensures
        encode_utf8(path) == percent_decoded(encode_utf8(written)) ==> decoded_path(written) == path,
        (forall|text: Seq<char>|
            #[trigger] encode_utf8(text) != percent_decoded(encode_utf8(written)))
            ==> decoded_path(written) == written,
{
    let bytes = percent_decoded(encode_utf8(written));
    law_utf8_text(bytes, path);
    if let Some(text) = utf8_text(bytes) {
        law_utf8_text(bytes, text);
    }
}

/// A `file://` entry, with white space around it or not, gives what is decoded from all that
/// follows the scheme.
pub proof fn law_file_entry_is_read(before: Seq<char>, written: Seq<char>, after: Seq<char>)
    requires
        blank(before),
        written.len() > 0 ==> !white_space(written[written.len() - 1]),
        blank(after),
    ensures
        path_in_line(
            before + (seq!['f', 'i', 'l', 'e', ':', '/', '/'] + written) + after,
        ) == Some(decoded_path(written)),
{
    reveal_strlit("file://");
    let entry = seq!['f', 'i', 'l', 'e', ':', '/', '/'] + written;
    assert(seq!['f', 'i', 'l', 'e', ':', '/', '/'] =~= "file://"@);
    assert(tight(entry)) by {
        if written.len() > 0 {
            assert(entry[entry.len() - 1] == written[written.len() - 1]);
        }
    }
    lemma_trimmed_line(before, entry, after);
    lemma_entry_line(written);
    assert(trimmed_end(written) == written);
}

/// A line that is a path from the root, with white space around it or not, is read as it is.
pub proof fn law_plain_line_is_read(before: Seq<char>, path: Seq<char>, after: Seq<char>)
    requires
        blank(before),
        path.len() > 0,
        path[0] == '/',
        tight(path),
        blank(after),
    ensures
        path_in_line(before + path + after) == Some(path),
{
    reveal_strlit("file://");
    law_trimmed(before, path, after);
    assert(!has_prefix(path, "file://"@)) by {
        if has_prefix(path, "file://"@) {
            assert(path.subrange(0, 7)[0] == path[0]);
        }
    }
}

/// A comment gives no path, and neither does a blank line.
pub proof fn law_comments_are_passed_over(before: Seq<char>, comment: Seq<char>)
    requires
        blank(before),
    ensures
        path_in_line(before) is None,
        path_in_line(before + seq!['#'] + comment) is None,
{
    let none = Seq::<char>::empty();
    law_trimmed(before, none, none);
    assert(before + none + none =~= before);
    let (a, core, b) = lemma_trim_parts(comment);
    // The comment's own end decides where the line is trimmed.
    if core.len() == 0 {
        assert(blank(comment)) by {
            assert forall|i: int| 0 <= i < comment.len() implies white_space(#[trigger] comment[i]) by {
                if i < a.len() {
                    assert(comment[i] == a[i]);
                } else {
                    assert(comment[i] == b[i - a.len()]);
                }
            }
        }
        law_trimmed(before, seq!['#'], comment);
    } else {
        let entry = seq!['#'] + a + core;
        assert(entry[entry.len() - 1] == core[core.len() - 1]);
        law_trimmed(before, entry, b);
        assert(before + seq!['#'] + comment =~= before + entry + b);
    }
}

/// A line that is neither a `file://` entry nor a path from the root gives no path.
pub proof fn law_other_lines_are_passed_over(before: Seq<char>, entry: Seq<char>, after: Seq<char>)
    requires
        blank(before),
        entry.len() > 0,
        tight(entry),
        blank(after),
        entry[0] != '/',
        entry.len() < 7 || entry.take(7) != seq!['f', 'i', 'l', 'e', ':', '/', '/'],
    ensures
        path_in_line(before + entry + after) is None,
{
    reveal_strlit("file://");
    law_trimmed(before, entry, after);
    assert(seq!['f', 'i', 'l', 'e', ':', '/', '/'] =~= "file://"@);
    assert(entry.take(7) =~= entry.subrange(0, 7));
}

/// The paths of a document are those of its first line, then those of the rest.
pub proof fn law_list_is_read_line_by_line(line: Seq<char>, rest: Seq<char>)
    requires
        !line.contains('\n'),
    ensures
        listed_paths(line + seq!['\n'] + rest) == (match path_in_line(line) {
            Some(path) => seq![path],
            None => Seq::empty(),
        }) + listed_paths(rest),
        listed_paths(line) == (match path_in_line(line) {
            Some(path) => seq![path],
            None => Seq::empty(),
        }),
{
    let kept = without_cr(line);
    assert(path_in_line(kept) == path_in_line(line)) by {
        if kept != line {
            let (a, core, b) = lemma_trim_parts(kept);
            assert(line =~= kept.push('\r'));
            assert(line =~= a + core + b.push('\r'));
            law_trimmed(a, core, b);
            law_trimmed(a, core, b.push('\r'));
        }
    }
    lemma_first_line(line, rest);
    let lines = text_lines(line + seq!['\n'] + rest);
    assert(lines[0] == kept);
    assert(lines.drop_first() =~= text_lines(rest));
    let read = match path_in_line(line) {
        Some(path) => seq![path],
        None => Seq::empty(),
    };
    assert(listed_paths(line + seq!['\n'] + rest) =~= read + listed_paths(rest));
    law_lines(line, rest);
    if line.len() > 0 {
        assert(seq![line].drop_first() =~= Seq::<Seq<char>>::empty());
        assert(paths_in_lines(seq![line].drop_first()) =~= Seq::<Seq<char>>::empty());
        assert(listed_paths(line) =~= read);
    } else {
        law_comments_are_passed_over(line, line);
        assert(listed_paths(line) =~= read);
    }
}

/// A document that lists `paths` as URIs, one a line.
pub open spec fn uri_document(paths: Seq<Seq<char>>, capitals: bool) -> Seq<char>
    decreases paths.len(),
{
    if paths.len() == 0 {
        Seq::empty()
    } else {
        seq!['f', 'i', 'l', 'e', ':', '/', '/'] + uri_path(encode_utf8(paths[0]), capitals) + seq![
            '\r',
            '\n',
        ] + uri_document(paths.drop_first(), capitals)
    }
}

/// Paths that are listed as URIs are read back, all of them, in order, whatever characters
/// they hold.
pub proof fn law_uri_document_is_read_back(paths: Seq<Seq<char>>, capitals: bool)
    ensures
        listed_paths(uri_document(paths, capitals)) == paths,
    decreases paths.len(),
{
    if paths.len() == 0 {
        assert(listed_paths(uri_document(paths, capitals)) =~= paths);
    } else {
        let bytes = encode_utf8(paths[0]);
        let entry = seq!['f', 'i', 'l', 'e', ':', '/', '/'] + uri_path(bytes, capitals);
        let rest = uri_document(paths.drop_first(), capitals);
        let none = Seq::<char>::empty();
        let line = none + entry + seq!['\r'];
        lemma_uri_path(bytes, capitals);
        law_uri_is_read_back(none, bytes, capitals, seq!['\r']);
        law_uri_document_is_read_back(paths.drop_first(), capitals);
        assert(!line.contains('\n')) by {
            if line.contains('\n') {
                let i = choose|i: int| 0 <= i < line.len() && line[i] == '\n';
                if 7 <= i < entry.len() {
                    assert(line[i] == uri_path(bytes, capitals)[i - 7]);
                }
            }
        }
        law_list_is_read_line_by_line(line, rest);
        assert(uri_document(paths, capitals) =~= line + seq!['\n'] + rest);
        assert(seq![paths[0]] + paths.drop_first() =~= paths);
    }
}

/// Lists are offered path by path: each as `file://`, the path, and the end of a line.
pub proof fn law_offered_list(first: Seq<Seq<char>>, path: Seq<char>, second: Seq<Seq<char>>)
    ensures
        uri_list(first + second) == uri_list(first) + uri_list(second),
        uri_list(seq![path]) == seq!['f', 'i', 'l', 'e', ':', '/', '/'] + path + seq!['\r', '\n'],
        uri_list(Seq::<Seq<char>>::empty()) == Seq::<char>::empty(),
    decreases first.len(),
{
    reveal_strlit("file://");
    reveal_strlit("\r\n");
    assert(seq![path].drop_first() =~= Seq::<Seq<char>>::empty());
    assert(uri_list(seq![path].drop_first()) =~= Seq::<char>::empty());
    assert(uri_list(seq![path]) =~= seq!['f', 'i', 'l', 'e', ':', '/', '/'] + path + seq![
        '\r',
        '\n',
    ]);
    if first.len() == 0 {
        assert(first + second =~= second);
        assert(uri_list(first) + uri_list(second) =~= uri_list(second));
    } else {
        law_offered_list(first.drop_first(), path, second);
        assert((first + second).drop_first() =~= first.drop_first() + second);
        assert(uri_list(first + second) =~= uri_list(first) + uri_list(second));
    }
}

/// The pieces of `text` between its line feeds, and before the first and after the last.
pub open spec fn split_at_line_feeds(text: Seq<char>) -> Seq<Seq<char>>
    decreases text.len(),
{
    if text.len() == 0 {
        seq![Seq::empty()]
    } else if text[0] == '\n' {
        seq![Seq::empty()] + split_at_line_feeds(text.skip(1))
    } else {
        let pieces = split_at_line_feeds(text.skip(1));
        seq![seq![text[0]] + pieces[0]] + pieces.skip(1)
    }
}

proof fn lemma_split_first(piece: Seq<char>, rest: Seq<char>)
    requires
        !piece.contains('\n'),
    ensures
        split_at_line_feeds(piece + seq!['\n'] + rest) == seq![piece] + split_at_line_feeds(rest),
        split_at_line_feeds(piece) == seq![piece],
    decreases piece.len(),
{
    let text = piece + seq!['\n'] + rest;
    if piece.len() == 0 {
        assert(piece =~= Seq::<char>::empty());
        assert(text.skip(1) =~= rest);
        assert(split_at_line_feeds(text) =~= seq![piece] + split_at_line_feeds(rest));
        assert(split_at_line_feeds(piece) =~= seq![piece]);
    } else {
        let shorter = piece.skip(1);
        assert(piece.contains(piece[0]));
        assert(!shorter.contains('\n')) by {
            if shorter.contains('\n') {
                let i = choose|i: int| 0 <= i < shorter.len() && shorter[i] == '\n';
                assert(piece[i + 1] == '\n');
            }
        }
        lemma_split_first(shorter, rest);
        assert(text.skip(1) =~= shorter + seq!['\n'] + rest);
        assert(seq![piece[0]] + shorter =~= piece);
        assert((seq![shorter] + split_at_line_feeds(rest)).skip(1) =~= split_at_line_feeds(rest));
        assert(seq![shorter].skip(1) =~= Seq::<Seq<char>>::empty());
        assert(split_at_line_feeds(piece) =~= seq![piece]);
    }
}

/// Texts that were joined come back, all of them, when the whole is split at its line feeds,
/// unless there are none or one holds a line feed itself.
pub proof fn law_joined_lines_split(texts: Seq<Seq<char>>)
    requires
        texts.len() > 0,
        forall|i: int| 0 <= i < texts.len() ==> !(#[trigger] texts[i]).contains('\n'),
    ensures
        split_at_line_feeds(joined_lines(texts)) == texts,
    decreases texts.len(),
{
    reveal_strlit("\n");
    let rest = texts.drop_first();
    lemma_split_first(texts[0], joined_lines(rest));
    if texts.len() == 1 {
        assert(seq![texts[0]] =~= texts);
    } else {
        assert forall|i: int| 0 <= i < rest.len() implies !(#[trigger] rest[i]).contains('\n') by {
            assert(rest[i] == texts[i + 1]);
        }
        law_joined_lines_split(rest);
        assert("\n"@ =~= seq!['\n']);
        assert(seq![texts[0]] + rest =~= texts);
    }
}

/// Joining puts one line feed between two lists, and nothing round a single text.
pub proof fn law_joined_lines(first: Seq<Seq<char>>, text: Seq<char>, second: Seq<Seq<char>>)
    ensures
        first.len() > 0 && second.len() > 0 ==> joined_lines(first + second) == joined_lines(first)
            + seq!['\n'] + joined_lines(second),
        joined_lines(seq![text]) == text,
        joined_lines(Seq::<Seq<char>>::empty()) == Seq::<char>::empty(),
    decreases first.len(),
{
    reveal_strlit("\n");
    assert("\n"@ =~= seq!['\n']);
    if first.len() > 0 && second.len() > 0 {
        assert((first + second).drop_first() =~= first.drop_first() + second);
        if first.len() == 1 {
            assert(first.drop_first() + second =~= second);
        } else {
            law_joined_lines(first.drop_first(), text, second);
            assert(joined_lines(first + second) =~= joined_lines(first) + seq!['\n']
                + joined_lines(second));
        }
    }
}

} // verus!

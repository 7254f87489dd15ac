//! Reading parameters out of the JSON bodies of API requests: the string
//! value or the number text that follows a key. The search pattern for a
//! key is built in a fixed 64-byte buffer.

use vstd::prelude::*;
use vstd::string::StrSliceExecFns;

use crate::fixed::{pattern_capacity, pattern_held, written_until_full, KeyPattern};
use crate::text::{
    chars_of,
    find,
    find_from,
    first_where,
    is_first_match,
    is_first_where,
    lemma_find,
    lemma_first_where,
    matches_at,
    not_white_space,
    skip_white_space,
    trim_start,
    utf8_len,
};

verus! {

/// The search pattern for the string value of `key`: `"key":"`, as far as
/// it fits in 64 bytes.
pub open spec fn string_key_pattern(key: Seq<char>) -> Seq<char> {
    written_until_full(seq![], seq![seq!['"'], key, seq!['"', ':', '"']], pattern_capacity())
}

/// The search pattern for the number value of `key`: `"key":`, as far as it
/// fits in 64 bytes.
pub open spec fn number_key_pattern(key: Seq<char>) -> Seq<char> {
    written_until_full(seq![], seq![seq!['"'], key, seq!['"', ':']], pattern_capacity())
}

/// The string value of `key` in `json`: the text after the first
/// `"key":"` up to the next `"`.
pub open spec fn json_string_field(json: Seq<char>, key: Seq<char>) -> Option<Seq<char>> {
    let pattern = string_key_pattern(key);
    match find(json, pattern) {
        None => None,
        Some(i) => {
            let start = i + pattern.len();
            match find(json.skip(start), seq!['"']) {
                None => None,
                Some(j) => Some(json.subrange(start, start + j)),
            }
        },
    }
}

/// Characters that may make up a number: ASCII digits, `.` and `-`.
pub open spec fn is_number_char(c: char) -> bool {
    ('0' <= c && c <= '9') || c == '.' || c == '-'
}

/// The characters that may not make up a number.
pub open spec fn not_number_char() -> spec_fn(char) -> bool {
    |c: char| !is_number_char(c)
}

/// The text of the number value of `key` in `json`: after the first
/// `"key":` and the white space that follows it, the longest run of
/// number characters (possibly empty).
pub open spec fn json_number_text(json: Seq<char>, key: Seq<char>) -> Option<Seq<char>> {
    let pattern = number_key_pattern(key);
    match find(json, pattern) {
        None => None,
        Some(i) => {
            let rest = trim_start(json.skip(i + pattern.len()));
            Some(rest.take(first_where(rest, not_number_char())))
        },
    }
}

/// For a key of at most 60 bytes the string-value pattern is whole:
/// `"key":"`; for one of at most 61 bytes so is the number-value pattern
/// `"key":`.
pub proof fn lemma_key_patterns_whole(key: Seq<char>)
    ensures
        utf8_len(key) <= 60 ==> string_key_pattern(key) == seq!['"'] + key + seq!['"', ':', '"'],
        utf8_len(key) <= 61 ==> number_key_pattern(key) == seq!['"'] + key + seq!['"', ':'],
{
    let q = seq!['"'];
    let s3 = seq!['"', ':', '"'];
    let s2 = seq!['"', ':'];
    assert(vstd::utf8::is_ascii_chars(q));
    assert(vstd::utf8::is_ascii_chars(s3));
    assert(vstd::utf8::is_ascii_chars(s2));
    vstd::utf8::is_ascii_chars_encode_utf8(q);
    vstd::utf8::is_ascii_chars_encode_utf8(s3);
    vstd::utf8::is_ascii_chars_encode_utf8(s2);
    let e = Seq::<char>::empty();
    assert(utf8_len(e) == 0);
    let p3 = seq![q, key, s3];
    let p2 = seq![q, key, s2];
    reveal_with_fuel(crate::fixed::joined, 4);
    reveal_with_fuel(crate::fixed::joined_utf8_len, 4);
    assert(p3.drop_first() =~= seq![key, s3]);
    assert(p3.drop_first().drop_first() =~= seq![s3]);
    assert(p3.drop_first().drop_first().drop_first() =~= Seq::<Seq<char>>::empty());
    assert(p2.drop_first() =~= seq![key, s2]);
    assert(p2.drop_first().drop_first() =~= seq![s2]);
    assert(p2.drop_first().drop_first().drop_first() =~= Seq::<Seq<char>>::empty());
    if utf8_len(key) <= 60 {
        crate::fixed::lemma_written_whole(e, p3, pattern_capacity());
        assert(e + crate::fixed::joined(p3) =~= q + key + s3);
    }
    if utf8_len(key) <= 61 {
        crate::fixed::lemma_written_whole(e, p2, pattern_capacity());
        assert(e + crate::fixed::joined(p2) =~= q + key + s2);
    }
}

/// A string member `"key":"value"` is read back wherever it stands and
/// whatever follows its closing quote: for a key of at most 60 bytes, a
/// value without `"`, any text `pre` in which no `"key":"` begins, and any
/// text `more` after the value's closing quote.
pub proof fn lemma_string_member_read_anywhere(
    pre: Seq<char>,
    key: Seq<char>,
    value: Seq<char>,
    more: Seq<char>,
)
    requires
        utf8_len(key) <= 60,
        forall|i: int| 0 <= i < value.len() ==> value[i] != '"',
        forall|j: int|
            0 <= j < pre.len() ==> !matches_at(
                pre + (seq!['"'] + key + seq!['"', ':', '"']) + value + seq!['"'] + more,
                seq!['"'] + key + seq!['"', ':', '"'],
                j,
            ),
    ensures
        json_string_field(
            pre + (seq!['"'] + key + seq!['"', ':', '"']) + value + seq!['"'] + more,
            key,
        ) == Some(value),
{
    lemma_key_patterns_whole(key);
    let p = seq!['"'] + key + seq!['"', ':', '"'];
    let body = pre + p + value + seq!['"'] + more;
    assert(body.subrange(pre.len() as int, pre.len() + p.len() as int) =~= p);
    assert(is_first_match(body, p, pre.len() as int));
    lemma_find(body, p);
    let start = pre.len() + p.len() as int;
    let rest = body.skip(start);
    assert(rest =~= value + seq!['"'] + more);
    let quote = seq!['"'];
    assert(rest.subrange(value.len() as int, value.len() + 1 as int) =~= quote);
    assert forall|j: int| 0 <= j < value.len() implies !matches_at(rest, quote, j) by {
        assert(rest.subrange(j, j + 1)[0] == value[j]);
    }
    assert(is_first_match(rest, quote, value.len() as int));
    lemma_find(rest, quote);
    assert(body.subrange(start, start + value.len() as int) =~= value);
}

/// A number member `"key":number` is read back wherever it stands: for a
/// key of at most 61 bytes, any text `pre` in which no `"key":` begins, a
/// non-empty run `number` of number characters, and any text `rest` that
/// does not go on with a number character.
pub proof fn lemma_number_member_read_anywhere(
    pre: Seq<char>,
    key: Seq<char>,
    number: Seq<char>,
    rest: Seq<char>,
)
    requires
        utf8_len(key) <= 61,
        number.len() > 0,
        forall|i: int| 0 <= i < number.len() ==> is_number_char(number[i]),
        rest.len() == 0 || !is_number_char(rest[0]),
        forall|j: int|
            0 <= j < pre.len() ==> !matches_at(
                pre + (seq!['"'] + key + seq!['"', ':']) + number + rest,
                seq!['"'] + key + seq!['"', ':'],
                j,
            ),
    ensures
        json_number_text(pre + (seq!['"'] + key + seq!['"', ':']) + number + rest, key) == Some(
            number,
        ),
{
    lemma_key_patterns_whole(key);
    let p = seq!['"'] + key + seq!['"', ':'];
    let body = pre + p + number + rest;
    assert(body.subrange(pre.len() as int, pre.len() + p.len() as int) =~= p);
    assert(is_first_match(body, p, pre.len() as int));
    lemma_find(body, p);
    let after = body.skip(pre.len() + p.len() as int);
    assert(after =~= number + rest);
    assert(after[0] == number[0]);
    assert(!crate::text::is_white_space(after[0]));
    assert(is_first_where(after, not_white_space(), 0));
    lemma_first_where(after, not_white_space());
    assert(after.skip(0) =~= after);
    if rest.len() > 0 {
        assert(after[number.len() as int] == rest[0]);
    }
    assert(is_first_where(after, not_number_char(), number.len() as int));
    lemma_first_where(after, not_number_char());
    assert(after.take(number.len() as int) =~= number);
}

/// A JSON object `{"key":"value"}` gives back its value, for any key of at
/// most 60 bytes and any value without a `"`.
pub proof fn lemma_string_field_read_back(key: Seq<char>, value: Seq<char>)
    requires
        utf8_len(key) <= 60,
        forall|i: int| 0 <= i < value.len() ==> value[i] != '"',
    ensures
        json_string_field(
            seq!['{'] + string_key_pattern(key) + value + seq!['"', '}'],
            key,
        ) == Some(value),
{
    lemma_key_patterns_whole(key);
    let p = string_key_pattern(key);
    let body = seq!['{'] + p + value + seq!['"', '}'];
    assert(p[0] == '"');
    assert(body.subrange(1, 1 + p.len() as int) =~= p);
    assert(body.subrange(0, p.len() as int)[0] == '{');
    assert(!matches_at(body, p, 0));
    assert(is_first_match(body, p, 1));
    lemma_find(body, p);
    let start = 1 + p.len() as int;
    let rest = body.skip(start);
    assert(rest =~= value + seq!['"', '}']);
    let quote = seq!['"'];
    assert(rest.subrange(value.len() as int, value.len() + 1 as int) =~= quote);
    assert forall|j: int| 0 <= j < value.len() implies !matches_at(rest, quote, j) by {
        assert(rest.subrange(j, j + 1)[0] == value[j]);
    }
    assert(is_first_match(rest, quote, value.len() as int));
    lemma_find(rest, quote);
    assert(body.subrange(start, start + value.len() as int) =~= value);
}

/// A JSON object `{"key":number}` gives back the text of the number, for
/// any key of at most 61 bytes and any run of number characters.
pub proof fn lemma_number_field_read_back(key: Seq<char>, number: Seq<char>)
    requires
        utf8_len(key) <= 61,
        forall|i: int| 0 <= i < number.len() ==> is_number_char(number[i]),
    ensures
        json_number_text(seq!['{'] + number_key_pattern(key) + number + seq!['}'], key) == Some(
            number,
        ),
{
    lemma_key_patterns_whole(key);
    let p = number_key_pattern(key);
    let body = seq!['{'] + p + number + seq!['}'];
    assert(p[0] == '"');
    assert(body.subrange(1, 1 + p.len() as int) =~= p);
    assert(body.subrange(0, p.len() as int)[0] == '{');
    assert(!matches_at(body, p, 0));
    assert(is_first_match(body, p, 1));
    lemma_find(body, p);
    let rest = body.skip(1 + p.len() as int);
    assert(rest =~= number + seq!['}']);
    assert(!crate::text::is_white_space(rest[0]));
    assert(is_first_where(rest, not_white_space(), 0));
    lemma_first_where(rest, not_white_space());
    assert(rest.skip(0) =~= rest);
    assert(is_first_where(rest, not_number_char(), number.len() as int));
    lemma_first_where(rest, not_number_char());
    assert(rest.take(number.len() as int) =~= number);
}

/// Write `"`, `key` and `suffix` into a 64-byte pattern, stopping at the
/// first piece that does not fit.
fn key_pattern(key: &str, suffix: &str) -> (pattern: KeyPattern)
    ensures
        pattern_held(pattern) == written_until_full(
            seq![],
            seq![seq!['"'], key@, suffix@],
            pattern_capacity(),
        ),
{
    let mut pattern = KeyPattern::new();
    let quote = "\"";
    proof {
        reveal_strlit("\"");
        assert(quote@ =~= seq!['"']);
    }
    let ghost pieces = seq![seq!['"'], key@, suffix@];
    let ghost empty = Seq::<char>::empty();
    proof {
        assert(pieces.drop_first() =~= seq![key@, suffix@]);
        assert(pieces.drop_first().drop_first() =~= seq![suffix@]);
        assert(pieces.drop_first().drop_first().drop_first() =~= Seq::<Seq<char>>::empty());
        assert(empty + quote@ =~= quote@);
        assert(written_until_full(seq![], pieces, pattern_capacity()) == if utf8_len(empty)
            + utf8_len(quote@) <= pattern_capacity() {
            written_until_full(quote@, pieces.drop_first(), pattern_capacity())
        } else {
            empty
        });
        assert(written_until_full(quote@, pieces.drop_first(), pattern_capacity()) == if utf8_len(
            quote@,
        ) + utf8_len(key@) <= pattern_capacity() {
            written_until_full(quote@ + key@, pieces.drop_first().drop_first(), pattern_capacity())
        } else {
            quote@
        });
        assert(written_until_full(
            quote@ + key@,
            pieces.drop_first().drop_first(),
            pattern_capacity(),
        ) == if utf8_len(quote@ + key@) + utf8_len(suffix@) <= pattern_capacity() {
            written_until_full(
                quote@ + key@ + suffix@,
                pieces.drop_first().drop_first().drop_first(),
                pattern_capacity(),
            )
        } else {
            quote@ + key@
        });
    }
    if pattern.push_str(quote) {
        if pattern.push_str(key) {
            pattern.push_str(suffix);
        }
    }
    pattern
}

/// Index just past the number characters that start `s[from..]`, counted
/// from the start of `s`.
fn skip_number(s: &[char], from: usize) -> (r: usize)
    requires
        from <= s@.len(),
    ensures
        from <= r <= s@.len(),
        is_first_where(s@.skip(from as int), not_number_char(), r - from),
{
    let mut i = from;
    while i < s.len() && (('0' <= s[i] && s[i] <= '9') || s[i] == '.' || s[i] == '-')
        invariant
            from <= i <= s@.len(),
            forall|j: int| from <= j < i ==> is_number_char(s@[j]),
        decreases s@.len() - i,
    {
        i += 1;
    }
    i
}

/// The string value of `key` in the JSON text `json`: what follows the
/// first `"key":"`, up to the next `"`.
pub fn extract_json_string<'a>(json: &'a str, key: &str) -> (value: Option<&'a str>)
    ensures
        match json_string_field(json@, key@) {
            None => value is None,
            Some(v) => value matches Some(s) && s@ == v,
        },
{
    let suffix = "\":\"";
    proof {
        reveal_strlit("\":\"");
        assert(suffix@ =~= seq!['"', ':', '"']);
    }
    let pattern = key_pattern(key, suffix);
    let pat = chars_of(pattern.as_str());
    let chars = chars_of(json);
    let len = chars.len();
    let ghost j = json@;
    proof {
        assert(j.skip(0) =~= j);
        lemma_find(j, pat@);
    }
    match find_from(chars.as_slice(), 0, pat.as_slice()) {
        None => None,
        Some(i) => {
            assert(chars@.skip(0) == j);
            assert(is_first_match(j, pat@, i as int));
            assert(i + pat@.len() <= len);
            let start = i + pat.len();
            let quote = ['"'];
            proof {
                assert(quote@ =~= seq!['"']);
            }
            match find_from(chars.as_slice(), start, quote.as_slice()) {
                None => None,
                Some(e) => {
                    proof {
                        lemma_find(j.skip(start as int), seq!['"']);
                    }
                    Some(json.substring_char(start, start + e))
                },
            }
        },
    }
}

/// The text of the number value of `key` in the JSON text `json`.
fn json_number_slice<'a>(json: &'a str, key: &str) -> (text: Option<&'a str>)
    ensures
        match json_number_text(json@, key@) {
            None => text is None,
            Some(t) => text matches Some(s) && s@ == t,
        },
{
    let suffix = "\":";
    proof {
        reveal_strlit("\":");
        assert(suffix@ =~= seq!['"', ':']);
    }
    let pattern = key_pattern(key, suffix);
    let pat = chars_of(pattern.as_str());
    let chars = chars_of(json);
    let len = chars.len();
    let ghost j = json@;
    proof {
        assert(j.skip(0) =~= j);
        lemma_find(j, pat@);
    }
    match find_from(chars.as_slice(), 0, pat.as_slice()) {
        None => None,
        Some(i) => {
            assert(chars@.skip(0) == j);
            assert(is_first_match(j, pat@, i as int));
            assert(i + pat@.len() <= len);
            let start = i + pat.len();
            let a = skip_white_space(chars.as_slice(), start);
            let e = skip_number(chars.as_slice(), a);
            proof {
                let rest = j.skip(start as int);
                lemma_first_where(rest, not_white_space());
                assert(rest.skip(a - start) =~= j.skip(a as int));
                let trimmed = j.skip(a as int);
                lemma_first_where(trimmed, not_number_char());
                assert(trimmed.take(e - a) =~= j.subrange(a as int, e as int));
            }
            Some(json.substring_char(a, e))
        },
    }
}

/// The number value of `key` in the JSON text `json`, as `parse` reads the
/// text of the number.
pub fn extract_json_number<N, F: Fn(&str) -> Option<N>>(json: &str, key: &str, parse: &F) -> (value:
    Option<N>)
    requires
        forall|s: &str| call_requires(*parse, (s,)),
    ensures
        match json_number_text(json@, key@) {
            None => value is None,
            Some(t) => exists|s: &str| s@ == t && call_ensures(*parse, (s,), value),
        },
{
    match json_number_slice(json, key) {
        None => None,
        Some(text) => parse(text),
    }
}

} // verus!

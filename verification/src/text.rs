//! Character-level text scanning over the characters of a `str`: searching
//! for a substring, Unicode white space, word splitting and UTF-8 length.

use vstd::prelude::*;
use vstd::utf8::encode_utf8;

verus! {

/// `pat` occurs in `hay` starting at index `i`.
pub open spec fn matches_at(hay: Seq<char>, pat: Seq<char>, i: int) -> bool {
    &&& 0 <= i
    &&& i + pat.len() <= hay.len()
    &&& hay.subrange(i, i + pat.len()) == pat
}

/// `i` is the first index at which `pat` occurs in `hay`.
pub open spec fn is_first_match(hay: Seq<char>, pat: Seq<char>, i: int) -> bool {
    &&& matches_at(hay, pat, i)
    &&& forall|j: int| 0 <= j < i ==> !matches_at(hay, pat, j)
}

/// Index of the first occurrence of `pat` in `hay`, if there is one.
pub open spec fn find(hay: Seq<char>, pat: Seq<char>) -> Option<int> {
    if exists|i: int| matches_at(hay, pat, i) {
        Some(choose|i: int| is_first_match(hay, pat, i))
    } else {
        None
    }
}

proof fn lemma_first_match_exists(hay: Seq<char>, pat: Seq<char>, w: int)
    requires
        matches_at(hay, pat, w),
    ensures
        exists|i: int| is_first_match(hay, pat, i),
    decreases w,
{
    if forall|j: int| 0 <= j < w ==> !matches_at(hay, pat, j) {
        assert(is_first_match(hay, pat, w));
    } else {
        let j = choose|j: int| 0 <= j < w && matches_at(hay, pat, j);
        lemma_first_match_exists(hay, pat, j);
    }
}

/// `find` gives the first occurrence, and nothing when there is none.
pub proof fn lemma_find(hay: Seq<char>, pat: Seq<char>)
    ensures
        find(hay, pat) matches Some(i) ==> is_first_match(hay, pat, i),
        find(hay, pat) is None ==> forall|j: int| !matches_at(hay, pat, j),
        forall|k: int| is_first_match(hay, pat, k) ==> find(hay, pat) == Some(k),
{
    if exists|i: int| matches_at(hay, pat, i) {
        let w = choose|i: int| matches_at(hay, pat, i);
        lemma_first_match_exists(hay, pat, w);
        let f = choose|i: int| is_first_match(hay, pat, i);
        assert forall|k: int| is_first_match(hay, pat, k) implies find(hay, pat) == Some(k) by {
            if k < f {
                assert(!matches_at(hay, pat, k));
            } else if f < k {
                assert(!matches_at(hay, pat, f));
            }
        }
    }
}

/// `k` is the first index of `s` whose character satisfies `p`, or the
/// length of `s` when none does.
pub open spec fn is_first_where(s: Seq<char>, p: spec_fn(char) -> bool, k: int) -> bool {
    &&& 0 <= k <= s.len()
    &&& forall|j: int| 0 <= j < k ==> !p(s[j])
    &&& (k == s.len() || p(s[k]))
}

/// Index of the first character of `s` that satisfies `p`; the length of
/// `s` when none does.
pub open spec fn first_where(s: Seq<char>, p: spec_fn(char) -> bool) -> int {
    choose|k: int| is_first_where(s, p, k)
}

proof fn lemma_first_where_exists(s: Seq<char>, p: spec_fn(char) -> bool, i: int)
    requires
        0 <= i <= s.len(),
        forall|j: int| 0 <= j < i ==> !p(s[j]),
    ensures
        exists|k: int| is_first_where(s, p, k),
    decreases s.len() - i,
{
    if i == s.len() || p(s[i]) {
        assert(is_first_where(s, p, i));
    } else {
        lemma_first_where_exists(s, p, i + 1);
    }
}

/// `first_where` is the one index that `is_first_where` describes.
pub proof fn lemma_first_where(s: Seq<char>, p: spec_fn(char) -> bool)
    ensures
        is_first_where(s, p, first_where(s, p)),
        forall|k: int| is_first_where(s, p, k) ==> k == first_where(s, p),
{
    lemma_first_where_exists(s, p, 0);
    let f = first_where(s, p);
    assert forall|k: int| is_first_where(s, p, k) implies k == f by {
        if k < f {
            assert(p(s[k]));
        } else if f < k {
            assert(p(s[f]));
        }
    }
}

/// Unicode `White_Space` characters, those for which `char::is_whitespace`
/// holds.
pub open spec fn is_white_space(c: char) -> bool {
    let u = c as u32;
    ||| 0x9 <= u <= 0xD
    ||| u == 0x20
    ||| u == 0x85
    ||| u == 0xA0
    ||| u == 0x1680
    ||| 0x2000 <= u <= 0x200A
    ||| u == 0x2028
    ||| u == 0x2029
    ||| u == 0x202F
    ||| u == 0x205F
    ||| u == 0x3000
}

/// Whether `c` is a Unicode white-space character.
pub fn white_space(c: char) -> (r: bool)
    ensures
        r == is_white_space(c),
{
    let u = c as u32;
    (0x9 <= u && u <= 0xD) || u == 0x20 || u == 0x85 || u == 0xA0 || u == 0x1680 || (0x2000 <= u
        && u <= 0x200A) || u == 0x2028 || u == 0x2029 || u == 0x202F || u == 0x205F || u == 0x3000
}

/// The words of `s`: its maximal runs of non-white-space characters, in
/// order (what `str::split_whitespace` yields).
pub open spec fn words(s: Seq<char>) -> Seq<Seq<char>>
    decreases s.len(),
{
    if s.len() == 0 {
        seq![]
    } else {
        let before = words(s.drop_last());
        let c = s.last();
        if is_white_space(c) {
            before
        } else if s.len() >= 2 && !is_white_space(s[s.len() - 2]) {
            before.update(before.len() - 1, before.last().push(c))
        } else {
            before.push(seq![c])
        }
    }
}

/// White space appended to a text adds no word.
pub proof fn lemma_words_append_space(x: Seq<char>, w: Seq<char>)
    requires
        forall|j: int| 0 <= j < w.len() ==> is_white_space(w[j]),
    ensures
        words(x + w) == words(x),
    decreases w.len(),
{
    if w.len() > 0 {
        let w0 = w.drop_last();
        lemma_words_append_space(x, w0);
        assert((x + w).drop_last() =~= x + w0);
        assert((x + w).last() == w.last());
    } else {
        assert(x + w =~= x);
    }
}

/// A run of non-white-space characters appended to a text that is empty or
/// ends in white space adds that run as one more word.
pub proof fn lemma_words_append_word(x: Seq<char>, t: Seq<char>)
    requires
        t.len() > 0,
        forall|j: int| 0 <= j < t.len() ==> !is_white_space(t[j]),
        x.len() == 0 || is_white_space(x.last()),
    ensures
        words(x + t) == words(x).push(t),
    decreases t.len(),
{
    let t0 = t.drop_last();
    assert((x + t).drop_last() =~= x + t0);
    assert((x + t).last() == t.last());
    if t0.len() == 0 {
        assert(x + t0 =~= x);
        assert(seq![t.last()] =~= t);
    } else {
        lemma_words_append_word(x, t0);
        assert((x + t)[(x + t).len() - 2] == t0.last());
        assert(t0.push(t.last()) =~= t);
        assert(words(x + t) =~= words(x).push(t));
    }
}

/// Appending text never removes words.
pub proof fn lemma_words_grow(x: Seq<char>, y: Seq<char>)
    ensures
        words(x).len() <= words(x + y).len(),
    decreases y.len(),
{
    if y.len() == 0 {
        assert(x + y =~= x);
    } else {
        let y0 = y.drop_last();
        lemma_words_grow(x, y0);
        assert((x + y).drop_last() =~= x + y0);
    }
}

/// The characters that are not white space.
pub open spec fn not_white_space() -> spec_fn(char) -> bool {
    |c: char| !is_white_space(c)
}

/// The white-space characters.
pub open spec fn white_space_char() -> spec_fn(char) -> bool {
    |c: char| is_white_space(c)
}

/// A request line made of three words separated by single spaces splits
/// into exactly those three words.
pub proof fn lemma_words_of_three(a: Seq<char>, b: Seq<char>, c: Seq<char>)
    requires
        a.len() > 0,
        b.len() > 0,
        c.len() > 0,
        forall|i: int| 0 <= i < a.len() ==> !is_white_space(a[i]),
        forall|i: int| 0 <= i < b.len() ==> !is_white_space(b[i]),
        forall|i: int| 0 <= i < c.len() ==> !is_white_space(c[i]),
    ensures
        words(a + seq![' '] + b + seq![' '] + c) == seq![a, b, c],
{
    let sp = seq![' '];
    let e = Seq::<char>::empty();
    assert(words(e) == Seq::<Seq<char>>::empty());
    lemma_words_append_word(e, a);
    assert(e + a =~= a);
    lemma_words_append_space(a, sp);
    assert(is_white_space((a + sp).last()));
    lemma_words_append_word(a + sp, b);
    lemma_words_append_space(a + sp + b, sp);
    assert(is_white_space((a + sp + b + sp).last()));
    lemma_words_append_word(a + sp + b + sp, c);
    assert(seq![a].push(b).push(c) =~= seq![a, b, c]);
}

/// `s` with its leading white space removed (what `str::trim_start` gives).
pub open spec fn trim_start(s: Seq<char>) -> Seq<char> {
    s.skip(first_where(s, not_white_space()))
}

/// Length in bytes of the UTF-8 encoding of `s`.
pub open spec fn utf8_len(s: Seq<char>) -> nat {
    encode_utf8(s).len()
}

/// The encoding of a concatenation is the concatenation of the encodings.
pub proof fn lemma_encode_utf8_concat(a: Seq<char>, b: Seq<char>)
    ensures
        encode_utf8(a + b) == encode_utf8(a) + encode_utf8(b),
    decreases a.len(),
{
    if a.len() == 0 {
        assert(a + b =~= b);
    } else {
        lemma_encode_utf8_concat(a.drop_first(), b);
        assert((a + b).drop_first() =~= a.drop_first() + b);
        assert(encode_utf8(a + b) =~= encode_utf8(a) + encode_utf8(b));
    }
}

/// The characters of `s`, in order.
pub fn chars_of(s: &str) -> (v: Vec<char>)
    ensures
        v@ == s@,
{
    let mut v: Vec<char> = Vec::new();
    for c in it: s.chars()
        invariant
            v@ == it.seq().take(it.index() as int),
    {
        v.push(c);
    }
    v
}

/// Whether `pat` occurs in `hay` at `from + i`.
fn matches_here(hay: &[char], from: usize, pat: &[char], i: usize) -> (r: bool)
    requires
        from <= hay@.len(),
    ensures
        r == matches_at(hay@.skip(from as int), pat@, i as int),
{
    let rest_len = hay.len() - from;
    if i > rest_len || pat.len() > rest_len - i {
        return false;
    }
    let ghost rest = hay@.skip(from as int);
    let mut k: usize = 0;
    while k < pat.len()
        invariant
            i + pat@.len() <= rest.len(),
            rest == hay@.skip(from as int),
            from <= hay@.len(),
            rest.len() == hay@.len() - from,
            rest_len == rest.len(),
            from + rest_len == hay@.len(),
            hay@.len() <= usize::MAX,
            k <= pat@.len(),
            forall|m: int| 0 <= m < k ==> rest[i + m] == pat@[m],
        decreases pat@.len() - k,
    {
        if hay[from + i + k] != pat[k] {
            assert(rest.subrange(i as int, i + pat@.len())[k as int] != pat@[k as int]);
            return false;
        }
        k += 1;
    }
    assert(rest.subrange(i as int, i + pat@.len()) =~= pat@);
    true
}

/// Index, relative to `from`, of the first occurrence of `pat` in
/// `hay[from..]`.
pub fn find_from(hay: &[char], from: usize, pat: &[char]) -> (r: Option<usize>)
    requires
        from <= hay@.len(),
    ensures
        r matches Some(i) ==> find(hay@.skip(from as int), pat@) == Some(i as int),
        r is None ==> find(hay@.skip(from as int), pat@) is None,
{
    let ghost rest = hay@.skip(from as int);
    proof {
        lemma_find(rest, pat@);
    }
    let rest_len = hay.len() - from;
    if pat.len() > rest_len {
        assert forall|j: int| !matches_at(rest, pat@, j) by {}
        return None;
    }
    if pat.len() == 0 {
        assert(rest.subrange(0, 0) =~= pat@);
        assert(is_first_match(rest, pat@, 0));
        return Some(0);
    }
    let last = rest_len - pat.len();
    let mut i: usize = 0;
    while i <= last
        invariant
            rest == hay@.skip(from as int),
            from <= hay@.len(),
            last == rest.len() - pat@.len(),
            pat@.len() >= 1,
            rest.len() == hay@.len() - from,
            rest_len == rest.len(),
            i <= last + 1,
            forall|j: int| 0 <= j < i ==> !matches_at(rest, pat@, j),
        decreases last + 1 - i,
    {
        if matches_here(hay, from, pat, i) {
            assert(is_first_match(rest, pat@, i as int));
            return Some(i);
        }
        i += 1;
    }
    assert forall|j: int| !matches_at(rest, pat@, j) by {
        if 0 <= j && j < i {
        }
    }
    None
}

/// Index of the first non-white-space character of `s[from..]`, counted
/// from the start of `s`; the length of `s` when there is none.
pub fn skip_white_space(s: &[char], from: usize) -> (r: usize)
    requires
        from <= s@.len(),
    ensures
        from <= r <= s@.len(),
        is_first_where(s@.skip(from as int), not_white_space(), r - from),
{
    let mut i = from;
    while i < s.len() && white_space(s[i])
        invariant
            from <= i <= s@.len(),
            forall|j: int| from <= j < i ==> is_white_space(s@[j]),
        decreases s@.len() - i,
    {
        i += 1;
    }
    i
}

/// Index of the first white-space character of `s[from..]`, counted from
/// the start of `s`; the length of `s` when there is none.
pub fn skip_word(s: &[char], from: usize) -> (r: usize)
    requires
        from <= s@.len(),
    ensures
        from <= r <= s@.len(),
        is_first_where(s@.skip(from as int), white_space_char(), r - from),
{
    let mut i = from;
    while i < s.len() && !white_space(s[i])
        invariant
            from <= i <= s@.len(),
            forall|j: int| from <= j < i ==> !is_white_space(s@[j]),
        decreases s@.len() - i,
    {
        i += 1;
    }
    i
}

/// Whether the two texts hold the same characters.
pub fn same_text(a: &str, b: &str) -> (r: bool)
    ensures
        r == (a@ == b@),
{
    let x = chars_of(a);
    let y = chars_of(b);
    if x.len() != y.len() {
        return false;
    }
    let mut i: usize = 0;
    while i < x.len()
        invariant
            x@ == a@,
            y@ == b@,
            x@.len() == y@.len(),
            i <= x@.len(),
            forall|j: int| 0 <= j < i ==> x@[j] == y@[j],
        decreases x@.len() - i,
    {
        if x[i] != y[i] {
            assert(a@[i as int] != b@[i as int]);
            return false;
        }
        i += 1;
    }
    assert(x@ =~= y@);
    true
}

/// Whether `s` begins with `prefix`.
pub fn starts_with(s: &str, prefix: &str) -> (r: bool)
    ensures
        r == (prefix@.len() <= s@.len() && s@.take(prefix@.len() as int) == prefix@),
{
    let x = chars_of(s);
    let y = chars_of(prefix);
    if y.len() > x.len() {
        return false;
    }
    let mut i: usize = 0;
    while i < y.len()
        invariant
            x@ == s@,
            y@ == prefix@,
            y@.len() <= x@.len(),
            i <= y@.len(),
            forall|j: int| 0 <= j < i ==> x@[j] == y@[j],
        decreases y@.len() - i,
    {
        if x[i] != y[i] {
            assert(x@.take(y@.len() as int)[i as int] != y@[i as int]);
            return false;
        }
        i += 1;
    }
    assert(x@.take(y@.len() as int) =~= y@);
    true
}

} // verus!

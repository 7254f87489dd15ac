//! Fixed-capacity buffers from the `heapless` crate: the word list of a
//! request line (at most 8 words), the search pattern for a JSON key (64
//! bytes) and the head of an HTTP response (256 bytes).

use vstd::prelude::*;
use vstd::string::StringSliceAdditionalSpecFns;

verus! {

/// The words of a request line, in a `heapless::Vec` of capacity 8.
#[verifier::external_body]
pub struct RequestParts<'a> {
    parts: heapless::Vec<&'a str, 8>,
}

/// The search pattern for a JSON key, in a `heapless::String` of 64 bytes.
#[verifier::external_body]
pub struct KeyPattern {
    text: heapless::String<64>,
}

/// The status line and headers of an HTTP response, in a
/// `heapless::String` of 256 bytes.
#[verifier::external_body]
pub struct ResponseHead {
    text: heapless::String<256>,
}

/// The words held, in order.
pub uninterp spec fn parts_held(parts: RequestParts) -> Seq<Seq<char>>;

/// The characters held.
pub uninterp spec fn pattern_held(pattern: KeyPattern) -> Seq<char>;

/// The characters held.
pub uninterp spec fn head_held(head: ResponseHead) -> Seq<char>;

/// Capacity of a [`RequestParts`].
pub open spec fn parts_capacity() -> nat {
    8
}

/// Capacity in bytes of a [`KeyPattern`].
pub open spec fn pattern_capacity() -> nat {
    64
}

/// Capacity in bytes of a [`ResponseHead`].
pub open spec fn head_capacity() -> nat {
    256
}

/// What writing `pieces` in order into a fixed-capacity string that already
/// holds `acc` leaves in it: each piece goes in whole while its bytes fit in
/// the capacity left, and writing stops at the first piece that does not.
pub open spec fn written_until_full(acc: Seq<char>, pieces: Seq<Seq<char>>, capacity: nat) -> Seq<
    char,
>
    decreases pieces.len(),
{
    if pieces.len() == 0 {
        acc
    } else if crate::text::utf8_len(acc) + crate::text::utf8_len(pieces[0]) <= capacity {
        written_until_full(acc + pieces[0], pieces.drop_first(), capacity)
    } else {
        acc
    }
}

/// The pieces joined in order.
pub open spec fn joined(pieces: Seq<Seq<char>>) -> Seq<char>
    decreases pieces.len(),
{
    if pieces.len() == 0 {
        seq![]
    } else {
        pieces[0] + joined(pieces.drop_first())
    }
}

/// Total length in bytes of the UTF-8 encodings of the pieces.
pub open spec fn joined_utf8_len(pieces: Seq<Seq<char>>) -> nat
    decreases pieces.len(),
{
    if pieces.len() == 0 {
        0
    } else {
        crate::text::utf8_len(pieces[0]) + joined_utf8_len(pieces.drop_first())
    }
}

/// When all the pieces fit, all of them are written, whole and in order.
pub proof fn lemma_written_whole(acc: Seq<char>, pieces: Seq<Seq<char>>, capacity: nat)
    requires
        crate::text::utf8_len(acc) + joined_utf8_len(pieces) <= capacity,
    ensures
        written_until_full(acc, pieces, capacity) == acc + joined(pieces),
    decreases pieces.len(),
{
    if pieces.len() == 0 {
        assert(acc + joined(pieces) =~= acc);
    } else {
        crate::text::lemma_encode_utf8_concat(acc, pieces[0]);
        lemma_written_whole(acc + pieces[0], pieces.drop_first(), capacity);
        assert(acc + pieces[0] + joined(pieces.drop_first()) =~= acc + joined(pieces));
    }
}

impl<'a> RequestParts<'a> {
    /// `heapless::Vec::new`: an empty vector.
    #[verifier::external_body]
    pub(crate) fn new() -> (parts: Self)
        ensures
            parts_held(parts) == Seq::<Seq<char>>::empty(),
    {
        RequestParts { parts: heapless::Vec::new() }
    }

    /// `heapless::Vec::push`: appends the word when fewer than 8 are held
    /// and reports success; leaves the vector as it was otherwise.
    #[verifier::external_body]
    pub(crate) fn push(&mut self, word: &'a str) -> (pushed: bool)
        ensures
            pushed == (parts_held(*old(self)).len() < parts_capacity()),
            pushed ==> parts_held(*final(self)) == parts_held(*old(self)).push(word@),
            !pushed ==> parts_held(*final(self)) == parts_held(*old(self)),
    {
        self.parts.push(word).is_ok()
    }

    /// `heapless::Vec::len`: the number of words held.
    #[verifier::external_body]
    pub(crate) fn count(&self) -> (n: usize)
        ensures
            n == parts_held(*self).len(),
    {
        self.parts.len()
    }

    /// Indexing a `heapless::Vec`: the word at `index`.
    #[verifier::external_body]
    pub(crate) fn word(&self, index: usize) -> (word: &'a str)
        requires
            index < parts_held(*self).len(),
        ensures
            word@ == parts_held(*self)[index as int],
    {
        self.parts[index]
    }
}

impl KeyPattern {
    /// `heapless::String::new`: an empty string.
    #[verifier::external_body]
    pub(crate) fn new() -> (pattern: Self)
        ensures
            pattern_held(pattern) == Seq::<char>::empty(),
    {
        KeyPattern { text: heapless::String::new() }
    }

    /// `heapless::String::push_str`: appends `s` when its bytes fit in the
    /// capacity left and reports success; leaves the string as it was
    /// otherwise.
    #[verifier::external_body]
    pub(crate) fn push_str(&mut self, s: &str) -> (pushed: bool)
        ensures
            pushed == (crate::text::utf8_len(pattern_held(*old(self))) + s.spec_bytes().len()
                <= pattern_capacity()),
            pushed ==> pattern_held(*final(self)) == pattern_held(*old(self)) + s@,
            !pushed ==> pattern_held(*final(self)) == pattern_held(*old(self)),
    {
        self.text.push_str(s).is_ok()
    }

    /// `heapless::String::as_str`: the text held.
    #[verifier::external_body]
    pub(crate) fn as_str(&self) -> (s: &str)
        ensures
            s@ == pattern_held(*self),
    {
        self.text.as_str()
    }
}

impl ResponseHead {
    /// `heapless::String::new`: an empty string.
    #[verifier::external_body]
    pub(crate) fn new() -> (head: Self)
        ensures
            head_held(head) == Seq::<char>::empty(),
    {
        ResponseHead { text: heapless::String::new() }
    }

    /// `heapless::String::push_str`: appends `s` when its bytes fit in the
    /// capacity left and reports success; leaves the string as it was
    /// otherwise.
    #[verifier::external_body]
    pub(crate) fn push_str(&mut self, s: &str) -> (pushed: bool)
        ensures
            pushed == (crate::text::utf8_len(head_held(*old(self))) + s.spec_bytes().len()
                <= head_capacity()),
            pushed ==> head_held(*final(self)) == head_held(*old(self)) + s@,
            !pushed ==> head_held(*final(self)) == head_held(*old(self)),
    {
        self.text.push_str(s).is_ok()
    }

    /// `heapless::String::as_str`: the text held.
    #[verifier::external_body]
    pub(crate) fn text(&self) -> (s: &str)
        ensures
            s@ == head_held(*self),
    {
        self.text.as_str()
    }
}

} // verus!

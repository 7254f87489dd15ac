//! The head of an HTTP response: status line, `Content-Type`,
//! `Content-Length` and `Connection: close`, written into a fixed 256-byte
//! buffer.

use vstd::prelude::*;
use vstd::string::{StringExecFns, StringSliceAdditionalSpecFns};

use crate::fixed::{head_capacity, head_held, written_until_full, ResponseHead};
use crate::text::utf8_len;

verus! {

/// The reason phrase sent with `status`.
pub open spec fn status_reason(status: u16) -> Seq<char> {
    if status == 200 {
        "OK"@
    } else if status == 400 {
        "Bad Request"@
    } else if status == 404 {
        "Not Found"@
    } else {
        "Unknown"@
    }
}

/// The reason phrase for `status`: `OK`, `Bad Request`, `Not Found`, or
/// `Unknown` for any other code.
pub fn status_text(status: u16) -> (text: &'static str)
    ensures
        text@ == status_reason(status),
{
    if status == 200 {
        "OK"
    } else if status == 400 {
        "Bad Request"
    } else if status == 404 {
        "Not Found"
    } else {
        "Unknown"
    }
}

/// The decimal digit `d`.
pub open spec fn digit_char(d: nat) -> char {
    seq!['0', '1', '2', '3', '4', '5', '6', '7', '8', '9'][d as int]
}

/// The decimal notation of `n`, without sign or leading zeros.
pub open spec fn decimal(n: nat) -> Seq<char>
    decreases n,
{
    if n < 10 {
        seq![digit_char(n)]
    } else {
        decimal(n / 10).push(digit_char(n % 10))
    }
}

fn digit_text(d: u64) -> (text: &'static str)
    requires
        d < 10,
    ensures
        text@ == seq![digit_char(d as nat)],
{
    proof {
        reveal_strlit("0");
        reveal_strlit("1");
        reveal_strlit("2");
        reveal_strlit("3");
        reveal_strlit("4");
        reveal_strlit("5");
        reveal_strlit("6");
        reveal_strlit("7");
        reveal_strlit("8");
        reveal_strlit("9");
    }
    let text = if d == 0 {
        "0"
    } else if d == 1 {
        "1"
    } else if d == 2 {
        "2"
    } else if d == 3 {
        "3"
    } else if d == 4 {
        "4"
    } else if d == 5 {
        "5"
    } else if d == 6 {
        "6"
    } else if d == 7 {
        "7"
    } else if d == 8 {
        "8"
    } else {
        "9"
    };
    assert(text@ =~= seq![digit_char(d as nat)]);
    text
}

/// The decimal notation of `n`.
pub fn decimal_text(n: u64) -> (text: String)
    ensures
        text@ == decimal(n as nat),
    decreases n,
{
    if n < 10 {
        String::from_str(digit_text(n))
    } else {
        let mut text = decimal_text(n / 10);
        text.append(digit_text(n % 10));
        text
    }
}

/// The pieces of a response head in the order they are written: status
/// line, `Content-Type`, `Content-Length` and `Connection: close`, ending
/// with a blank line.
pub open spec fn head_pieces(status: u16, content_type: Seq<char>, body_len: nat) -> Seq<Seq<char>> {
    seq![
        "HTTP/1.1 "@,
        decimal(status as nat),
        " "@,
        status_reason(status),
        "\r\nContent-Type: "@,
        content_type,
        "\r\nContent-Length: "@,
        decimal(body_len),
        "\r\nConnection: close\r\n\r\n"@,
    ]
}

/// The response head for `status`, `content_type` and a body of `body_len`
/// bytes, as far as it fits in 256 bytes.
pub open spec fn response_head_text(status: u16, content_type: Seq<char>, body_len: nat) -> Seq<
    char,
> {
    written_until_full(seq![], head_pieces(status, content_type, body_len), head_capacity())
}

/// `10` to the power `k`.
pub open spec fn pow10(k: nat) -> nat
    decreases k,
{
    if k == 0 {
        1
    } else {
        10 * pow10((k - 1) as nat)
    }
}

proof fn lemma_digit_ascii(d: nat)
    requires
        d < 10,
    ensures
        '\0' <= digit_char(d) <= '\u{7f}',
{
    assert(d == 0 || d == 1 || d == 2 || d == 3 || d == 4 || d == 5 || d == 6 || d == 7 || d == 8
        || d == 9);
}

/// A number below `10^k` has at most `k` decimal digits, all ASCII.
proof fn lemma_decimal_ascii_len(n: nat, k: nat)
    requires
        1 <= k,
        n < pow10(k),
    ensures
        vstd::utf8::is_ascii_chars(decimal(n)),
        decimal(n).len() <= k,
    decreases n,
{
    if n < 10 {
        lemma_digit_ascii(n);
    } else {
        let k1 = (k - 1) as nat;
        if k == 1 {
            assert(pow10(1) == 10) by {
                reveal_with_fuel(pow10, 2);
            }
        }
        assert(k >= 2);
        assert(pow10(k) == 10 * pow10(k1));
        assert(n / 10 < pow10(k1)) by (nonlinear_arith)
            requires
                n < 10 * pow10(k1),
        ;
        lemma_decimal_ascii_len(n / 10, k1);
        lemma_digit_ascii(n % 10);
        let d = decimal(n);
        assert(d == decimal(n / 10).push(digit_char(n % 10)));
        assert forall|i| 0 <= i < d.len() implies '\0' <= #[trigger] d[i] <= '\u{7f}' by {
            if i < d.len() - 1 {
                assert(d[i] == decimal(n / 10)[i]);
            }
        }
    }
}

proof fn lemma_ascii_literal(s: Seq<char>)
    requires
        vstd::utf8::is_ascii_chars(s),
    ensures
        utf8_len(s) == s.len(),
{
    vstd::utf8::is_ascii_chars_encode_utf8(s);
}

/// For a content type of at most 153 bytes the response head is written
/// whole: status line, `Content-Type`, `Content-Length` and
/// `Connection: close`, then a blank line.
pub proof fn lemma_response_head_whole(status: u16, content_type: Seq<char>, body_len: nat)
    requires
        utf8_len(content_type) <= 153,
        body_len <= u64::MAX,
    ensures
        response_head_text(status, content_type, body_len) == crate::fixed::joined(
            head_pieces(status, content_type, body_len),
        ),
{
    let pieces = head_pieces(status, content_type, body_len);
    reveal_with_fuel(pow10, 21);
    lemma_decimal_ascii_len(status as nat, 5);
    lemma_decimal_ascii_len(body_len, 20);
    lemma_ascii_literal(decimal(status as nat));
    lemma_ascii_literal(decimal(body_len));
    reveal_strlit("HTTP/1.1 ");
    reveal_strlit(" ");
    reveal_strlit("\r\nContent-Type: ");
    reveal_strlit("\r\nContent-Length: ");
    reveal_strlit("\r\nConnection: close\r\n\r\n");
    reveal_strlit("OK");
    reveal_strlit("Bad Request");
    reveal_strlit("Not Found");
    reveal_strlit("Unknown");
    assert(utf8_len("HTTP/1.1 "@) == 9) by {
        lemma_ascii_literal("HTTP/1.1 "@);
    }
    assert(utf8_len(" "@) == 1) by {
        lemma_ascii_literal(" "@);
    }
    assert(utf8_len("\r\nContent-Type: "@) == 16) by {
        lemma_ascii_literal("\r\nContent-Type: "@);
    }
    assert(utf8_len("\r\nContent-Length: "@) == 18) by {
        lemma_ascii_literal("\r\nContent-Length: "@);
    }
    assert(utf8_len("\r\nConnection: close\r\n\r\n"@) == 23) by {
        lemma_ascii_literal("\r\nConnection: close\r\n\r\n"@);
    }
    assert(utf8_len(status_reason(status)) <= 11) by {
        lemma_ascii_literal("OK"@);
        lemma_ascii_literal("Bad Request"@);
        lemma_ascii_literal("Not Found"@);
        lemma_ascii_literal("Unknown"@);
    }
    reveal_with_fuel(crate::fixed::joined_utf8_len, 10);
    assert(pieces.drop_first().drop_first().drop_first().drop_first().drop_first().drop_first().drop_first().drop_first().drop_first() =~= Seq::<Seq<char>>::empty());
    assert(crate::fixed::joined_utf8_len(pieces) <= 256);
    crate::fixed::lemma_written_whole(seq![], pieces, head_capacity());
    assert(Seq::<char>::empty() + crate::fixed::joined(pieces) =~= crate::fixed::joined(pieces));
}

/// Write `pieces` in order into `head`, stopping at the first that does
/// not fit.
fn write_pieces(head: &mut ResponseHead, pieces: &[&str])
    ensures
        head_held(*final(head)) == written_until_full(
            head_held(*old(head)),
            pieces@.map_values(|p: &str| p@),
            head_capacity(),
        ),
{
    let ghost all = pieces@.map_values(|p: &str| p@);
    let ghost target = written_until_full(head_held(*head), all, head_capacity());
    let mut k: usize = 0;
    proof {
        assert(all.skip(0) =~= all);
    }
    while k < pieces.len()
        invariant
            all == pieces@.map_values(|p: &str| p@),
            target == written_until_full(head_held(*old(head)), all, head_capacity()),
            k <= pieces@.len(),
            target == written_until_full(head_held(*head), all.skip(k as int), head_capacity()),
        decreases pieces@.len() - k,
    {
        proof {
            assert(all.skip(k as int)[0] == pieces@[k as int]@);
            assert(all.skip(k as int).drop_first() =~= all.skip(k + 1));
        }
        if !head.push_str(pieces[k]) {
            proof {
                let rest = all.skip(k as int);
                assert(rest.len() > 0);
                assert(rest[0] == pieces@[k as int]@);
                assert(utf8_len(rest[0]) == pieces@[k as int].spec_bytes().len());
                assert(written_until_full(head_held(*head), rest, head_capacity()) == head_held(*head));
            }
            return;
        }
        k += 1;
    }
    proof {
        assert(all.skip(k as int) =~= Seq::<Seq<char>>::empty());
    }
}

/// The status line and headers of the response with `status`,
/// `content_type` and `body`, as far as they fit in 256 bytes.
pub fn response_head(status: u16, content_type: &str, body: &str) -> (head: String)
    ensures
        head@ == response_head_text(status, content_type@, body.len() as nat),
{
    let status_digits = decimal_text(status as u64);
    let length_digits = decimal_text(body.len() as u64);
    let pieces = [
        "HTTP/1.1 ",
        status_digits.as_str(),
        " ",
        status_text(status),
        "\r\nContent-Type: ",
        content_type,
        "\r\nContent-Length: ",
        length_digits.as_str(),
        "\r\nConnection: close\r\n\r\n",
    ];
    proof {
        let v = pieces@.map_values(|p: &str| p@);
        let h = head_pieces(status, content_type@, body.len() as nat);
        assert(v.len() == 9);
        assert(v[1] == h[1]);
        assert(v[3] == h[3]);
        assert(v[5] == h[5]);
        assert(v[7] == h[7]);
        assert(v[0] == h[0]);
        assert(pieces@.map_values(|p: &str| p@) =~= head_pieces(
            status,
            content_type@,
            body.len() as nat,
        ));
    }
    let mut head = ResponseHead::new();
    write_pieces(&mut head, pieces.as_slice());
    String::from_str(head.text())
}


/// How many bytes of a `len`-byte buffer are sent after a write that
/// followed `sent` bytes and accepted `written` more (`None` when the write
/// failed). Sending goes on from the new count; it stops (`None`) after a
/// failed write or one that accepted nothing.
pub open spec fn sent_after(len: usize, sent: usize, written: Option<usize>) -> Option<usize> {
    match written {
        Some(n) => if n == 0 {
            None
        } else {
            Some((sent + n) as usize)
        },
        None => None,
    }
}

/// The count of bytes sent after one more write of the rest of a buffer:
/// `None` when sending stops.
pub fn next_sent(len: usize, sent: usize, written: Option<usize>) -> (next: Option<usize>)
    requires
        sent <= len,
        written matches Some(n) ==> n <= len - sent,
    ensures
        next == sent_after(len, sent, written),
        next matches Some(total) ==> sent < total <= len,
{
    match written {
        Some(n) => if n == 0 {
            None
        } else {
            Some(sent + n)
        },
        None => None,
    }
}

} // verus!

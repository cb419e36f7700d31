//! The identifier scheme: a SHA-1 digest of the payload behind a framing
//! header `blob <length>\0`, written as lowercase hexadecimal.
use vstd::prelude::*;

use sha1::{Digest, Sha1};

use crate::hex::{encode_hex, hex_of, lemma_hex_of_len};

verus! {

/// The SHA-1 digest of a message: twenty bytes.
pub uninterp spec fn sha1_of(message: Seq<u8>) -> [u8; 20];

/// Number of characters in an identifier: two per digest byte.
pub const IDENTIFIER_LEN: usize = 40;

/// The ASCII code of a decimal digit.
pub open spec fn decimal_digit(d: int) -> u8 {
    (48 + d) as u8
}

/// The decimal text of `n` as ASCII bytes, without leading zeros.
pub open spec fn decimal_of(n: nat) -> Seq<u8>
    decreases n,
{
    if n < 10 {
        seq![decimal_digit(n as int)]
    } else {
        decimal_of(n / 10) + seq![decimal_digit((n % 10) as int)]
    }
}

/// The tag that opens every framing header: `blob ` with its trailing space.
pub open spec fn frame_tag() -> Seq<u8> {
    seq![98u8, 108u8, 111u8, 98u8, 32u8]
}

/// The framing header for a payload of `len` bytes: `blob <len>\0`.
pub open spec fn frame_header(len: nat) -> Seq<u8> {
    frame_tag() + decimal_of(len) + seq![0u8]
}

/// The message that is digested for a payload: its header, then the payload.
pub open spec fn framed(payload: Seq<u8>) -> Seq<u8> {
    frame_header(payload.len()) + payload
}

/// The identifier of a payload.
pub open spec fn identifier_of(payload: Seq<u8>) -> Seq<char> {
    hex_of(sha1_of(framed(payload))@)
}

/// The decimal text of a number is made of one or more ASCII digits.
pub proof fn lemma_decimal_digits(n: nat)
    ensures
        decimal_of(n).len() >= 1,
        n >= 10 ==> decimal_of(n).len() >= 2,
        forall|i: int| 0 <= i < decimal_of(n).len() ==> 48 <= #[trigger] decimal_of(n)[i] <= 57,
    decreases n,
{
    if n >= 10 {
        lemma_decimal_digits(n / 10);
        let d = decimal_of(n);
        let p = decimal_of(n / 10);
        assert forall|i: int| 0 <= i < d.len() implies 48 <= #[trigger] d[i] <= 57 by {
            if i < p.len() {
                assert(d[i] == p[i]);
            }
        }
    }
}

/// Different numbers have different decimal texts.
pub proof fn lemma_decimal_injective(m: nat, n: nat)
    requires
        decimal_of(m) == decimal_of(n),
    ensures
        m == n,
    decreases m,
{
    lemma_decimal_digits(m);
    lemma_decimal_digits(n);
    if m >= 10 && n >= 10 {
        let dm = decimal_of(m);
        let k = dm.len() - 1;
        assert(dm.subrange(0, k) =~= decimal_of(m / 10));
        assert(decimal_of(n).subrange(0, k) =~= decimal_of(n / 10));
        lemma_decimal_injective(m / 10, n / 10);
        assert(dm[k] == decimal_digit((m % 10) as int));
        assert(decimal_of(n)[k] == decimal_digit((n % 10) as int));
        assert(m % 10 == n % 10);
        assert(m == 10 * (m / 10) + m % 10) by (nonlinear_arith);
        assert(n == 10 * (n / 10) + n % 10) by (nonlinear_arith);
    } else if m < 10 && n < 10 {
        assert(decimal_of(m)[0] == decimal_digit(m as int));
        assert(decimal_of(n)[0] == decimal_digit(n as int));
    } else {
        assert(decimal_of(m).len() != decimal_of(n).len());
    }
}

/// Different payloads have different framed messages: the header fixes the
/// payload's length, so no payload's message is another's.
pub proof fn lemma_framed_injective(a: Seq<u8>, b: Seq<u8>)
    requires
        framed(a) == framed(b),
    ensures
        a == b,
{
    let da = decimal_of(a.len());
    let db = decimal_of(b.len());
    let la = da.len() as int;
    let lb = db.len() as int;
    lemma_decimal_digits(a.len());
    lemma_decimal_digits(b.len());
    let fa = framed(a);
    let fb = framed(b);
    if la < lb {
        assert(fa[5 + la] == 0u8);
        assert(fb[5 + la] == db[la]);
    } else if lb < la {
        assert(fb[5 + lb] == 0u8);
        assert(fa[5 + lb] == da[lb]);
    } else {
        assert(fa.subrange(5, 5 + la) =~= da);
        assert(fb.subrange(5, 5 + lb) =~= db);
        lemma_decimal_injective(a.len(), b.len());
        let h = frame_header(a.len()).len() as int;
        assert(fa.subrange(h, fa.len() as int) =~= a);
        assert(fb.subrange(h, fb.len() as int) =~= b);
    }
}

/// Relies on `sha1::Sha1::digest` (through the `Digest` trait) for the
/// SHA-1 digest of a message, whose output type holds twenty bytes.
#[verifier::external_body]
fn sha1_digest(message: &[u8]) -> (r: [u8; 20])
    ensures
        r == sha1_of(message@),
{
    Sha1::digest(message).into()
}

/// Appends the decimal text of `n` to `out`.
fn push_decimal(n: usize, out: &mut Vec<u8>)
    ensures
        final(out)@ == old(out)@ + decimal_of(n as nat),
    decreases n,
{
    if n >= 10 {
        push_decimal(n / 10, out);
    }
    out.push(48u8 + (n % 10) as u8);
    assert(final(out)@ =~= old(out)@ + decimal_of(n as nat));
}

/// Builds the framed message for `data`: the header `blob <len>\0`, then the
/// payload bytes.
pub fn framed_message(data: &[u8]) -> (r: Vec<u8>)
    ensures
        r@ == framed(data@),
{
    let mut out: Vec<u8> = Vec::new();
    out.push(98u8);
    out.push(108u8);
    out.push(111u8);
    out.push(98u8);
    out.push(32u8);
    push_decimal(data.len(), &mut out);
    out.push(0u8);
    assert(out@ =~= frame_header(data@.len()));
    let n = data.len();
    let mut i: usize = 0;
    while i < n
        invariant
            n == data@.len(),
            i <= n,
            out@ == frame_header(data@.len()) + data@.subrange(0, i as int),
        decreases n - i,
    {
        out.push(data[i]);
        i = i + 1;
        assert(out@ =~= frame_header(data@.len()) + data@.subrange(0, i as int));
    }
    assert(data@.subrange(0, n as int) =~= data@);
    out
}

/// Computes the identifier of a payload: the SHA-1 digest of the framed
/// message, in lowercase hexadecimal. Always forty characters.
pub fn compute_identifier(data: &[u8]) -> (r: String)
    ensures
        r@ == identifier_of(data@),
        r@.len() == IDENTIFIER_LEN,
{
    let message = framed_message(data);
    let digest = sha1_digest(message.as_slice());
    proof {
        lemma_identifier_len(data@);
    }
    encode_hex(digest.as_slice())
}

/// Every identifier has forty characters.
pub proof fn lemma_identifier_len(payload: Seq<u8>)
    ensures
        identifier_of(payload).len() == IDENTIFIER_LEN,
{
    lemma_hex_of_len(sha1_of(framed(payload))@);
}

} // verus!

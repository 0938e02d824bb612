//! Bytes as text, and names made of random digits.
use vstd::prelude::*;
use vstd::string::*;
use vstd::utf8::{decode_utf8, valid_utf8};

verus! {

/// The text that stands for bytes that may be no UTF-8.
pub uninterp spec fn lossy_text(bytes: Seq<u8>) -> Seq<char>;

/// `std::string::String::from_utf8_lossy`: the text that UTF-8 bytes encode; other bytes are
/// replaced.
#[verifier::external_body]
pub(crate) fn text_lossy(bytes: &[u8]) -> (text: String)
    ensures
        text@ == lossy_text(bytes@),
        valid_utf8(bytes@) ==> text@ == decode_utf8(bytes@),
{
    String::from_utf8_lossy(bytes).into_owned()
}

/// `std::str::from_utf8`: whether bytes are UTF-8.
#[verifier::external_body]
pub(crate) fn is_utf8(bytes: &[u8]) -> (r: bool)
    ensures
        r == valid_utf8(bytes@),
{
    std::str::from_utf8(bytes).is_ok()
}

/// The digit of the base64 alphabet for six bits.
pub open spec fn base64_digit(bits: int) -> char {
    if bits < 26 {
        (65 + bits) as char
    } else if bits < 52 {
        (71 + bits) as char
    } else if bits < 62 {
        (bits - 4) as char
    } else if bits == 62 {
        '+'
    } else {
        '/'
    }
}

/// Bytes in base64: four digits for every three bytes, padded with `=` at the end.
pub open spec fn base64(bytes: Seq<u8>) -> Seq<char>
    decreases bytes.len(),
{
    if bytes.len() == 0 {
        Seq::empty()
    } else if bytes.len() == 1 {
        seq![base64_digit(bytes[0] as int / 4), base64_digit(bytes[0] % 4 * 16), '=', '=']
    } else if bytes.len() == 2 {
        seq![
            base64_digit(bytes[0] as int / 4),
            base64_digit(bytes[0] % 4 * 16 + bytes[1] / 16),
            base64_digit(bytes[1] % 16 * 4),
            '=',
        ]
    } else {
        seq![
            base64_digit(bytes[0] as int / 4),
            base64_digit(bytes[0] % 4 * 16 + bytes[1] / 16),
            base64_digit(bytes[1] % 16 * 4 + bytes[2] / 64),
            base64_digit((bytes[2] % 64) as int),
        ] + base64(bytes.skip(3))
    }
}

proof fn lemma_digits_differ(a: int, b: int)
    requires
        0 <= a < 64,
        0 <= b < 64,
        base64_digit(a) == base64_digit(b),
    ensures
        a == b,
{
    assert(base64_digit(a) as int == if a < 26 {
        65 + a
    } else if a < 52 {
        71 + a
    } else if a < 62 {
        a - 4
    } else if a == 62 {
        43
    } else {
        47
    });
    assert(base64_digit(b) as int == if b < 26 {
        65 + b
    } else if b < 52 {
        71 + b
    } else if b < 62 {
        b - 4
    } else if b == 62 {
        43
    } else {
        47
    });
}

proof fn lemma_no_padding(bits: int)
    requires
        0 <= bits < 64,
    ensures
        base64_digit(bits) != '=',
{
    assert('=' as int == 61);
}

/// Different bytes have different base64.
pub proof fn law_base64_is_lossless(a: Seq<u8>, b: Seq<u8>)
    requires
        base64(a) == base64(b),
    ensures
        a == b,
    decreases a.len(),
{
    let x = base64(a);
    let y = base64(b);
    if a.len() > 0 && b.len() > 0 {
        assert(x[0] == y[0] && x[1] == y[1] && x[2] == y[2] && x[3] == y[3]);
        lemma_digits_differ(a[0] as int / 4, b[0] as int / 4);
        if a.len() >= 2 {
            lemma_no_padding(a[1] % 16 * 4 + if a.len() >= 3 {
                a[2] as int / 64
            } else {
                0
            });
        }
        if b.len() >= 2 {
            lemma_no_padding(b[1] % 16 * 4 + if b.len() >= 3 {
                b[2] as int / 64
            } else {
                0
            });
        }
        if a.len() >= 3 {
            lemma_no_padding((a[2] % 64) as int);
        }
        if b.len() >= 3 {
            lemma_no_padding((b[2] % 64) as int);
        }
        if a.len() == 1 {
            lemma_digits_differ(a[0] % 4 * 16, b[0] % 4 * 16);
        } else {
            lemma_digits_differ(a[0] % 4 * 16 + a[1] / 16, b[0] % 4 * 16 + b[1] / 16);
        }
        if a.len() == 2 {
            lemma_digits_differ(a[1] % 16 * 4, b[1] % 16 * 4);
        }
        if a.len() >= 3 {
            lemma_digits_differ(a[1] % 16 * 4 + a[2] / 64, b[1] % 16 * 4 + b[2] / 64);
            lemma_digits_differ((a[2] % 64) as int, (b[2] % 64) as int);
            assert(x.skip(4) =~= base64(a.skip(3)));
            assert(y.skip(4) =~= base64(b.skip(3)));
            law_base64_is_lossless(a.skip(3), b.skip(3));
            assert(a =~= a.take(3) + a.skip(3));
            assert(b =~= b.take(3) + b.skip(3));
            assert(a.take(3) =~= b.take(3));
        }
        assert(a =~= b);
    } else {
        assert(a.len() > 0 ==> x.len() >= 4);
        assert(b.len() > 0 ==> y.len() >= 4);
        assert(a =~= b);
    }
}

/// `base64::Engine::encode` with the standard alphabet and padding.
#[verifier::external_body]
pub(crate) fn encode_base64(bytes: &[u8]) -> (text: String)
    requires
        bytes@.len() <= isize::MAX / 2,
    ensures
        text@ == base64(bytes@),
{
    base64::Engine::encode(&base64::engine::general_purpose::STANDARD, bytes)
}

/// Whether these are 32 lower-case hexadecimal digits.
pub open spec fn is_random_name(text: Seq<char>) -> bool {
    text.len() == 32 && forall|i: int|
        0 <= i < text.len() ==> ('0' <= #[trigger] text[i] <= '9' || 'a' <= text[i] <= 'f')
}

/// `uuid::Uuid::new_v4` in its simple form: 32 lower-case hexadecimal digits. Which ones is left to
/// chance.
#[verifier::external_body]
fn random_digits() -> (text: String)
    ensures
        is_random_name(text@),
{
    uuid::Uuid::new_v4().simple().to_string()
}

/// A name nobody has used: random digits behind a prefix that says what it names.
pub fn new_name(prefix: &str) -> (name: String)
    ensures
        prefix@.is_prefix_of(name@),
        is_random_name(name@.skip(prefix@.len() as int)),
{
    let mut name = prefix.to_string();
    let digits = random_digits();
    name.append(digits.as_str());
    assert(name@.skip(prefix@.len() as int) == digits@);
    name
}

} // verus!

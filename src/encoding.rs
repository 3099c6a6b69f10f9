use crate::text::{find_ascii, has_prefix_at};
use base64::Engine;
use vstd::prelude::*;

verus! {

/// The character of the standard base64 alphabet for a six-bit value.
pub open spec fn base64_digit(v: u8) -> char {
    if v < 26 {
        (v + 65) as char
    } else if v < 52 {
        (v + 71) as char
    } else if v < 62 {
        (v - 4) as char
    } else if v == 62 {
        '+'
    } else {
        '/'
    }
}

/// The four characters that encode three whole bytes.
pub open spec fn base64_quad(a: u8, b: u8, c: u8) -> Seq<char> {
    seq![
        base64_digit(a >> 2),
        base64_digit(((a & 3) << 4) | (b >> 4)),
        base64_digit(((b & 15) << 2) | (c >> 6)),
        base64_digit(c & 63),
    ]
}

/// Padded base64 text of a byte sequence, standard alphabet.
pub open spec fn base64_of(b: Seq<u8>) -> Seq<char>
    decreases b.len(),
{
    if b.len() == 0 {
        Seq::empty()
    } else if b.len() == 1 {
        seq![base64_digit(b[0] >> 2), base64_digit((b[0] & 3) << 4), '=', '=']
    } else if b.len() == 2 {
        seq![
            base64_digit(b[0] >> 2),
            base64_digit(((b[0] & 3) << 4) | (b[1] >> 4)),
            base64_digit((b[1] & 15) << 2),
            '=',
        ]
    } else {
        base64_quad(b[0], b[1], b[2]) + base64_of(b.subrange(3, b.len() as int))
    }
}

proof fn lemma_digit(x: u8, y: u8)
    requires
        x < 64,
        y < 64,
    ensures
        base64_digit(x) != '=',
        base64_digit(x) == base64_digit(y) ==> x == y,
{
}

pub proof fn lemma_base64_len(b: Seq<u8>)
    ensures
        base64_of(b).len() == 4 * ((b.len() + 2) / 3),
    decreases b.len(),
{
    if b.len() >= 3 {
        lemma_base64_len(b.subrange(3, b.len() as int));
    }
}


proof fn lemma_quad_bits(a: u8, b: u8, c: u8, x: u8, y: u8, z: u8)
    requires
        a >> 2 == x >> 2,
        ((a & 3) << 4) | (b >> 4) == ((x & 3) << 4) | (y >> 4),
        ((b & 15) << 2) | (c >> 6) == ((y & 15) << 2) | (z >> 6),
        c & 63 == z & 63,
    ensures
        a == x,
        b == y,
        c == z,
{
    assert(a == x && b == y && c == z) by (bit_vector)
        requires
            a >> 2 == x >> 2,
            ((a & 3) << 4) | (b >> 4) == ((x & 3) << 4) | (y >> 4),
            ((b & 15) << 2) | (c >> 6) == ((y & 15) << 2) | (z >> 6),
            c & 63 == z & 63,
    ;
}

proof fn lemma_one_bits(a: u8, x: u8)
    requires
        a >> 2 == x >> 2,
        (a & 3) << 4 == (x & 3) << 4,
    ensures
        a == x,
{
    assert(a == x) by (bit_vector)
        requires
            a >> 2 == x >> 2,
            (a & 3) << 4 == (x & 3) << 4,
    ;
}

proof fn lemma_two_bits(a: u8, b: u8, x: u8, y: u8)
    requires
        a >> 2 == x >> 2,
        ((a & 3) << 4) | (b >> 4) == ((x & 3) << 4) | (y >> 4),
        (b & 15) << 2 == (y & 15) << 2,
    ensures
        a == x,
        b == y,
{
    assert(a == x && b == y) by (bit_vector)
        requires
            a >> 2 == x >> 2,
            ((a & 3) << 4) | (b >> 4) == ((x & 3) << 4) | (y >> 4),
            (b & 15) << 2 == (y & 15) << 2,
    ;
}

proof fn lemma_six_bit_values(a: u8, b: u8, c: u8)
    ensures
        a >> 2 < 64,
        ((a & 3) << 4) | (b >> 4) < 64,
        ((b & 15) << 2) | (c >> 6) < 64,
        c & 63 < 64,
        (a & 3) << 4 < 64,
        (b & 15) << 2 < 64,
{
    assert(a >> 2 < 64 && ((a & 3) << 4) | (b >> 4) < 64 && ((b & 15) << 2) | (c >> 6) < 64
        && c & 63 < 64 && (a & 3) << 4 < 64 && (b & 15) << 2 < 64) by (bit_vector);
}

/// Padded base64 never holds the padding character before its last group.
proof fn lemma_base64_tail_pad(b: Seq<u8>)
    requires
        b.len() >= 3,
    ensures
        base64_of(b)[0] != '=',
        base64_of(b)[1] != '=',
        base64_of(b)[2] != '=',
        base64_of(b)[3] != '=',
{
    lemma_six_bit_values(b[0], b[1], b[2]);
    lemma_digit(b[0] >> 2, 0);
    lemma_digit(((b[0] & 3) << 4) | (b[1] >> 4), 0);
    lemma_digit(((b[1] & 15) << 2) | (b[2] >> 6), 0);
    lemma_digit(b[2] & 63, 0);
}

/// Distinct byte sequences have distinct base64 text.
pub proof fn lemma_base64_injective(x: Seq<u8>, y: Seq<u8>)
    requires
        base64_of(x) == base64_of(y),
    ensures
        x == y,
    decreases x.len(),
{
    lemma_base64_len(x);
    lemma_base64_len(y);
    let ex = base64_of(x);
    let ey = base64_of(y);
    if x.len() == 0 || y.len() == 0 {
        assert(x.len() == 0 && y.len() == 0);
        assert(x =~= y);
    } else if x.len() >= 3 && y.len() >= 3 {
        lemma_six_bit_values(x[0], x[1], x[2]);
        lemma_six_bit_values(y[0], y[1], y[2]);
        assert(ex[0] == ey[0] && ex[1] == ey[1] && ex[2] == ey[2] && ex[3] == ey[3]);
        lemma_digit(x[0] >> 2, y[0] >> 2);
        lemma_digit(((x[0] & 3) << 4) | (x[1] >> 4), ((y[0] & 3) << 4) | (y[1] >> 4));
        lemma_digit(((x[1] & 15) << 2) | (x[2] >> 6), ((y[1] & 15) << 2) | (y[2] >> 6));
        lemma_digit(x[2] & 63, y[2] & 63);
        lemma_quad_bits(x[0], x[1], x[2], y[0], y[1], y[2]);
        let rx = x.subrange(3, x.len() as int);
        let ry = y.subrange(3, y.len() as int);
        assert(base64_of(rx) =~= ex.subrange(4, ex.len() as int));
        assert(base64_of(ry) =~= ey.subrange(4, ey.len() as int));
        lemma_base64_injective(rx, ry);
        assert(x =~= x.subrange(0, 3) + rx);
        assert(y =~= y.subrange(0, 3) + ry);
        assert(x.subrange(0, 3) =~= y.subrange(0, 3));
    } else if x.len() >= 3 {
        lemma_base64_tail_pad(x);
        assert(ey[3] == '=');
    } else if y.len() >= 3 {
        lemma_base64_tail_pad(y);
        assert(ex[3] == '=');
    } else {
        lemma_six_bit_values(x[0], x[0], x[0]);
        lemma_six_bit_values(y[0], y[0], y[0]);
        assert(ex[0] == ey[0] && ex[1] == ey[1] && ex[2] == ey[2]);
        lemma_digit(x[0] >> 2, y[0] >> 2);
        if x.len() == 1 && y.len() == 1 {
            lemma_digit((x[0] & 3) << 4, (y[0] & 3) << 4);
            lemma_one_bits(x[0], y[0]);
            assert(x =~= y);
        } else if x.len() == 2 && y.len() == 2 {
            lemma_six_bit_values(x[0], x[1], x[1]);
            lemma_six_bit_values(y[0], y[1], y[1]);
            lemma_digit(((x[0] & 3) << 4) | (x[1] >> 4), ((y[0] & 3) << 4) | (y[1] >> 4));
            lemma_digit((x[1] & 15) << 2, (y[1] & 15) << 2);
            lemma_two_bits(x[0], x[1], y[0], y[1]);
            assert(x =~= y);
        } else if x.len() == 2 {
            lemma_six_bit_values(x[0], x[1], x[1]);
            lemma_digit((x[1] & 15) << 2, 0);
        } else {
            lemma_six_bit_values(y[0], y[1], y[1]);
            lemma_digit((y[1] & 15) << 2, 0);
        }
    }
}


/// The MIME type used when the bytes are of no known format.
pub open spec fn default_mime() -> Seq<char> {
    seq!['i', 'm', 'a', 'g', 'e', '/', 'j', 'p', 'e', 'g']
}

/// `data:<mime>;base64,<payload>`.
pub open spec fn data_uri_of(mime: Seq<char>, payload: Seq<char>) -> Seq<char> {
    seq!['d', 'a', 't', 'a', ':'] + mime + seq![';', 'b', 'a', 's', 'e', '6', '4', ','] + payload
}

/// A MIME type that a data URI can carry unambiguously: ASCII, without `;`.
pub open spec fn is_plain_mime(mime: Seq<char>) -> bool {
    vstd::utf8::is_ascii_chars(mime) && !mime.contains(';')
}

/// `uri` is the data URI of `bytes` under the MIME type `mime`.
pub open spec fn decodes_to(uri: Seq<char>, mime: Seq<char>, bytes: Seq<u8>) -> bool {
    is_plain_mime(mime) && uri == data_uri_of(mime, base64_of(bytes))
}

/// The MIME type chosen for a detection result: the detected one, else the default.
pub open spec fn mime_for(sniffed: Option<Seq<char>>) -> Seq<char> {
    match sniffed {
        Some(m) => m,
        None => default_mime(),
    }
}

/// What format detection by magic numbers reports for `bytes`.
pub uninterp spec fn sniffed_mime(bytes: Seq<u8>) -> Option<Seq<char>>;

/// Relies on `base64::engine::general_purpose::STANDARD.encode`: padded base64 over the
/// standard alphabet; it panics only when the output length overflows `usize`.
#[verifier::external_body]
fn base64_encode(bytes: &[u8]) -> (r: String)
    requires
        bytes@.len() <= usize::MAX / 2,
    ensures
        r@ == base64_of(bytes@),
{
    base64::engine::general_purpose::STANDARD.encode(bytes)
}

/// Relies on `base64::engine::general_purpose::STANDARD.decode`, whose configuration asks for
/// canonical padding and zero trailing bits: it accepts exactly the padded encodings.
#[verifier::external_body]
fn base64_decode(text: &str) -> (r: Option<Vec<u8>>)
    ensures
        match r {
            Some(v) => base64_of(v@) == text@,
            None => forall|b: Seq<u8>| base64_of(b) != text@,
        },
{
    base64::engine::general_purpose::STANDARD.decode(text).ok()
}

/// Relies on `infer::get` and `Type::mime_type`: the format is looked up in a fixed table of
/// magic numbers, so the answer depends on the bytes alone.
#[verifier::external_body]
fn sniff_mime(bytes: &[u8]) -> (r: Option<String>)
    ensures
        match r {
            Some(m) => sniffed_mime(bytes@) == Some(m@),
            None => sniffed_mime(bytes@) is None,
        },
{
    match infer::get(bytes) {
        Some(kind) => Some(kind.mime_type().to_string()),
        None => None,
    }
}

/// The MIME type for a detection result, falling back to `image/jpeg`.
pub fn select_mime(sniffed: Option<String>) -> (r: String)
    ensures
        r@ == mime_for(
            match sniffed {
                Some(m) => Some(m@),
                None => None,
            },
        ),
{
    match sniffed {
        Some(m) => m,
        None => {
            let r = String::from_str("image/jpeg");
            proof {
                reveal_strlit("image/jpeg");
            }
            assert(r@ =~= default_mime());
            r
        },
    }
}

/// The MIME type of image bytes, detected from their magic number.
pub fn detect_mime(bytes: &[u8]) -> (r: String)
    ensures
        r@ == mime_for(sniffed_mime(bytes@)),
{
    select_mime(sniff_mime(bytes))
}

/// `data:<mime>;base64,<payload>` for the given bytes.
pub fn encode_data_uri(mime: &str, bytes: &[u8]) -> (r: String)
    requires
        bytes@.len() <= usize::MAX / 2,
    ensures
        r@ == data_uri_of(mime@, base64_of(bytes@)),
{
    let payload = base64_encode(bytes);
    let mut r = String::from_str("data:");
    r.append(mime);
    r.append(";base64,");
    r.append(payload.as_str());
    proof {
        reveal_strlit("data:");
        reveal_strlit(";base64,");
    }
    assert(r@ =~= data_uri_of(mime@, base64_of(bytes@)));
    r
}

proof fn lemma_data_uri_unique(m1: Seq<char>, p1: Seq<char>, m2: Seq<char>, p2: Seq<char>)
    requires
        !m1.contains(';'),
        !m2.contains(';'),
        data_uri_of(m1, p1) == data_uri_of(m2, p2),
    ensures
        m1 == m2,
        p1 == p2,
{
    let u = data_uri_of(m1, p1);
    assert(u[5 + m1.len() as int] == ';');
    assert(u[5 + m2.len() as int] == ';');
    if m1.len() < m2.len() {
        assert(u[5 + m1.len() as int] == m2[m1.len() as int]);
        assert(m2.contains(';'));
    } else if m2.len() < m1.len() {
        assert(u[5 + m2.len() as int] == m1[m2.len() as int]);
        assert(m1.contains(';'));
    }
    assert(m1 =~= u.subrange(5, 5 + m1.len() as int));
    assert(m2 =~= u.subrange(5, 5 + m2.len() as int));
    assert(p1 =~= u.subrange(13 + m1.len() as int, u.len() as int));
    assert(p2 =~= u.subrange(13 + m2.len() as int, u.len() as int));
}

/// Encoding bytes as a data URI under a plain MIME type and decoding that URI gives back
/// exactly that MIME type and those bytes.
pub proof fn lemma_data_uri_round_trip(mime: Seq<char>, bytes: Seq<u8>)
    requires
        is_plain_mime(mime),
    ensures
        decodes_to(data_uri_of(mime, base64_of(bytes)), mime, bytes),
        forall|m: Seq<char>, b: Seq<u8>|
            #[trigger] decodes_to(data_uri_of(mime, base64_of(bytes)), m, b) ==> m == mime && b
                == bytes,
{
    assert forall|m: Seq<char>, b: Seq<u8>|
        #[trigger] decodes_to(data_uri_of(mime, base64_of(bytes)), m, b) implies m == mime && b
            == bytes by {
        lemma_data_uri_unique(mime, base64_of(bytes), m, base64_of(b));
        lemma_base64_injective(b, bytes);
    }
}

/// Splits a data URI into its MIME type and the bytes it carries.
pub fn parse_data_uri(uri: &str) -> (r: Option<(String, Vec<u8>)>)
    ensures
        match r {
            Some((m, b)) => decodes_to(uri@, m@, b@),
            None => forall|m: Seq<char>, b: Seq<u8>| !decodes_to(uri@, m, b),
        },
{
    proof {
        reveal_strlit("data:");
        reveal_strlit(";base64,");
    }
    let ghost tag = seq![';', 'b', 'a', 's', 'e', '6', '4', ','];
    let ghost head = seq!['d', 'a', 't', 'a', ':'];
    assert(";base64,"@ =~= tag);
    assert("data:"@ =~= head);
    if !uri.is_ascii() {
        proof {
            assert forall|m: Seq<char>, b: Seq<u8>| !decodes_to(uri@, m, b) by {
                if decodes_to(uri@, m, b) {
                    lemma_base64_ascii(b);
                    assert(vstd::utf8::is_ascii_chars(uri@)) by {
                        assert forall|i: int| 0 <= i < uri@.len() implies '\0' <= #[trigger] uri@[i]
                            <= '\u{7f}' by {
                            if i >= 5 + m.len() as int + 8 {
                                assert(uri@[i] == base64_of(b)[i - 13 - m.len() as int]);
                            } else if i >= 5 && i < 5 + m.len() as int {
                                assert(uri@[i] == m[i - 5]);
                            }
                        }
                    }
                }
            }
        }
        return None;
    }
    if !has_prefix_at(uri, 0, "data:") {
        proof {
            assert forall|m: Seq<char>, b: Seq<u8>| !decodes_to(uri@, m, b) by {
                if decodes_to(uri@, m, b) {
                    assert(uri@.subrange(0, 5) =~= "data:"@);
                }
            }
        }
        return None;
    }
    let k = match find_ascii(uri, 5, ';') {
        Some(k) => k,
        None => {
            proof {
                assert forall|m: Seq<char>, b: Seq<u8>| !decodes_to(uri@, m, b) by {
                    if decodes_to(uri@, m, b) {
                        assert(uri@[5 + m.len() as int] == ';');
                    }
                }
            }
            return None;
        },
    };
    proof {
        assert forall|m: Seq<char>, b: Seq<u8>| #[trigger]
            decodes_to(uri@, m, b) implies k == 5 + m.len() as int by {
            assert(uri@[5 + m.len() as int] == ';');
            if k < 5 + m.len() as int {
                assert(uri@[k as int] == m[k - 5]);
                assert(m.contains(';'));
            }
        }
    }
    if !has_prefix_at(uri, k, ";base64,") {
        proof {
            assert forall|m: Seq<char>, b: Seq<u8>| !decodes_to(uri@, m, b) by {
                if decodes_to(uri@, m, b) {
                    assert(k == 5 + m.len() as int);
                    assert(uri@.subrange(k as int, k + 8) =~= tag);
                }
            }
        }
        return None;
    }
    let n = uri.unicode_len();
    let mime = uri.substring_char(5, k);
    let payload = uri.substring_char(k + 8, n);
    proof {
        assert forall|m: Seq<char>, b: Seq<u8>| #[trigger]
            decodes_to(uri@, m, b) implies base64_of(b) == payload@ by {
            assert(payload@ =~= uri@.subrange(13 + m.len() as int, uri@.len() as int));
        }
    }
    match base64_decode(payload) {
        Some(bytes) => {
            proof {
                assert(uri@.subrange(0, 5) =~= head);
                assert(uri@.subrange(k as int, k + 8) =~= tag);
                assert(uri@ =~= uri@.subrange(0, 5) + mime@ + uri@.subrange(k as int, k + 8)
                    + payload@);
                assert(uri@ =~= data_uri_of(mime@, base64_of(bytes@)));
                assert(!mime@.contains(';'));
                assert(vstd::utf8::is_ascii_chars(mime@));
            }
            Some((String::from_str(mime), bytes))
        },
        None => None,
    }
}

proof fn lemma_digit_ascii(v: u8)
    requires
        v < 64,
    ensures
        '\0' <= base64_digit(v) <= '\u{7f}',
{
}

/// Base64 text is ASCII.
proof fn lemma_base64_ascii(b: Seq<u8>)
    ensures
        vstd::utf8::is_ascii_chars(base64_of(b)),
    decreases b.len(),
{
    if b.len() >= 3 {
        lemma_base64_ascii(b.subrange(3, b.len() as int));
        lemma_six_bit_values(b[0], b[1], b[2]);
        lemma_digit_ascii(b[0] >> 2);
        lemma_digit_ascii(((b[0] & 3) << 4) | (b[1] >> 4));
        lemma_digit_ascii(((b[1] & 15) << 2) | (b[2] >> 6));
        lemma_digit_ascii(b[2] & 63);
        let e = base64_of(b);
        let rest = base64_of(b.subrange(3, b.len() as int));
        assert forall|i: int| 0 <= i < e.len() implies '\0' <= #[trigger] e[i] <= '\u{7f}' by {
            if i >= 4 {
                assert(e[i] == rest[i - 4]);
            }
        }
    } else if b.len() > 0 {
        lemma_six_bit_values(b[0], b[b.len() - 1], b[0]);
        lemma_digit_ascii(b[0] >> 2);
        lemma_digit_ascii((b[0] & 3) << 4);
        if b.len() == 2 {
            lemma_six_bit_values(b[0], b[1], b[1]);
            lemma_digit_ascii(((b[0] & 3) << 4) | (b[1] >> 4));
            lemma_digit_ascii((b[1] & 15) << 2);
        }
    }
}

} // verus!

//! Base64 text, in which database images travel.

use vstd::prelude::*;
use vstd::string::*;
use vstd::utf8::*;

verus! {

/// The character for a number below 64.
pub open spec fn symbol(n: int) -> char {
    if n < 26 {
        (65 + n) as char
    } else if n < 52 {
        (71 + n) as char
    } else if n < 62 {
        (n - 4) as char
    } else if n == 62 {
        '+'
    } else {
        '/'
    }
}

/// The number that a byte stands for, if it is one of the 64 symbols.
pub open spec fn sextet(b: u8) -> Option<u8> {
    if 65 <= b <= 90 {
        Some((b - 65) as u8)
    } else if 97 <= b <= 122 {
        Some((b - 71) as u8)
    } else if 48 <= b <= 57 {
        Some((b + 4) as u8)
    } else if b == 43 {
        Some(62)
    } else if b == 47 {
        Some(63)
    } else {
        None
    }
}

/// The four symbols of three bytes.
pub open spec fn quad(a: u8, b: u8, c: u8) -> Seq<char> {
    seq![
        symbol(a as int / 4),
        symbol((a as int % 4) * 16 + b as int / 16),
        symbol((b as int % 16) * 4 + c as int / 64),
        symbol(c as int % 64),
    ]
}

/// The first group of bytes: three of them, or the last one or two, padded with `=`.
pub open spec fn first_group(data: Seq<u8>) -> Seq<char> {
    if data.len() == 1 {
        quad(data[0], 0, 0).take(2) + seq!['=', '=']
    } else if data.len() == 2 {
        quad(data[0], data[1], 0).take(3) + seq!['=']
    } else {
        quad(data[0], data[1], data[2])
    }
}

/// What is left after the first group of bytes.
pub open spec fn after_group(data: Seq<u8>) -> Seq<u8> {
    if data.len() <= 3 {
        Seq::empty()
    } else {
        data.skip(3)
    }
}

/// Bytes in Base64.
pub open spec fn encoded(data: Seq<u8>) -> Seq<char>
    decreases data.len(),
{
    if data.len() == 0 {
        Seq::empty()
    } else {
        first_group(data) + encoded(after_group(data))
    }
}

/// Padding and ASCII white space carry nothing.
pub open spec fn carries(b: u8) -> bool {
    b != 61 && b != 32 && b != 9 && b != 10 && b != 12 && b != 13
}

/// The bytes of a text that carry something.
pub open spec fn payload(text: Seq<u8>) -> Seq<u8> {
    text.filter(|b: u8| carries(b))
}

/// The bytes that a run of numbers below 64 packs, four numbers to three bytes. A last
/// group of three numbers packs two bytes, and one of one or two numbers packs one.
pub open spec fn packed(v: Seq<u8>) -> Seq<u8>
    decreases v.len(),
{
    if v.len() == 0 {
        Seq::empty()
    } else {
        let second = if v.len() > 1 {
            v[1]
        } else {
            0
        };
        let a = (v[0] as int * 4 + second as int / 16) as u8;
        if v.len() <= 2 {
            seq![a]
        } else {
            let b = ((v[1] as int % 16) * 16 + v[2] as int / 4) as u8;
            if v.len() == 3 {
                seq![a, b]
            } else {
                let c = ((v[2] as int % 4) * 64 + v[3] as int) as u8;
                seq![a, b, c] + packed(v.skip(4))
            }
        }
    }
}

/// The numbers of a run of symbols.
pub open spec fn sextets(symbols: Seq<u8>) -> Seq<u8> {
    symbols.map_values(|b: u8| sextet(b)->0)
}

/// The bytes that a text stands for: `None` where a byte of its payload is no symbol.
pub open spec fn decoded(text: Seq<u8>) -> Option<Seq<u8>> {
    if forall|i: int| 0 <= i < payload(text).len() ==> sextet(#[trigger] payload(text)[i]) is Some {
        Some(packed(sextets(payload(text))))
    } else {
        None
    }
}

/// The character for a number below 64.
fn symbol_of(n: u8) -> (r: char)
    requires
        n < 64,
    ensures
        r == symbol(n as int),
{
    if n < 26 {
        (65 + n) as char
    } else if n < 52 {
        (71 + n) as char
    } else if n < 62 {
        (n - 4) as char
    } else if n == 62 {
        '+'
    } else {
        '/'
    }
}

/// The number that a byte stands for.
fn sextet_of(b: u8) -> (r: Option<u8>)
    ensures
        r == sextet(b),
{
    if 65 <= b && b <= 90 {
        Some(b - 65)
    } else if 97 <= b && b <= 122 {
        Some(b - 71)
    } else if 48 <= b && b <= 57 {
        Some(b + 4)
    } else if b == 43 {
        Some(62)
    } else if b == 47 {
        Some(63)
    } else {
        None
    }
}

/// Writes bytes in Base64, padded with `=` to a multiple of four characters.
pub fn base64_encode(data: &[u8]) -> (r: String)
    ensures
        r@ == encoded(data@),
{
    let mut out = String::new();
    let mut i: usize = 0;
    assert(data@.skip(0) =~= data@);
    while i < data.len()
        invariant
            i <= data@.len(),
            encoded(data@) == out@ + encoded(data@.skip(i as int)),
        decreases data@.len() - i,
    {
        let ghost before = out@;
        let ghost rest = data@.skip(i as int);
        let left: usize = data.len() - i;
        let b0 = data[i];
        let b1 = if left > 1 {
            data[i + 1]
        } else {
            0
        };
        let b2 = if left > 2 {
            data[i + 2]
        } else {
            0
        };
        assert(b0 >> 2 == b0 / 4 && b0 >> 2 < 64) by (bit_vector);
        assert(((b0 & 0x03) << 4) | (b1 >> 4) == (b0 % 4) * 16 + b1 / 16 && ((b0 & 0x03) << 4) | (
        b1 >> 4) < 64) by (bit_vector);
        assert(((b1 & 0x0f) << 2) | (b2 >> 6) == (b1 % 16) * 4 + b2 / 64 && ((b1 & 0x0f) << 2) | (
        b2 >> 6) < 64) by (bit_vector);
        assert(b2 & 0x3f == b2 % 64 && b2 & 0x3f < 64) by (bit_vector);
        out.push(symbol_of(b0 >> 2));
        out.push(symbol_of(((b0 & 0x03) << 4) | (b1 >> 4)));
        out.push(
            if left > 1 {
                symbol_of(((b1 & 0x0f) << 2) | (b2 >> 6))
            } else {
                '='
            },
        );
        out.push(
            if left > 2 {
                symbol_of(b2 & 0x3f)
            } else {
                '='
            },
        );
        proof {
            assert(rest.len() == left && rest[0] == b0);
            assert(out@ =~= before + first_group(rest));
            assert(before + encoded(rest) =~= out@ + encoded(after_group(rest)));
        }
        if left <= 3 {
            assert(data@.skip(data@.len() as int) =~= after_group(rest));
            i = data.len();
        } else {
            assert(data@.skip(i + 3) =~= after_group(rest));
            i += 3;
        }
    }
    assert(encoded(data@) =~= out@);
    out
}

/// Reads Base64. Padding and white space are passed over wherever they stand; any other
/// byte that is no symbol makes the whole text invalid.
pub fn base64_decode(s: &str) -> (r: Result<Vec<u8>, String>)
    ensures
        match r {
            Ok(v) => decoded(encode_utf8(s@)) == Some(v@),
            Err(m) => decoded(encode_utf8(s@)) is None && m@ == "invalid base64 input"@,
        },
{
    let text = s.as_bytes();
    let mut vals: Vec<u8> = Vec::new();
    let mut i: usize = 0;
    assert(text@.take(0) =~= Seq::<u8>::empty());
    assert(payload(text@.take(0)) =~= Seq::<u8>::empty());
    while i < text.len()
        invariant
            i <= text@.len(),
            text@ == encode_utf8(s@),
            vals@ == sextets(payload(text@.take(i as int))),
            forall|k: int|
                0 <= k < payload(text@.take(i as int)).len() ==> sextet(
                    #[trigger] payload(text@.take(i as int))[k],
                ) is Some,
        decreases text@.len() - i,
    {
        let b = text[i];
        let ghost seen = text@.take(i as int);
        proof {
            assert(text@.take(i + 1) =~= seen.push(b));
            seen.lemma_filter_push(b, |b: u8| carries(b));
        }
        if b != 61 && b != 32 && b != 9 && b != 10 && b != 12 && b != 13 {
            match sextet_of(b) {
                Some(v) => {
                    vals.push(v);
                    proof {
                        assert(payload(text@.take(i + 1)) == payload(seen).push(b));
                        assert(vals@ =~= sextets(payload(text@.take(i + 1))));
                    }
                },
                None => {
                    proof {
                        lemma_payload_prefix(text@, i + 1);
                        let at = payload(seen).len() as int;
                        assert(payload(text@.take(i + 1))[at] == b);
                        assert(payload(text@)[at] == b);
                    }
                    return Err("invalid base64 input".to_owned());
                },
            }
        }
        i += 1;
    }
    assert(text@.take(text@.len() as int) =~= text@);
    let ghost all = vals@;
    let mut out: Vec<u8> = Vec::new();
    let mut at: usize = 0;
    proof {
        assert(vals@.skip(0) =~= vals@);
        lemma_sextets_small(payload(text@));
    }
    while at < vals.len()
        invariant
            at <= vals@.len(),
            vals@ == all,
            forall|k: int| 0 <= k < all.len() ==> #[trigger] all[k] < 64,
            packed(all) == out@ + packed(all.skip(at as int)),
        decreases vals@.len() - at,
    {
        let ghost before = out@;
        let ghost rest = all.skip(at as int);
        let left: usize = vals.len() - at;
        let v0 = vals[at];
        let v1 = if left > 1 {
            vals[at + 1]
        } else {
            0
        };
        assert(v0 < 64 && v1 < 64 ==> (v0 << 2) | (v1 >> 4) == v0 * 4 + v1 / 16) by (bit_vector);
        out.push((v0 << 2) | (v1 >> 4));
        if left > 2 {
            let v2 = vals[at + 2];
            assert(v1 < 64 && v2 < 64 ==> (v1 << 4) | (v2 >> 2) == (v1 % 16) * 16 + v2 / 4)
                by (bit_vector);
            out.push((v1 << 4) | (v2 >> 2));
            if left > 3 {
                let v3 = vals[at + 3];
                assert(v2 < 64 && v3 < 64 ==> (v2 << 6) | v3 == (v2 % 4) * 64 + v3) by (bit_vector);
                out.push((v2 << 6) | v3);
            }
        }
        if left <= 4 {
            proof {
                assert(all.skip(all.len() as int) =~= Seq::<u8>::empty());
                if left == 4 {
                    assert(rest.skip(4) =~= Seq::<u8>::empty());
                    assert(packed(rest.skip(4)) =~= Seq::<u8>::empty());
                }
                assert(rest.len() == left && rest[0] == v0 && (left > 1 ==> rest[1] == v1));
                assert(out@ =~= before + packed(rest));
            }
            at = vals.len();
        } else {
            proof {
                assert(rest.skip(4) =~= all.skip(at + 4));
                assert(out@ + packed(all.skip(at + 4)) =~= before + packed(rest));
            }
            at += 4;
        }
    }
    assert(packed(all) =~= out@);
    Ok(out)
}

/// The payload of a prefix is a prefix of the payload.
proof fn lemma_payload_prefix(text: Seq<u8>, n: int)
    requires
        0 <= n <= text.len(),
    ensures
        payload(text.take(n)).len() <= payload(text).len(),
        payload(text).take(payload(text.take(n)).len() as int) == payload(text.take(n)),
        forall|k: int|
            0 <= k < payload(text.take(n)).len() ==> payload(text)[k] == #[trigger] payload(
                text.take(n),
            )[k],
{
    let f = |b: u8| carries(b);
    assert(text =~= text.take(n) + text.skip(n));
    Seq::filter_distributes_over_add(text.take(n), text.skip(n), f);
    assert(payload(text) == payload(text.take(n)) + payload(text.skip(n)));
    assert(payload(text).take(payload(text.take(n)).len() as int) =~= payload(text.take(n)));
}

/// Symbols stand for numbers below 64.
proof fn lemma_sextets_small(symbols: Seq<u8>)
    requires
        forall|k: int| 0 <= k < symbols.len() ==> sextet(#[trigger] symbols[k]) is Some,
    ensures
        forall|k: int| 0 <= k < symbols.len() ==> #[trigger] sextets(symbols)[k] < 64,
{
    assert forall|k: int| 0 <= k < symbols.len() implies #[trigger] sextets(symbols)[k] < 64 by {
        assert(sextet(symbols[k]) is Some);
    }
}

/// A text of ASCII characters, as bytes.
spec fn ascii_bytes(t: Seq<char>) -> Seq<u8> {
    t.map_values(|c: char| c as u8)
}

/// A symbol is read as the number it was written for.
proof fn lemma_symbol(n: int)
    requires
        0 <= n < 64,
    ensures
        '\0' <= symbol(n) <= '\u{7f}',
        carries(symbol(n) as u8),
        sextet(symbol(n) as u8) == Some(n as u8),
{
}

proof fn lemma_encoded_ascii(data: Seq<u8>)
    ensures
        is_ascii_chars(encoded(data)),
        encoded(data).len() == (data.len() + 2) / 3 * 4,
    decreases data.len(),
{
    if data.len() > 0 {
        lemma_encoded_ascii(after_group(data));
        let g = first_group(data);
        let a = data[0];
        let b = if data.len() > 1 {
            data[1]
        } else {
            0
        };
        let c = if data.len() > 2 {
            data[2]
        } else {
            0
        };
        lemma_symbol(a as int / 4);
        lemma_symbol((a as int % 4) * 16 + b as int / 16);
        lemma_symbol((b as int % 16) * 4 + c as int / 64);
        lemma_symbol(c as int % 64);
        assert forall|i: int| 0 <= i < g.len() implies '\0' <= #[trigger] g[i] <= '\u{7f}' by {}
        let e = encoded(data);
        assert forall|i: int| 0 <= i < e.len() implies '\0' <= #[trigger] e[i] <= '\u{7f}' by {
            if i >= g.len() {
                assert(e[i] == encoded(after_group(data))[i - g.len()]);
            } else {
                assert(e[i] == g[i]);
            }
        }
        if data.len() > 3 {
            assert((data.len() + 2) / 3 * 4 == 4 + (data.len() - 3 + 2) / 3 * 4);
        }
    }
}

/// The payload of a group's text, and what it packs.
proof fn lemma_group(data: Seq<u8>)
    requires
        data.len() > 0,
    ensures
        ({
            let p = payload(ascii_bytes(first_group(data)));
            let n = if data.len() < 3 {
                data.len()
            } else {
                3
            };
            &&& p.len() == n + 1
            &&& forall|i: int| 0 <= i < p.len() ==> sextet(#[trigger] p[i]) is Some
            &&& packed(sextets(p)) == data.take(n as int)
        }),
{
    let a = data[0];
    let b = if data.len() > 1 {
        data[1]
    } else {
        0
    };
    let c = if data.len() > 2 {
        data[2]
    } else {
        0
    };
    let s0 = a as int / 4;
    let s1 = (a as int % 4) * 16 + b as int / 16;
    let s2 = (b as int % 16) * 4 + c as int / 64;
    let s3 = c as int % 64;
    lemma_symbol(s0);
    lemma_symbol(s1);
    lemma_symbol(s2);
    lemma_symbol(s3);
    let t = ascii_bytes(first_group(data));
    let f = |b: u8| carries(b);
    let e = Seq::<u8>::empty();
    let p1 = e.push(symbol(s0) as u8);
    let p2 = p1.push(symbol(s1) as u8);
    let x3 = if data.len() > 1 {
        symbol(s2) as u8
    } else {
        61u8
    };
    let x4 = if data.len() > 2 {
        symbol(s3) as u8
    } else {
        61u8
    };
    assert('=' as u8 == 61u8);
    assert(t =~= p2.push(x3).push(x4));
    e.lemma_filter_push(symbol(s0) as u8, f);
    p1.lemma_filter_push(symbol(s1) as u8, f);
    p2.lemma_filter_push(x3, f);
    p2.push(x3).lemma_filter_push(x4, f);
    reveal(Seq::filter);
    assert(e.filter(f) =~= e);
    let p = payload(t);
    if data.len() == 1 {
        assert(p =~= p2);
        assert(sextets(p) =~= seq![s0 as u8, s1 as u8]);
        assert(packed(sextets(p)) =~= data.take(1));
    } else if data.len() == 2 {
        assert(p =~= p2.push(x3));
        assert(sextets(p) =~= seq![s0 as u8, s1 as u8, s2 as u8]);
        assert(packed(sextets(p)) =~= data.take(2));
    } else {
        assert(p =~= p2.push(x3).push(x4));
        assert(sextets(p) =~= seq![s0 as u8, s1 as u8, s2 as u8, s3 as u8]);
        assert(sextets(p).skip(4) =~= e);
        assert(packed(e) =~= e);
        assert(packed(sextets(p)) =~= data.take(3));
    }
}

proof fn lemma_round_trip(data: Seq<u8>)
    ensures
        decoded(ascii_bytes(encoded(data))) == Some(data),
    decreases data.len(),
{
    let t = ascii_bytes(encoded(data));
    let f = |b: u8| carries(b);
    if data.len() == 0 {
        reveal(Seq::filter);
        assert(payload(t) =~= Seq::<u8>::empty());
        assert(sextets(payload(t)) =~= Seq::<u8>::empty());
        assert(packed(sextets(payload(t))) =~= data);
    } else {
        let rest = after_group(data);
        let g = ascii_bytes(first_group(data));
        let u = ascii_bytes(encoded(rest));
        lemma_group(data);
        lemma_round_trip(rest);
        assert(t =~= g + u);
        Seq::filter_distributes_over_add(g, u, f);
        let p = payload(g);
        let q = payload(u);
        assert(payload(t) == p + q);
        assert forall|i: int| 0 <= i < payload(t).len() implies sextet(#[trigger] payload(t)[i]) is Some by {
            if i < p.len() {
                assert(payload(t)[i] == p[i]);
            } else {
                assert(payload(t)[i] == q[i - p.len()]);
            }
        }
        let v = sextets(p + q);
        assert(v =~= sextets(p) + sextets(q));
        if data.len() <= 3 {
            reveal(Seq::filter);
            assert(u =~= Seq::<u8>::empty());
            assert(q =~= Seq::<u8>::empty());
            assert(v =~= sextets(p));
            assert(data.take(data.len() as int) =~= data);
        } else {
            assert(v.skip(4) =~= sextets(q));
            assert(v.take(4) =~= sextets(p));
            assert(sextets(p).skip(4) =~= Seq::<u8>::empty());
            assert(packed(sextets(p).skip(4)) =~= Seq::<u8>::empty());
            assert(packed(v) =~= packed(sextets(p)) + packed(v.skip(4)));
            assert(data =~= data.take(3) + rest);
        }
    }
}

/// Bytes come back from their Base64 text.
pub proof fn law_decode_encode(data: Seq<u8>)
    ensures
        decoded(encode_utf8(encoded(data))) == Some(data),
{
    lemma_encoded_ascii(data);
    lemma_round_trip(data);
    is_ascii_chars_encode_utf8(encoded(data));
    assert(encode_utf8(encoded(data)) =~= ascii_bytes(encoded(data)));
}

/// Base64 text has four characters for every three bytes, the last group filled up.
pub proof fn law_encoded_length(data: Seq<u8>)
    ensures
        encoded(data).len() == (data.len() + 2) / 3 * 4,
{
    lemma_encoded_ascii(data);
}

/// Padding and white space may stand anywhere in a text: it reads the same without them.
pub proof fn law_decode_passes_over(before: Seq<u8>, blank: Seq<u8>, after: Seq<u8>)
    requires
        forall|i: int|
            0 <= i < blank.len() ==> (#[trigger] blank[i] == 61 || blank[i] == 32 || blank[i] == 9
                || blank[i] == 10 || blank[i] == 12 || blank[i] == 13),
    ensures
        decoded(before + blank + after) == decoded(before + after),
{
    let f = |b: u8| carries(b);
    Seq::filter_distributes_over_add(before + blank, after, f);
    Seq::filter_distributes_over_add(before, blank, f);
    Seq::filter_distributes_over_add(before, after, f);
    assert forall|i: int| 0 <= i < blank.len() implies !f(#[trigger] blank[i]) by {}
    blank.lemma_all_neg_filter_empty(f);
    assert(payload(before + blank + after) =~= payload(before + after));
}

/// No text with the byte of anything but a symbol, padding or white space is read.
pub proof fn law_decode_refuses(text: Seq<u8>, at: int)
    requires
        0 <= at < text.len(),
        carries(text[at]),
        sextet(text[at]) is None,
    ensures
        decoded(text) is None,
{
    let f = |b: u8| carries(b);
    text.lemma_filter_contains(f, at);
    let p = payload(text);
    assert(p.contains(text[at]));
    let k = choose|k: int| 0 <= k < p.len() && p[k] == text[at];
    assert(sextet(p[k]) is None);
}

/// Whether a code is that of the Base64 symbol for a number: the capitals, the small
/// letters, the digits, `+` and `/`, in this order.
pub open spec fn stands_for(code: int, n: int) -> bool {
    if 0 <= n < 26 {
        code == 'A' as int + n
    } else if 26 <= n < 52 {
        code == 'a' as int + (n - 26)
    } else if 52 <= n < 62 {
        code == '0' as int + (n - 52)
    } else if n == 62 {
        code == '+' as int
    } else {
        n == 63 && code == '/' as int
    }
}

/// Every three bytes are written as the four symbols of the number that they make, six bits
/// to a symbol. Where the last group has fewer bytes, the missing ones count as zero, and the
/// symbols that only stand for them are padding.
pub proof fn law_encoding_writes_six_bits_to_a_symbol(data: Seq<u8>, k: int)
    requires
        0 <= k,
        3 * k < data.len(),
    ensures
        ({
            let a = data[3 * k] as int;
            let b = if 3 * k + 1 < data.len() {
                data[3 * k + 1] as int
            } else {
                0
            };
            let c = if 3 * k + 2 < data.len() {
                data[3 * k + 2] as int
            } else {
                0
            };
            let n = a * 65536 + b * 256 + c;
            let t = encoded(data);
            &&& 4 * k + 3 < t.len()
            &&& stands_for(t[4 * k] as int, n / 262144)
            &&& stands_for(t[4 * k + 1] as int, n / 4096 % 64)
            &&& if 3 * k + 1 < data.len() {
                stands_for(t[4 * k + 2] as int, n / 64 % 64)
            } else {
                t[4 * k + 2] == '='
            }
            &&& if 3 * k + 2 < data.len() {
                stands_for(t[4 * k + 3] as int, n % 64)
            } else {
                t[4 * k + 3] == '='
            }
        }),
    decreases k,
{
    if k == 0 {
        lemma_first_symbols(data);
    } else {
        let rest = after_group(data);
        let t = encoded(data);
        law_encoding_writes_six_bits_to_a_symbol(rest, k - 1);
        assert(first_group(data).len() == 4);
        assert(t.len() == 4 + encoded(rest).len());
        lemma_later_symbols(data, 4 * k);
        lemma_later_symbols(data, 4 * k + 1);
        lemma_later_symbols(data, 4 * k + 2);
        lemma_later_symbols(data, 4 * k + 3);
        assert(rest[3 * (k - 1)] == data[3 * k]);
        if 3 * k + 1 < data.len() {
            assert(rest[3 * (k - 1) + 1] == data[3 * k + 1]);
        }
        if 3 * k + 2 < data.len() {
            assert(rest[3 * (k - 1) + 2] == data[3 * k + 2]);
        }
    }
}

proof fn lemma_later_symbols(data: Seq<u8>, i: int)
    requires
        data.len() > 3,
        4 <= i < encoded(data).len(),
    ensures
        encoded(data)[i] == encoded(after_group(data))[i - 4],
{
    assert(first_group(data).len() == 4);
}

proof fn lemma_stands_for(n: int)
    requires
        0 <= n < 64,
    ensures
        stands_for(symbol(n) as int, n),
{
}

proof fn lemma_six_bits(a: int, b: int, c: int)
    requires
        0 <= a < 256,
        0 <= b < 256,
        0 <= c < 256,
    ensures
        ({
            let n = a * 65536 + b * 256 + c;
            &&& n / 262144 == a / 4
            &&& n / 4096 % 64 == (a % 4) * 16 + b / 16
            &&& n / 64 % 64 == (b % 16) * 4 + c / 64
            &&& n % 64 == c % 64
        }),
{
    let n = a * 65536 + b * 256 + c;
    let x = a / 4;
    let y = a % 4;
    let z = b / 16;
    let w = b % 16;
    let u = c / 64;
    let v = c % 64;
    assert(a == 4 * x + y && b == 16 * z + w && c == 64 * u + v);
    lemma_quotient(n, 262144, x, 65536 * y + 4096 * z + 256 * w + 64 * u + v);
    lemma_quotient(n, 4096, 64 * x + 16 * y + z, 256 * w + 64 * u + v);
    lemma_quotient(64 * x + 16 * y + z, 64, x, 16 * y + z);
    lemma_quotient(n, 64, 4096 * x + 1024 * y + 64 * z + 4 * w + u, v);
    lemma_quotient(
        4096 * x + 1024 * y + 64 * z + 4 * w + u,
        64,
        64 * x + 16 * y + z,
        4 * w + u,
    );
}

proof fn lemma_quotient(n: int, d: int, q: int, r: int)
    requires
        n == q * d + r,
        0 <= r < d,
    ensures
        n / d == q,
        n % d == r,
{
    vstd::arithmetic::div_mod::lemma_fundamental_div_mod_converse(n, d, q, r);
}

proof fn lemma_first_symbols(data: Seq<u8>)
    requires
        data.len() > 0,
    ensures
        ({
            let a = data[0] as int;
            let b = if 1 < data.len() {
                data[1] as int
            } else {
                0
            };
            let c = if 2 < data.len() {
                data[2] as int
            } else {
                0
            };
            let n = a * 65536 + b * 256 + c;
            let t = encoded(data);
            &&& 3 < t.len()
            &&& stands_for(t[0] as int, n / 262144)
            &&& stands_for(t[1] as int, n / 4096 % 64)
            &&& if 1 < data.len() {
                stands_for(t[2] as int, n / 64 % 64)
            } else {
                t[2] == '='
            }
            &&& if 2 < data.len() {
                stands_for(t[3] as int, n % 64)
            } else {
                t[3] == '='
            }
        }),
{
    let a = data[0] as int;
    let b = if 1 < data.len() {
        data[1] as int
    } else {
        0
    };
    let c = if 2 < data.len() {
        data[2] as int
    } else {
        0
    };
    lemma_six_bits(a, b, c);
    lemma_stands_for(a / 4);
    lemma_stands_for((a % 4) * 16 + b / 16);
    lemma_stands_for((b % 16) * 4 + c / 64);
    lemma_stands_for(c % 64);
    let g = first_group(data);
    let t = encoded(data);
    assert(g.len() == 4);
    assert(t[0] == g[0] && t[1] == g[1] && t[2] == g[2] && t[3] == g[3]);
    assert(g[0] == symbol(a / 4) && g[1] == symbol((a % 4) * 16 + b / 16));
    assert(1 < data.len() ==> g[2] == symbol((b % 16) * 4 + c / 64));
    assert(2 < data.len() ==> g[3] == symbol(c % 64));
}

/// A text of symbols is all payload.
proof fn lemma_all_payload(text: Seq<u8>)
    requires
        forall|i: int| 0 <= i < text.len() ==> carries(#[trigger] text[i]),
    ensures
        payload(text) == text,
    decreases text.len(),
{
    reveal(Seq::filter);
    if text.len() > 0 {
        let front = text.drop_last();
        lemma_all_payload(front);
        assert(payload(text) =~= front.push(text.last()));
        assert(front.push(text.last()) =~= text);
    } else {
        assert(payload(text) =~= text);
    }
}

/// How many bytes a run of symbols packs.
pub open spec fn packed_len(symbols: int) -> int {
    if symbols % 4 == 0 {
        symbols / 4 * 3
    } else if symbols % 4 == 3 {
        symbols / 4 * 3 + 2
    } else {
        symbols / 4 * 3 + 1
    }
}

proof fn lemma_packed(v: Seq<u8>, k: int)
    requires
        forall|i: int| 0 <= i < v.len() ==> #[trigger] v[i] < 64,
        0 <= k,
        4 * k < v.len(),
    ensures
        ({
            let p = packed(v);
            &&& p.len() == packed_len(v.len() as int)
            &&& 4 * k + 3 < v.len() ==> p[3 * k] * 65536 + p[3 * k + 1] * 256 + p[3 * k + 2] == v[4
                * k] * 262144 + v[4 * k + 1] * 4096 + v[4 * k + 2] * 64 + v[4 * k + 3]
            &&& v.len() == 4 * k + 1 ==> p[3 * k] == v[4 * k] * 4
            &&& v.len() == 4 * k + 2 || v.len() == 4 * k + 3 ==> p[3 * k] == v[4 * k] * 4 + v[4 * k
                + 1] / 16
            &&& v.len() == 4 * k + 3 ==> p[3 * k + 1] == v[4 * k + 1] % 16 * 16 + v[4 * k + 2] / 4
        }),
    decreases v.len(),
{
    let p = packed(v);
    let rest = v.skip(4);
    if v.len() > 4 {
        if k == 0 {
            lemma_packed(rest, 0);
        } else {
            lemma_packed(rest, k - 1);
        }
        assert(forall|i: int| 3 <= i < p.len() ==> p[i] == packed(rest)[i - 3]);
        assert(forall|i: int| 4 <= i < v.len() ==> v[i] == rest[i - 4]);
    } else if v.len() == 4 {
        assert(rest =~= Seq::empty());
        assert(packed(rest) =~= Seq::empty());
    }
    if v.len() > 3 && k == 0 {
        let a = v[0] as int;
        let b = v[1] as int;
        let c = v[2] as int;
        let d = v[3] as int;
        assert(p[0] == (a * 4 + b / 16) as u8);
        assert(p[1] == ((b % 16) * 16 + c / 4) as u8);
        assert(p[2] == ((c % 4) * 64 + d) as u8);
        assert(p[0] == a * 4 + b / 16);
        assert(p[1] == (b % 16) * 16 + c / 4);
        assert(p[2] == (c % 4) * 64 + d);
    }
}

/// A text of symbols is read six bits to a symbol, four symbols to three bytes. Of a last
/// group of fewer symbols the bits that fill no byte are dropped, but that a single symbol
/// fills one with zeros.
pub proof fn law_decoding_reads_six_bits_to_a_symbol(text: Seq<u8>, n: Seq<int>, k: int)
    requires
        text.len() == n.len(),
        forall|i: int| 0 <= i < n.len() ==> stands_for(text[i] as int, #[trigger] n[i]),
        0 <= k,
        4 * k < n.len(),
    ensures
        decoded(text) matches Some(v) && {
            &&& v.len() == packed_len(n.len() as int)
            &&& 4 * k + 3 < n.len() ==> v[3 * k] * 65536 + v[3 * k + 1] * 256 + v[3 * k + 2] == n[4
                * k] * 262144 + n[4 * k + 1] * 4096 + n[4 * k + 2] * 64 + n[4 * k + 3]
            &&& n.len() == 4 * k + 1 ==> v[3 * k] == n[4 * k] * 4
            &&& n.len() == 4 * k + 2 || n.len() == 4 * k + 3 ==> v[3 * k] == n[4 * k] * 4 + n[4 * k
                + 1] / 16
            &&& n.len() == 4 * k + 3 ==> v[3 * k + 1] == n[4 * k + 1] % 16 * 16 + n[4 * k + 2] / 4
        },
{
    assert forall|i: int| 0 <= i < text.len() implies carries(#[trigger] text[i]) && sextet(
        text[i],
    ) == Some(n[i] as u8) && 0 <= n[i] < 64 by {
        assert(stands_for(text[i] as int, n[i]));
    }
    lemma_all_payload(text);
    let v = sextets(text);
    assert forall|i: int| 0 <= i < v.len() implies #[trigger] v[i] < 64 && v[i] == n[i] by {
        assert(carries(text[i]));
    }
    lemma_packed(v, k);
}

/// A text is read exactly where each of its bytes is a symbol, padding or white space.
pub proof fn law_what_is_base64(text: Seq<u8>)
    ensures
        decoded(text) is Some <==> forall|i: int|
            0 <= i < text.len() ==> {
                let b = #[trigger] text[i];
                65 <= b <= 90 || 97 <= b <= 122 || 48 <= b <= 57 || b == 43 || b == 47 || b == 61
                    || b == 32 || b == 9 || b == 10 || b == 12 || b == 13
            },
{
    let f = |b: u8| carries(b);
    let p = payload(text);
    if decoded(text) is Some {
        assert forall|i: int| 0 <= i < text.len() implies ({
            let b = #[trigger] text[i];
            65 <= b <= 90 || 97 <= b <= 122 || 48 <= b <= 57 || b == 43 || b == 47 || b == 61 || b
                == 32 || b == 9 || b == 10 || b == 12 || b == 13
        }) by {
            if carries(text[i]) {
                if sextet(text[i]) is None {
                    law_decode_refuses(text, i);
                }
            }
        }
    }
    if forall|i: int|
        0 <= i < text.len() ==> {
            let b = #[trigger] text[i];
            65 <= b <= 90 || 97 <= b <= 122 || 48 <= b <= 57 || b == 43 || b == 47 || b == 61 || b
                == 32 || b == 9 || b == 10 || b == 12 || b == 13
        } {
        assert forall|i: int| 0 <= i < p.len() implies sextet(#[trigger] p[i]) is Some by {
            text.lemma_filter_pred(f, i);
            lemma_filter_from(text, i);
        }
    }
}

/// What is left of a text was in it.
proof fn lemma_filter_from(text: Seq<u8>, i: int)
    requires
        0 <= i < payload(text).len(),
    ensures
        text.contains(payload(text)[i]),
    decreases text.len(),
{
    reveal(Seq::filter);
    if text.len() > 0 {
        let front = text.drop_last();
        if i < payload(front).len() {
            lemma_filter_from(front, i);
            let j = choose|j: int| 0 <= j < front.len() && front[j] == payload(front)[i];
            assert(text[j] == front[j]);
        } else {
            assert(text[text.len() - 1] == payload(text)[i]);
        }
    }
}

} // verus!

//! Text: decimal numbers, comparison, and the passage between bytes and characters.

use vstd::prelude::*;
use vstd::string::*;
use vstd::utf8::*;

verus! {

/// The character of a decimal digit.
pub open spec fn digit(d: nat) -> char {
    (48 + d) as char
}

/// A natural number in decimal, without leading zeros.
pub open spec fn digits(n: nat) -> Seq<char>
    decreases n,
{
    if n < 10 {
        seq![digit(n)]
    } else {
        digits(n / 10).push(digit(n % 10))
    }
}

/// An integer in decimal.
pub open spec fn decimal(n: int) -> Seq<char> {
    if n < 0 {
        seq!['-'] + digits((-n) as nat)
    } else {
        digits(n as nat)
    }
}

/// `String::push` appends one character.
pub assume_specification[ String::push ](s: &mut String, c: char)
    ensures
        final(s)@ == old(s)@.push(c),
;

/// An unsigned number in decimal.
pub fn decimal_u64(n: u64) -> (r: String)
    ensures
        r@ == decimal(n as int),
    decreases n,
{
    let low: u8 = (n % 10) as u8;
    let mut r = if n < 10 {
        String::new()
    } else {
        decimal_u64(n / 10)
    };
    r.push((48u8 + low) as char);
    proof {
        assert(r@ =~= decimal(n as int));
    }
    r
}

/// A signed number in decimal.
pub fn decimal_i64(n: i64) -> (r: String)
    ensures
        r@ == decimal(n as int),
{
    if n < 0 {
        let mut r = String::new();
        r.push('-');
        let magnitude: u64 = if n == i64::MIN {
            0x8000_0000_0000_0000
        } else {
            (-n) as u64
        };
        r.append(decimal_u64(magnitude).as_str());
        r
    } else {
        decimal_u64(n as u64)
    }
}

/// Two texts with the same UTF-8 bytes have the same characters.
pub proof fn same_bytes_same_text(a: Seq<char>, b: Seq<char>)
    requires
        encode_utf8(a) == encode_utf8(b),
    ensures
        a == b,
{
    encode_utf8_decode_utf8(a);
    encode_utf8_decode_utf8(b);
}

/// Whether two texts are equal.
pub fn same_text(a: &str, b: &str) -> (r: bool)
    ensures
        r == (a@ == b@),
{
    let x = a.as_bytes();
    let y = b.as_bytes();
    if x.len() != y.len() {
        return false;
    }
    let mut i: usize = 0;
    while i < x.len()
        invariant
            i <= x@.len(),
            x@.len() == y@.len(),
            x@ == encode_utf8(a@),
            y@ == encode_utf8(b@),
            forall|j: int| 0 <= j < i ==> x@[j] == y@[j],
        decreases x@.len() - i,
    {
        if x[i] != y[i] {
            return false;
        }
        i += 1;
    }
    proof {
        assert(x@ =~= y@);
        same_bytes_same_text(a@, b@);
    }
    true
}

/// The text that `String::from_utf8_lossy` makes of bytes.
pub uninterp spec fn lossy_text(bytes: Seq<u8>) -> Seq<char>;

/// `String::from_utf8_lossy`: bytes that are UTF-8 give the text they encode, and what
/// is not UTF-8 gives way to replacement characters. Where those fall is left unsaid.
#[verifier::external_body]
pub(crate) fn lossy(bytes: &[u8]) -> (r: String)
    ensures
        r@ == lossy_text(bytes@),
        valid_utf8(bytes@) ==> r@ == decode_utf8(bytes@),
{
    String::from_utf8_lossy(bytes).into_owned()
}

/// The text of a C string, empty where there is none.
pub open spec fn c_text(t: Option<Seq<u8>>) -> Seq<char> {
    match t {
        Some(bytes) => lossy_text(bytes),
        None => Seq::empty(),
    }
}

/// The text of a C string, empty where there is none.
pub fn c_string(t: Option<Vec<u8>>) -> (r: String)
    ensures
        r@ == c_text(
            match t {
                Some(bytes) => Some(bytes@),
                None => None,
            },
        ),
{
    match t {
        Some(bytes) => lossy(bytes.as_slice()),
        None => String::new(),
    }
}

/// Why a text cannot be handed to SQLite, whose texts end at the first NUL byte: the
/// message names the position of that byte. `None` for a text without NUL.
pub open spec fn nul_complaint(t: Seq<char>) -> Option<Seq<char>> {
    match encode_utf8(t).index_of_first(0u8) {
        Some(at) => Some("nul byte found in provided data at position: "@ + decimal(at)),
        None => None,
    }
}

/// The complaint about a NUL byte in `t`, if there is one.
pub fn nul_error(t: &str) -> (r: Option<String>)
    ensures
        match r {
            Some(m) => nul_complaint(t@) == Some(m@),
            None => nul_complaint(t@) is None,
        },
{
    let bytes = t.as_bytes();
    proof {
        bytes@.index_of_first_ensures(0u8);
    }
    let mut i: usize = 0;
    while i < bytes.len()
        invariant
            i <= bytes@.len(),
            bytes@ == encode_utf8(t@),
            forall|j: int| 0 <= j < i ==> bytes@[j] != 0u8,
        decreases bytes@.len() - i,
    {
        if bytes[i] == 0u8 {
            proof {
                bytes@.index_of_first_ensures(0u8);
                assert(bytes@[i as int] == 0u8);
                assert(bytes@.contains(0u8));
            }
            let mut m = "nul byte found in provided data at position: ".to_owned();
            m.append(decimal_u64(i as u64).as_str());
            return Some(m);
        }
        i += 1;
    }
    proof {
        bytes@.index_of_first_ensures(0u8);
    }
    None
}

/// An ASCII capital's small letter; any other character as it is.
pub open spec fn ascii_lower(c: char) -> char {
    if 'A' <= c <= 'Z' {
        ((c as u32) + 32) as char
    } else {
        c
    }
}

/// Whether a text reads `wal`, whatever the case of its ASCII letters.
pub open spec fn reads_wal(t: Seq<char>) -> bool {
    t.map_values(|c: char| ascii_lower(c)) == seq!['w', 'a', 'l']
}

/// Whether a text reads `wal`, whatever the case of its ASCII letters.
pub fn is_wal(t: &str) -> (r: bool)
    ensures
        r == reads_wal(t@),
{
    let ghost low = t@.map_values(|c: char| ascii_lower(c));
    if t.unicode_len() != 3 {
        assert(low.len() != 3);
        return false;
    }
    let w = t.get_char(0);
    let a = t.get_char(1);
    let l = t.get_char(2);
    let r = (w == 'w' || w == 'W') && (a == 'a' || a == 'A') && (l == 'l' || l == 'L');
    proof {
        assert(low[0] == ascii_lower(w) && low[1] == ascii_lower(a) && low[2] == ascii_lower(l));
        if r {
            assert(low =~= seq!['w', 'a', 'l']);
        }
    }
    r
}

/// The number that a run of decimal digits stands for.
pub open spec fn numeral(t: Seq<char>) -> int
    decreases t.len(),
{
    if t.len() == 0 {
        0
    } else {
        numeral(t.drop_last()) * 10 + (t.last() as int - '0' as int)
    }
}

proof fn lemma_digits(n: nat)
    ensures
        digits(n).len() > 0,
        numeral(digits(n)) == n,
        digits(n)[0] == '0' ==> n == 0,
        forall|i: int| 0 <= i < digits(n).len() ==> '0' <= #[trigger] digits(n)[i] <= '9',
        n > 0 || digits(n).len() == 1,
    decreases n,
{
    if n < 10 {
        assert(digits(n).drop_last() =~= Seq::empty());
        assert(numeral(digits(n).drop_last()) == 0);
        assert(digits(n).last() as int == 48 + n);
    } else {
        let low = digit(n % 10);
        lemma_digits(n / 10);
        assert(digits(n).drop_last() =~= digits(n / 10));
        assert(digits(n).last() == low);
        assert(low as int == 48 + n % 10);
        assert(digits(n)[0] == digits(n / 10)[0]);
    }
}

/// A number in decimal is made of the ten digits, has no needless zero in front and reads
/// back as that number; a negative one has a minus sign before the digits of its opposite.
pub proof fn law_decimals_read_back(n: int)
    ensures
        n >= 0 ==> numeral(decimal(n)) == n && decimal(n).len() > 0,
        n >= 0 ==> forall|i: int|
            0 <= i < decimal(n).len() ==> '0' <= #[trigger] decimal(n)[i] <= '9',
        n > 0 ==> decimal(n)[0] != '0',
        n == 0 ==> decimal(n).len() == 1,
        n < 0 ==> decimal(n) == seq!['-'] + decimal(-n),
{
    if n >= 0 {
        lemma_digits(n as nat);
    }
}

/// A text can be handed to SQLite exactly where none of its bytes is zero. Otherwise the
/// complaint tells where the first such byte stands.
pub proof fn law_complaints_tell_the_first_nul(t: Seq<char>)
    ensures
        nul_complaint(t) is None <==> forall|i: int|
            0 <= i < encode_utf8(t).len() ==> #[trigger] encode_utf8(t)[i] != 0,
        forall|at: int|
            0 <= at < encode_utf8(t).len() && #[trigger] encode_utf8(t)[at] == 0 && (forall|i: int|
                0 <= i < at ==> #[trigger] encode_utf8(t)[i] != 0) ==> nul_complaint(t) == Some(
                "nul byte found in provided data at position: "@ + decimal(at),
            ),
{
    let bytes = encode_utf8(t);
    bytes.index_of_first_ensures(0u8);
    assert forall|at: int|
        0 <= at < bytes.len() && #[trigger] bytes[at] == 0 && (forall|i: int|
            0 <= i < at ==> #[trigger] bytes[i] != 0) implies nul_complaint(t) == Some(
        "nul byte found in provided data at position: "@ + decimal(at),
    ) by {
        assert(bytes.contains(0u8));
    }
    if exists|i: int| 0 <= i < bytes.len() && #[trigger] bytes[i] == 0 {
        assert(bytes.contains(0u8));
    }
}

/// The text of a C string is what its bytes decode to, all of it; a missing one is empty.
pub proof fn law_c_texts_are_decoded_whole(bytes: Seq<u8>)
    ensures
        c_text(Some(bytes)) == lossy_text(bytes),
        c_text(None) == Seq::<char>::empty(),
{
}

/// A text reads `wal` exactly where it is these three letters, each in either case.
pub proof fn law_wal_is_three_letters(t: Seq<char>)
    ensures
        reads_wal(t) <==> t.len() == 3 && (t[0] == 'w' || t[0] == 'W') && (t[1] == 'a' || t[1]
            == 'A') && (t[2] == 'l' || t[2] == 'L'),
{
    let low = t.map_values(|c: char| ascii_lower(c));
    if t.len() == 3 {
        assert(low[0] == ascii_lower(t[0]) && low[1] == ascii_lower(t[1]) && low[2] == ascii_lower(
            t[2],
        ));
        if low[0] == 'w' && low[1] == 'a' && low[2] == 'l' {
            assert(low =~= seq!['w', 'a', 'l']);
        }
        if low == seq!['w', 'a', 'l'] {
            assert(low[0] == 'w' && low[1] == 'a' && low[2] == 'l');
        }
    } else {
        assert(low.len() != 3);
    }
}

/// Whether none of a text's bytes is zero.
pub open spec fn is_clean(t: Seq<char>) -> bool {
    forall|i: int| 0 <= i < encode_utf8(t).len() ==> #[trigger] encode_utf8(t)[i] != 0
}

/// Whether a statement and its parameters can be handed to SQLite.
pub open spec fn all_clean(sql: Seq<char>, params: Seq<Seq<char>>) -> bool {
    is_clean(sql) && forall|i: int| 0 <= i < params.len() ==> is_clean(#[trigger] params[i])
}

/// Whether the first zero byte of a text stands at an index.
pub open spec fn first_nul(t: Seq<char>, at: int) -> bool {
    &&& 0 <= at < encode_utf8(t).len()
    &&& encode_utf8(t)[at] == 0
    &&& forall|i: int| 0 <= i < at ==> #[trigger] encode_utf8(t)[i] != 0
}

/// Why a call failed, with its result code and what SQLite said of it.
pub open spec fn told(what: Seq<char>, code: i32, message: Option<Seq<u8>>) -> Seq<char> {
    what + decimal(code as int) + " msg="@ + match message {
        Some(bytes) => lossy_text(bytes),
        None => Seq::empty(),
    }
}

} // verus!

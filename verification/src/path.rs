//! Paths of database files, as the plugin's file system names them.

use crate::text::same_text;
use vstd::prelude::*;
use vstd::string::*;
use vstd::utf8::*;

verus! {

/// A path that starts with a drive letter, such as `C:`.
pub open spec fn has_drive(p: Seq<char>) -> bool {
    p.len() >= 2 && p[0] <= '\u{7f}' && p[1] == ':'
}

/// A path with every backslash turned into a slash.
pub open spec fn slashed(p: Seq<char>) -> Seq<char> {
    p.map_values(|c: char| if c == '\\' { '/' } else { c })
}

/// A path that names the same file from the root on, or no file at all.
pub open spec fn is_guest_path(p: Seq<char>) -> bool {
    p.len() == 0 || p == ":memory:"@ || p[0] == '/'
}

/// The path by which the plugin's file system, rooted at `/`, knows a host's path.
pub open spec fn guest_path(p: Seq<char>) -> Seq<char> {
    if is_guest_path(p) {
        p
    } else {
        let rest = slashed(
            if has_drive(p) {
                p.skip(2)
            } else {
                p
            },
        );
        if rest.len() > 0 && rest[0] == '/' {
            rest
        } else {
            seq!['/'] + rest
        }
    }
}

/// A character is compared by its code.
proof fn lemma_code(c: char)
    ensures
        c <= '\u{7f}' <==> c as u32 <= 0x7f,
        c == ':' <==> c as u32 == 58,
        c == '/' <==> c as u32 == 47,
{
}

/// The first byte of a character's UTF-8 form is below 128 just where the character is,
/// and is then its code.
proof fn lemma_first_byte(p: Seq<char>)
    requires
        p.len() > 0,
    ensures
        encode_utf8(p).len() > 0,
        p[0] <= '\u{7f}' <==> encode_utf8(p)[0] < 128,
        p[0] <= '\u{7f}' ==> encode_utf8(p)[0] == p[0] as u32 && encode_utf8(p) == seq![
            encode_utf8(p)[0],
        ] + encode_utf8(p.drop_first()),
        p[0] > '\u{7f}' ==> encode_utf8(p).len() > 1 && encode_utf8(p)[1] >= 128,
{
    let b = encode_utf8(p);
    let first = p[0];
    let c = first as u32;
    lemma_code(first);
    encode_utf8_first_scalar(p);
    let b0 = b[0];
    if has_width_1_encoding(c) {
        assert(leading_byte_width_1(c) == c) by (bit_vector)
            requires
                c <= 0x7f,
        ;
        assert(encode_scalar(c) =~= seq![leading_byte_width_1(c)]);
        assert(b == encode_scalar(c) + encode_utf8(p.drop_first()));
        assert(b[0] == c);
    } else {
        assert(codepoint_width_1(b0) <= 0x7f) by (bit_vector);
        assert(!is_leading_byte_width_1(b0));
        assert(is_continuation_byte(b[1]));
    }
}

/// A leading slash shows in the first byte, a drive letter and its colon in the first two.
proof fn lemma_first_bytes(p: Seq<char>)
    ensures
        has_drive(p) <==> encode_utf8(p).len() > 1 && encode_utf8(p)[1] == 58u8,
        p.len() > 0 ==> encode_utf8(p).len() > 0 && (p[0] == '/' <==> encode_utf8(p)[0]
            == 47u8),
{
    if p.len() > 0 {
        lemma_first_byte(p);
        lemma_code(p[0]);
        let rest = p.drop_first();
        if rest.len() > 0 {
            lemma_first_byte(rest);
            lemma_code(rest[0]);
            assert(rest[0] == p[1]);
        }
    }
}

/// Rewrites a host's absolute path, which may start with a drive letter and mix the two
/// separators, into the path that the plugin's file system knows. `:memory:`, the empty
/// path and a path from the root stay as they are.
pub fn to_wasi_guest_path(path: &str) -> (r: String)
    ensures
        r@ == guest_path(path@),
{
    let bytes = path.as_bytes();
    proof {
        lemma_first_bytes(path@);
    }
    if path.is_empty() || same_text(path, ":memory:") || bytes[0] == 47u8 {
        return path.to_owned();
    }
    let skipped: usize = if bytes.len() > 1 && bytes[1] == 58u8 {
        2
    } else {
        0
    };
    let ghost bare = path@.skip(skipped as int);
    let mut seen: usize = 0;
    let mut rooted = false;
    let mut rest = String::new();
    for c in it: path.chars()
        invariant
            it.seq() == path@,
            skipped <= path@.len(),
            bare == path@.skip(skipped as int),
            seen == if it.index() < skipped { it.index() } else { skipped as int },
            it.index() <= skipped ==> rest@.len() == 0,
            it.index() > skipped ==> rest@ == slashed(bare).take(it.index() - skipped),
            rooted == (rest@.len() > 0 && rest@[0] == '/'),
    {
        if seen < skipped {
            seen += 1;
        } else {
            let d = if c == '\\' {
                '/'
            } else {
                c
            };
            if rest.as_str().is_empty() {
                rooted = d == '/';
            }
            rest.push(d);
            proof {
                assert(slashed(bare)[it.index() - skipped] == d);
                assert(rest@ =~= slashed(bare).take(it.index() + 1 - skipped));
            }
        }
    }
    proof {
        assert(bare =~= if has_drive(path@) { path@.skip(2) } else { path@ });
        assert(rest@ =~= slashed(bare));
    }
    if rooted {
        rest
    } else {
        let mut r = "/".to_owned();
        r.append(rest.as_str());
        proof {
            reveal_strlit("/");
            assert(r@ =~= seq!['/'] + rest@);
        }
        r
    }
}

/// A path that has been rewritten stays as it is when it is rewritten again.
pub proof fn law_guest_path_settles(p: Seq<char>)
    ensures
        guest_path(guest_path(p)) == guest_path(p),
{
}

/// A rewritten path is empty, is `:memory:` or starts at the root, and a host path that
/// needs rewriting loses all its backslashes.
pub proof fn law_guest_path_from_root(p: Seq<char>)
    ensures
        is_guest_path(guest_path(p)),
        !is_guest_path(p) ==> guest_path(p)[0] == '/' && !guest_path(p).contains('\\'),
{
    if !is_guest_path(p) {
        let g = guest_path(p);
        assert forall|i: int| 0 <= i < g.len() implies g[i] != '\\' by {}
    }
}

/// A path from the root, `:memory:` and no path at all stay as they are.
pub proof fn law_guest_paths_are_kept(p: Seq<char>)
    requires
        p.len() == 0 || p == ":memory:"@ || p[0] == '/',
    ensures
        guest_path(p) == p,
{
}

/// Rewriting a host path takes away a drive letter with its colon, and puts a slash in front
/// where none stands there. Every other character stays in its place and as it is, but for
/// backslashes, which become slashes.
pub proof fn law_rewriting_keeps_every_character(p: Seq<char>)
    requires
        p.len() > 0,
        p != ":memory:"@,
        p[0] != '/',
    ensures
        ({
            let drive: int = if p.len() >= 2 && p[0] as int <= 127 && p[1] == ':' {
                2
            } else {
                0
            };
            let front: int = if drive < p.len() && (p[drive] == '/' || p[drive] == '\\') {
                0
            } else {
                1
            };
            let g = guest_path(p);
            &&& g.len() == front + p.len() - drive
            &&& g[0] == '/'
            &&& forall|i: int|
                drive <= i < p.len() ==> g[front + i - drive] == if #[trigger] p[i] == '\\' {
                    '/'
                } else {
                    p[i]
                }
        }),
{
    let drive: int = if has_drive(p) {
        2
    } else {
        0
    };
    let rest = slashed(p.skip(drive));
    assert(p.skip(0) =~= p);
    assert forall|i: int| drive <= i < p.len() implies rest[i - drive] == (if #[trigger] p[i]
        == '\\' {
        '/'
    } else {
        p[i]
    }) by {
        assert(p.skip(drive)[i - drive] == p[i]);
    }
}

} // verus!

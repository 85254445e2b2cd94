//! Content-addressed names for opened files.

use vstd::prelude::*;
use crate::paths::{extension_of, path_extension};
use crate::text::{chars_of, string_from_chars};

verus! {

/// The 32-byte BLAKE3 digest of `data` (`blake3::hash`).
pub uninterp spec fn blake3_digest_of(data: Seq<u8>) -> Seq<u8>;

/// Lowercase hexadecimal digit for a value below 16.
pub open spec fn hex_digit(n: u8) -> char {
    if n < 10 {
        (48 + n) as char
    } else {
        (87 + n) as char
    }
}

/// Lowercase hexadecimal encoding, two digits per byte, high nibble first.
pub open spec fn hex_of(bytes: Seq<u8>) -> Seq<char>
    decreases bytes.len(),
{
    if bytes.len() == 0 {
        Seq::empty()
    } else {
        seq![hex_digit(bytes[0] / 16), hex_digit(bytes[0] % 16)] + hex_of(bytes.drop_first())
    }
}

/// What follows the digest in a content name: a dot and the extension, or
/// nothing for a file without one.
pub open spec fn extension_suffix(ext: Option<Seq<char>>) -> Seq<char> {
    match ext {
        Some(e) => seq!['.'] + e,
        None => Seq::empty(),
    }
}

/// The name under which a file's content is stored: the first seven
/// hexadecimal digits of its BLAKE3 digest, then the file's extension.
pub open spec fn content_name(data: Seq<u8>, ext: Option<Seq<char>>) -> Seq<char> {
    hex_of(blake3_digest_of(data)).take(7) + extension_suffix(ext)
}

/// `blake3::hash`, its digest as bytes.  The crate documents the digest as
/// 32 bytes long.
#[verifier::external_body]
fn blake3_digest(data: &[u8]) -> (r: Vec<u8>)
    ensures
        r@ == blake3_digest_of(data@),
        r@.len() == 32,
{
    blake3::hash(data).as_bytes().to_vec()
}

fn hex_char(n: u8) -> (c: char)
    requires
        n < 16,
    ensures
        c == hex_digit(n),
{
    let table: [char; 16] = [
        '0', '1', '2', '3', '4', '5', '6', '7', '8', '9', 'a', 'b', 'c', 'd', 'e', 'f',
    ];
    let c = table[n as usize];
    assert(c == hex_digit(n)) by {
        assert(table@ == seq![
            '0', '1', '2', '3', '4', '5', '6', '7', '8', '9', 'a', 'b', 'c', 'd', 'e', 'f',
        ]);
    }
    c
}

proof fn lemma_hex_prefix(bytes: Seq<u8>)
    requires
        bytes.len() >= 4,
    ensures
        hex_of(bytes).take(7) =~= seq![
            hex_digit(bytes[0] / 16),
            hex_digit(bytes[0] % 16),
            hex_digit(bytes[1] / 16),
            hex_digit(bytes[1] % 16),
            hex_digit(bytes[2] / 16),
            hex_digit(bytes[2] % 16),
            hex_digit(bytes[3] / 16),
        ],
{
    let t1 = bytes.drop_first();
    let t2 = t1.drop_first();
    let t3 = t2.drop_first();
    assert(hex_of(bytes) == seq![hex_digit(bytes[0] / 16), hex_digit(bytes[0] % 16)] + hex_of(t1));
    assert(hex_of(t1) == seq![hex_digit(t1[0] / 16), hex_digit(t1[0] % 16)] + hex_of(t2));
    assert(hex_of(t2) == seq![hex_digit(t2[0] / 16), hex_digit(t2[0] % 16)] + hex_of(t3));
    assert(hex_of(t3) == seq![hex_digit(t3[0] / 16), hex_digit(t3[0] % 16)] + hex_of(
        t3.drop_first(),
    ));
}

/// Name of a file by its content: the first seven hexadecimal digits of its
/// BLAKE3 digest, keeping the extension of the file at `path`.
pub fn hash(path: &str, content: &[u8]) -> (r: String)
    ensures
        r@ == content_name(content@, extension_of(path@)),
{
    let d = blake3_digest(content);
    let mut cs: Vec<char> = Vec::new();
    cs.push(hex_char(d[0] / 16));
    cs.push(hex_char(d[0] % 16));
    cs.push(hex_char(d[1] / 16));
    cs.push(hex_char(d[1] % 16));
    cs.push(hex_char(d[2] / 16));
    cs.push(hex_char(d[2] % 16));
    cs.push(hex_char(d[3] / 16));
    proof {
        lemma_hex_prefix(d@);
    }
    let ghost digits = cs@;
    match path_extension(path) {
        Some(e) => {
            cs.push('.');
            let ec = chars_of(e.as_str());
            let ghost start = cs@;
            let mut i: usize = 0;
            while i < ec.len()
                invariant
                    i <= ec@.len(),
                    cs@ == start + ec@.take(i as int),
                decreases ec@.len() - i,
            {
                cs.push(ec[i]);
                i = i + 1;
                proof {
                    assert(cs@ =~= start + ec@.take(i as int));
                }
            }
            proof {
                assert(ec@.take(ec@.len() as int) =~= ec@);
                assert(cs@ =~= digits + (seq!['.'] + e@));
            }
        },
        None => {},
    }
    proof {
        assert(cs@ =~= content_name(content@, extension_of(path@)));
    }
    string_from_chars(cs.as_slice())
}

/// A content name is seven hexadecimal digits followed by the file's
/// extension (a dot and the extension, or nothing).
pub proof fn lemma_content_name_shape(data: Seq<u8>, ext: Option<Seq<char>>)
    requires
        blake3_digest_of(data).len() == 32,
    ensures
        content_name(data, ext).len() == 7 + extension_suffix(ext).len(),
        forall|i: int|
            0 <= i < 7 ==> {
                let c = #[trigger] content_name(data, ext)[i];
                ('0' <= c <= '9') || ('a' <= c <= 'f')
            },
        content_name(data, ext).skip(7) == extension_suffix(ext),
{
    let d = blake3_digest_of(data);
    lemma_hex_prefix(d);
    assert forall|n: u8| n < 16 implies {
        let c = #[trigger] hex_digit(n);
        ('0' <= c <= '9') || ('a' <= c <= 'f')
    } by {}
    assert(d[0] / 16 < 16 && d[0] % 16 < 16 && d[1] / 16 < 16 && d[1] % 16 < 16);
    assert(d[2] / 16 < 16 && d[2] % 16 < 16 && d[3] / 16 < 16);
    assert(content_name(data, ext).skip(7) =~= extension_suffix(ext));
}

} // verus!

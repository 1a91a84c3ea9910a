//! String utilities the coordinator builds its URLs and comparisons from:
//! character-exact equality, ASCII lowercasing, space-joining of scope lists,
//! and percent-encoding of query-parameter values over their UTF-8 bytes.

use vstd::prelude::*;

verus! {

/// Relies on std's `String::push`: appends exactly the given character.
#[verifier::external_body]
pub(crate) fn push_char(s: &mut String, c: char)
    ensures
        final(s)@ == old(s)@.push(c),
{
    s.push(c);
}

/// Character-for-character equality of two string slices.
pub fn str_eq(a: &str, b: &str) -> (r: bool)
    ensures
        r == (a@ == b@),
{
    let alen = a.unicode_len();
    let blen = b.unicode_len();
    if alen != blen {
        return false;
    }
    let mut i: usize = 0;
    while i < alen
        invariant
            alen == a@.len(),
            blen == b@.len(),
            alen == blen,
            i <= alen,
            forall|j: int| 0 <= j < i ==> a@[j] == b@[j],
        decreases alen - i,
    {
        if a.get_char(i) != b.get_char(i) {
            return false;
        }
        i = i + 1;
    }
    proof {
        assert(a@ =~= b@);
    }
    true
}

/// The ASCII-lowercased form of a character.
pub open spec fn lower_char(c: char) -> char {
    if 'A' <= c && c <= 'Z' {
        (((c as u8) + 32) as u8) as char
    } else {
        c
    }
}

/// The ASCII-lowercased form of a character sequence.
pub open spec fn lower_seq(s: Seq<char>) -> Seq<char> {
    s.map_values(|c: char| lower_char(c))
}

/// ASCII-lowercases a string.
pub fn to_ascii_lower(s: &str) -> (r: String)
    ensures
        r@ == lower_seq(s@),
{
    let len = s.unicode_len();
    let mut out = String::new();
    let mut i: usize = 0;
    while i < len
        invariant
            len == s@.len(),
            i <= len,
            out@ == lower_seq(s@.take(i as int)),
        decreases len - i,
    {
        let c = s.get_char(i);
        let lc: char = if 'A' <= c && c <= 'Z' {
            ((c as u8) + 32) as char
        } else {
            c
        };
        push_char(&mut out, lc);
        proof {
            assert(s@.take(i + 1).drop_last() =~= s@.take(i as int));
            assert(s@.take(i + 1).last() == s@[i as int]);
            assert(lower_seq(s@.take(i + 1)) =~= lower_seq(s@.take(i as int)).push(lower_char(s@[i as int])));
        }
        i = i + 1;
    }
    proof {
        assert(s@.take(len as int) =~= s@);
    }
    out
}

/// Characters that percent-encoding leaves as they are.
pub open spec fn is_unreserved(c: char) -> bool {
    ('A' <= c && c <= 'Z') || ('a' <= c && c <= 'z') || ('0' <= c && c <= '9') || c == '-' || c
        == '.' || c == '_' || c == '~'
}

/// The uppercase hexadecimal digit for a value below 16.
pub open spec fn hex_char(d: u8) -> char
    recommends
        d < 16,
{
    if d < 10 {
        ((('0' as u8) + d) as u8) as char
    } else {
        ((('A' as u8) + (d - 10)) as u8) as char
    }
}

/// The UTF-8 encoding of a character, as its byte values.
pub open spec fn utf8_bytes(c: char) -> Seq<u8> {
    let u = c as u32;
    if u < 0x80 {
        seq![u as u8]
    } else if u < 0x800 {
        seq![(0xC0 + u / 64) as u8, (0x80 + u % 64) as u8]
    } else if u < 0x10000 {
        seq![(0xE0 + u / 4096) as u8, (0x80 + (u / 64) % 64) as u8, (0x80 + u % 64) as u8]
    } else {
        seq![
            (0xF0 + u / 262144) as u8,
            (0x80 + (u / 4096) % 64) as u8,
            (0x80 + (u / 64) % 64) as u8,
            (0x80 + u % 64) as u8,
        ]
    }
}

/// The `%XX` escape sequences for a run of bytes.
pub open spec fn escaped_bytes(bs: Seq<u8>) -> Seq<char>
    decreases bs.len(),
{
    if bs.len() == 0 {
        Seq::empty()
    } else {
        seq!['%', hex_char(bs.first() / 16), hex_char(bs.first() % 16)] + escaped_bytes(
            bs.drop_first(),
        )
    }
}

/// What one character contributes to a percent-encoded string: itself when
/// unreserved, the escapes of its UTF-8 bytes otherwise.
pub open spec fn encoded_char(c: char) -> Seq<char> {
    if is_unreserved(c) {
        seq![c]
    } else {
        escaped_bytes(utf8_bytes(c))
    }
}

/// The percent-encoded form of a character sequence.
pub open spec fn percent_encoding(s: Seq<char>) -> Seq<char>
    decreases s.len(),
{
    if s.len() == 0 {
        Seq::empty()
    } else {
        percent_encoding(s.drop_last()) + encoded_char(s.last())
    }
}

/// Appends the `%XX` escape of one byte.
fn push_escaped_byte(out: &mut String, b: u8)
    ensures
        final(out)@ == old(out)@ + seq!['%', hex_char(b / 16), hex_char(b % 16)],
{
    push_char(out, '%');
    let hi: u8 = b / 16;
    let lo: u8 = b % 16;
    let hc: char = if hi < 10 {
        (('0' as u8) + hi) as char
    } else {
        (('A' as u8) + (hi - 10)) as char
    };
    let lc: char = if lo < 10 {
        (('0' as u8) + lo) as char
    } else {
        (('A' as u8) + (lo - 10)) as char
    };
    push_char(out, hc);
    push_char(out, lc);
    proof {
        assert(out@ =~= old(out)@ + seq!['%', hex_char(b / 16), hex_char(b % 16)]);
    }
}

/// Appends the escapes of every UTF-8 byte of a non-unreserved character.
fn push_escaped_char(out: &mut String, c: char)
    ensures
        final(out)@ == old(out)@ + escaped_bytes(utf8_bytes(c)),
{
    let u = c as u32;
    if u < 0x80 {
        push_escaped_byte(out, u as u8);
        proof {
            let bs = utf8_bytes(c);
            assert(escaped_bytes(Seq::<u8>::empty()) == Seq::<char>::empty());
            assert(bs.drop_first() =~= Seq::<u8>::empty());
            assert(escaped_bytes(bs) == seq!['%', hex_char(bs.first() / 16), hex_char(bs.first() % 16)] + escaped_bytes(bs.drop_first()));
            assert(out@ =~= old(out)@ + escaped_bytes(bs));
        }
    } else if u < 0x800 {
        let b0: u8 = (0xC0 + u / 64) as u8;
        let b1: u8 = (0x80 + u % 64) as u8;
        push_escaped_byte(out, b0);
        push_escaped_byte(out, b1);
        proof {
            let bs = utf8_bytes(c);
            assert(escaped_bytes(Seq::<u8>::empty()) == Seq::<char>::empty());
            assert(bs.drop_first().first() == b1);
            assert(bs.drop_first().drop_first() =~= Seq::<u8>::empty());
            assert(escaped_bytes(bs.drop_first()) == seq!['%', hex_char(b1 / 16), hex_char(b1 % 16)] + escaped_bytes(bs.drop_first().drop_first()));
            assert(escaped_bytes(bs) == seq!['%', hex_char(b0 / 16), hex_char(b0 % 16)] + escaped_bytes(bs.drop_first()));
            assert(out@ =~= old(out)@ + escaped_bytes(bs));
        }
    } else if u < 0x10000 {
        let b0: u8 = (0xE0 + u / 4096) as u8;
        let b1: u8 = (0x80 + (u / 64) % 64) as u8;
        let b2: u8 = (0x80 + u % 64) as u8;
        push_escaped_byte(out, b0);
        push_escaped_byte(out, b1);
        push_escaped_byte(out, b2);
        proof {
            let bs = utf8_bytes(c);
            assert(escaped_bytes(Seq::<u8>::empty()) == Seq::<char>::empty());
            assert(bs.drop_first().first() == b1);
            assert(bs.drop_first().drop_first().first() == b2);
            assert(bs.drop_first().drop_first().drop_first() =~= Seq::<u8>::empty());
            assert(escaped_bytes(bs.drop_first().drop_first()) == seq!['%', hex_char(b2 / 16), hex_char(b2 % 16)] + escaped_bytes(bs.drop_first().drop_first().drop_first()));
            assert(escaped_bytes(bs.drop_first()) == seq!['%', hex_char(b1 / 16), hex_char(b1 % 16)] + escaped_bytes(bs.drop_first().drop_first()));
            assert(escaped_bytes(bs) == seq!['%', hex_char(b0 / 16), hex_char(b0 % 16)] + escaped_bytes(bs.drop_first()));
            assert(out@ =~= old(out)@ + escaped_bytes(bs));
        }
    } else {
        let b0: u8 = (0xF0 + u / 262144) as u8;
        let b1: u8 = (0x80 + (u / 4096) % 64) as u8;
        let b2: u8 = (0x80 + (u / 64) % 64) as u8;
        let b3: u8 = (0x80 + u % 64) as u8;
        push_escaped_byte(out, b0);
        push_escaped_byte(out, b1);
        push_escaped_byte(out, b2);
        push_escaped_byte(out, b3);
        proof {
            let bs = utf8_bytes(c);
            assert(escaped_bytes(Seq::<u8>::empty()) == Seq::<char>::empty());
            assert(bs.drop_first().first() == b1);
            assert(bs.drop_first().drop_first().first() == b2);
            assert(bs.drop_first().drop_first().drop_first().first() == b3);
            assert(bs.drop_first().drop_first().drop_first().drop_first() =~= Seq::<u8>::empty());
            assert(escaped_bytes(bs.drop_first().drop_first().drop_first()) == seq!['%', hex_char(b3 / 16), hex_char(b3 % 16)] + escaped_bytes(bs.drop_first().drop_first().drop_first().drop_first()));
            assert(escaped_bytes(bs.drop_first().drop_first()) == seq!['%', hex_char(b2 / 16), hex_char(b2 % 16)] + escaped_bytes(bs.drop_first().drop_first().drop_first()));
            assert(escaped_bytes(bs.drop_first()) == seq!['%', hex_char(b1 / 16), hex_char(b1 % 16)] + escaped_bytes(bs.drop_first().drop_first()));
            assert(escaped_bytes(bs) == seq!['%', hex_char(b0 / 16), hex_char(b0 % 16)] + escaped_bytes(bs.drop_first()));
            assert(out@ =~= old(out)@ + escaped_bytes(bs));
        }
    }
}

/// Percent-encodes a string for use as a URL query-parameter value.
pub fn percent_encode(s: &str) -> (r: String)
    ensures
        r@ == percent_encoding(s@),
{
    let len = s.unicode_len();
    let mut out = String::new();
    let mut i: usize = 0;
    while i < len
        invariant
            len == s@.len(),
            i <= len,
            out@ == percent_encoding(s@.take(i as int)),
        decreases len - i,
    {
        let c = s.get_char(i);
        if ('A' <= c && c <= 'Z') || ('a' <= c && c <= 'z') || ('0' <= c && c <= '9') || c == '-'
            || c == '.' || c == '_' || c == '~' {
            push_char(&mut out, c);
        } else {
            push_escaped_char(&mut out, c);
        }
        proof {
            assert(s@.take(i + 1).drop_last() =~= s@.take(i as int));
            assert(s@.take(i + 1).last() == s@[i as int]);
        }
        i = i + 1;
    }
    proof {
        assert(s@.take(len as int) =~= s@);
    }
    out
}

/// The scope identifiers of a flow, joined by single spaces.
pub open spec fn space_joined(xs: Seq<Seq<char>>) -> Seq<char>
    decreases xs.len(),
{
    if xs.len() == 0 {
        Seq::empty()
    } else if xs.len() == 1 {
        xs.first()
    } else {
        space_joined(xs.drop_last()) + seq![' '] + xs.last()
    }
}

/// The views of a list of strings.
pub open spec fn seq_views(xs: Seq<String>) -> Seq<Seq<char>> {
    xs.map_values(|x: String| x@)
}

/// Joins scope identifiers with single spaces, as the authorization request
/// carries them.
pub fn join_scopes(scopes: &Vec<String>) -> (r: String)
    ensures
        r@ == space_joined(seq_views(scopes@)),
{
    let mut out = String::new();
    let mut i: usize = 0;
    while i < scopes.len()
        invariant
            i <= scopes@.len(),
            out@ == space_joined(seq_views(scopes@).take(i as int)),
        decreases scopes@.len() - i,
    {
        if i > 0 {
            push_char(&mut out, ' ');
        }
        out.append(scopes[i].as_str());
        proof {
            let vs = seq_views(scopes@);
            assert(vs.take(i + 1).drop_last() =~= vs.take(i as int));
            assert(vs.take(i + 1).last() == scopes@[i as int]@);
            if i > 0 {
                assert(vs.take(i + 1).len() > 1);
            } else {
                assert(vs.take(i + 1) =~= seq![scopes@[0]@]);
            }
        }
        i = i + 1;
    }
    proof {
        assert(seq_views(scopes@).take(scopes@.len() as int) =~= seq_views(scopes@));
    }
    out
}

} // verus!

//! The wire codec for status records: a structured-text document with
//! named, independently-optional fields (a JSON object).  Serialization
//! emits the present fields in a fixed order; parsing accepts the fields
//! in any order, ignores unknown fields, and fails on malformed structure.
//! The two are exact inverses: see `lemma_round_trip`.

use vstd::prelude::*;
use crate::chars::chars_to_string;
use crate::record::{MediaType, UserData, UserDataV, empty_record};

verus! {

/// Malformed record payload: the document is not a well-formed object of
/// this codec's grammar.
#[derive(Clone, Copy, PartialEq, Eq, Structural, Debug)]
pub struct ParseError;

// ---------------------------------------------------------------------------
// Serialization, at the spec level.
// ---------------------------------------------------------------------------

/// The hexadecimal digit for a value below sixteen.
pub open spec fn hex_digit(n: int) -> char {
    if n < 10 {
        ((48 + n) as u32) as char
    } else {
        ((87 + n) as u32) as char
    }
}

/// How one character is written inside a quoted string: quotes,
/// backslashes and the common control characters take their short
/// escapes, any other control character a `\u00XX` escape, and
/// everything else stands for itself.
pub open spec fn esc_char(c: char) -> Seq<char> {
    if c == '"' {
        seq!['\\', '"']
    } else if c == '\\' {
        seq!['\\', '\\']
    } else if c == '\n' {
        seq!['\\', 'n']
    } else if c == '\t' {
        seq!['\\', 't']
    } else if c == '\r' {
        seq!['\\', 'r']
    } else if (c as u32) < 0x20 {
        seq!['\\', 'u', '0', '0', hex_digit((c as u32) as int / 16), hex_digit((c as u32) as int % 16)]
    } else {
        seq![c]
    }
}

/// The escaped form of a whole string.
pub open spec fn esc(s: Seq<char>) -> Seq<char>
    decreases s.len(),
{
    if s.len() == 0 {
        Seq::empty()
    } else {
        esc_char(s[0]) + esc(s.skip(1))
    }
}

/// A quoted, escaped string value.
pub open spec fn ser_string(s: Seq<char>) -> Seq<char> {
    seq!['"'] + esc(s) + seq!['"']
}

/// The name under which each media kind is written.
pub open spec fn media_type_name(m: MediaType) -> Seq<char> {
    match m {
        MediaType::Unspecified => "Unspecified"@,
        MediaType::Text => "Text"@,
        MediaType::Movie => "Movie"@,
        MediaType::TVShow => "TVShow"@,
        MediaType::Music => "Music"@,
        MediaType::Speech => "Speech"@,
        MediaType::Game => "Game"@,
    }
}

/// The serialized avatar value: an object with the single member
/// `original`.
pub open spec fn avatar_value(a: Seq<char>) -> Seq<char> {
    seq!['{'] + ser_string("original"@) + seq![':'] + ser_string(a) + seq!['}']
}

/// Whether field number `k` (in serialization order: avatar, name,
/// status, emoji, media, mediaType) is present in `v`.
pub open spec fn field_present(v: UserDataV, k: int) -> bool {
    if k == 0 {
        v.avatar is Some
    } else if k == 1 {
        v.name is Some
    } else if k == 2 {
        v.status is Some
    } else if k == 3 {
        v.emoji is Some
    } else if k == 4 {
        v.media is Some
    } else {
        v.media_type is Some
    }
}

/// Whether any field numbered `k` or above is present.
pub open spec fn any_present(v: UserDataV, k: int) -> bool
    decreases 6 - k,
{
    if k >= 6 {
        false
    } else {
        field_present(v, k) || any_present(v, k + 1)
    }
}

/// The text of member number `k`, defined when that field is present.
pub open spec fn member_text(v: UserDataV, k: int) -> Seq<char> {
    if k == 0 {
        ser_string("avatar"@) + seq![':'] + avatar_value(v.avatar->0)
    } else if k == 1 {
        ser_string("name"@) + seq![':'] + ser_string(v.name->0)
    } else if k == 2 {
        ser_string("status"@) + seq![':'] + ser_string(v.status->0)
    } else if k == 3 {
        ser_string("emoji"@) + seq![':'] + ser_string(seq![v.emoji->0])
    } else if k == 4 {
        ser_string("media"@) + seq![':'] + ser_string(v.media->0)
    } else {
        ser_string("mediaType"@) + seq![':'] + ser_string(media_type_name(v.media_type->0))
    }
}

/// The serialized members numbered `k` and above, followed by the closing
/// brace.  `first` records whether no member has been written yet, so
/// that a comma is put before every member but the first.
pub open spec fn ser_from(v: UserDataV, k: int, first: bool) -> Seq<char>
    decreases 6 - k,
{
    if k >= 6 {
        seq!['}']
    } else if !field_present(v, k) {
        ser_from(v, k + 1, first)
    } else if first {
        member_text(v, k) + ser_from(v, k + 1, false)
    } else {
        seq![','] + member_text(v, k) + ser_from(v, k + 1, false)
    }
}

/// The full serialized record: present fields in order, absent fields
/// omitted.
pub open spec fn spec_serialize(v: UserDataV) -> Seq<char> {
    seq!['{'] + ser_from(v, 0, true)
}

// ---------------------------------------------------------------------------
// The executable serializer.
// ---------------------------------------------------------------------------

/// Escaping one more character extends the escaped text by that
/// character's escape.
proof fn lemma_esc_snoc(t: Seq<char>, c: char)
    ensures
        esc(t.push(c)) == esc(t) + esc_char(c),
    decreases t.len(),
{
    if t.len() == 0 {
        assert(t.push(c)[0] == c);
        assert(t.push(c).skip(1) =~= Seq::<char>::empty());
        assert(esc(t.push(c)) == esc_char(c) + esc(Seq::<char>::empty()));
        assert(esc(t.push(c)) =~= esc(t) + esc_char(c));
    } else {
        assert(t.push(c).skip(1) =~= t.skip(1).push(c));
        lemma_esc_snoc(t.skip(1), c);
        assert(esc(t.push(c)) =~= esc(t) + esc_char(c));
    }
}

/// The hexadecimal digit for a value below sixteen.
fn hex_digit_char(n: u32) -> (r: char)
    requires
        n < 16,
    ensures
        r == hex_digit(n as int),
{
    if n < 10 {
        proof {
            assert(((48 + n) as u8) as char == ((48 + n) as u32) as char);
        }
        (48 + n as u8) as char
    } else {
        proof {
            assert(((87 + n) as u8) as char == ((87 + n) as u32) as char);
        }
        (87 + n as u8) as char
    }
}

/// Append one character's escaped form.
fn push_char_escaped(out: &mut Vec<char>, c: char)
    ensures
        final(out)@ == old(out)@ + esc_char(c),
{
    if c == '"' {
        out.push('\\');
        out.push('"');
    } else if c == '\\' {
        out.push('\\');
        out.push('\\');
    } else if c == '\n' {
        out.push('\\');
        out.push('n');
    } else if c == '\t' {
        out.push('\\');
        out.push('t');
    } else if c == '\r' {
        out.push('\\');
        out.push('r');
    } else {
        let u = c as u32;
        if u < 0x20 {
            out.push('\\');
            out.push('u');
            out.push('0');
            out.push('0');
            out.push(hex_digit_char(u / 16));
            out.push(hex_digit_char(u % 16));
        } else {
            out.push(c);
        }
    }
    assert(out@ =~= old(out)@ + esc_char(c));
}

/// Append a quoted, escaped string value.
fn push_str_escaped(out: &mut Vec<char>, s: &str)
    ensures
        final(out)@ == old(out)@ + ser_string(s@),
{
    out.push('"');
    let len = s.unicode_len();
    let mut i: usize = 0;
    while i < len
        invariant
            len == s@.len(),
            0 <= i <= len,
            out@ == old(out)@ + seq!['"'] + esc(s@.take(i as int)),
        decreases len - i,
    {
        let c = s.get_char(i);
        push_char_escaped(out, c);
        proof {
            assert(s@.take(i + 1 as int) =~= s@.take(i as int).push(s@[i as int]));
            lemma_esc_snoc(s@.take(i as int), s@[i as int]);
        }
        i = i + 1;
    }
    out.push('"');
    proof {
        assert(s@.take(len as int) =~= s@);
        assert(out@ =~= old(out)@ + ser_string(s@));
    }
}

/// Append `,` unless the member is the first, then a `key:"value"`
/// member with both parts quoted and escaped.
fn push_kv(out: &mut Vec<char>, comma: bool, key: &str, val: &str)
    ensures
        final(out)@ == old(out)@ + (if comma {
            seq![',']
        } else {
            Seq::<char>::empty()
        }) + (ser_string(key@) + seq![':'] + ser_string(val@)),
{
    if comma {
        out.push(',');
    }
    let ghost mid = out@;
    push_str_escaped(out, key);
    out.push(':');
    push_str_escaped(out, val);
    proof {
        assert(out@ =~= mid + (ser_string(key@) + seq![':'] + ser_string(val@)));
        assert(out@ =~= old(out)@ + (if comma {
            seq![',']
        } else {
            Seq::<char>::empty()
        }) + (ser_string(key@) + seq![':'] + ser_string(val@)));
    }
}

/// Append a member whose value is a one-character string.
fn push_kv_char(out: &mut Vec<char>, comma: bool, key: &str, c: char)
    ensures
        final(out)@ == old(out)@ + (if comma {
            seq![',']
        } else {
            Seq::<char>::empty()
        }) + (ser_string(key@) + seq![':'] + ser_string(seq![c])),
{
    if comma {
        out.push(',');
    }
    let ghost mid = out@;
    push_str_escaped(out, key);
    out.push(':');
    out.push('"');
    push_char_escaped(out, c);
    out.push('"');
    proof {
        assert(seq![c][0] == c);
        assert(seq![c].skip(1) =~= Seq::<char>::empty());
        assert(esc(seq![c]) == esc_char(c) + esc(Seq::<char>::empty()));
        assert(esc(seq![c]) =~= esc_char(c));
        assert(out@ =~= mid + (ser_string(key@) + seq![':'] + ser_string(seq![c])));
        assert(out@ =~= old(out)@ + (if comma {
            seq![',']
        } else {
            Seq::<char>::empty()
        }) + (ser_string(key@) + seq![':'] + ser_string(seq![c])));
    }
}

/// Append the avatar member: its value is an object holding the single
/// member `original`.
fn push_kv_avatar(out: &mut Vec<char>, comma: bool, orig: &str)
    ensures
        final(out)@ == old(out)@ + (if comma {
            seq![',']
        } else {
            Seq::<char>::empty()
        }) + (ser_string("avatar"@) + seq![':'] + avatar_value(orig@)),
{
    if comma {
        out.push(',');
    }
    let ghost mid = out@;
    push_str_escaped(out, "avatar");
    out.push(':');
    out.push('{');
    push_str_escaped(out, "original");
    out.push(':');
    push_str_escaped(out, orig);
    out.push('}');
    proof {
        assert(out@ =~= mid + (ser_string("avatar"@) + seq![':'] + avatar_value(orig@)));
        assert(out@ =~= old(out)@ + (if comma {
            seq![',']
        } else {
            Seq::<char>::empty()
        }) + (ser_string("avatar"@) + seq![':'] + avatar_value(orig@)));
    }
}

/// One serialization step: writing member `k` (with its comma when it is
/// not the first) advances the serializer from state `k` to state `k + 1`.
proof fn lemma_ser_step(v: UserDataV, k: int, first: bool, out0: Seq<char>, out1: Seq<char>, target: Seq<char>)
    requires
        0 <= k < 6,
        field_present(v, k),
        out0 + ser_from(v, k, first) == target,
        out1 == out0 + (if first {
            Seq::<char>::empty()
        } else {
            seq![',']
        }) + member_text(v, k),
    ensures
        out1 + ser_from(v, k + 1, false) == target,
{
    if first {
        assert(out1 + ser_from(v, k + 1, false) =~= out0 + ser_from(v, k, first));
    } else {
        assert(out1 + ser_from(v, k + 1, false) =~= out0 + ser_from(v, k, first));
    }
}

/// The fixed name for a media kind.
fn media_type_str(m: MediaType) -> (r: &'static str)
    ensures
        r@ == media_type_name(m),
{
    match m {
        MediaType::Unspecified => "Unspecified",
        MediaType::Text => "Text",
        MediaType::Movie => "Movie",
        MediaType::TVShow => "TVShow",
        MediaType::Music => "Music",
        MediaType::Speech => "Speech",
        MediaType::Game => "Game",
    }
}

impl UserData {
    /// Serialize this record: present fields in a fixed order, absent
    /// fields omitted, so that absence and present-but-empty values stay
    /// distinguishable.  The exact inverse of `parse` (see
    /// `lemma_round_trip`).
    #[verifier::rlimit(100)]
    #[verifier::spinoff_prover]
    pub fn serialize(&self) -> (r: String)
        ensures
            r@ == spec_serialize(self@),
    {
        let ghost v = self@;
        let ghost target = seq!['{'] + ser_from(v, 0, true);
        let mut out: Vec<char> = Vec::new();
        out.push('{');
        let mut first = true;
        assert(out@ + ser_from(v, 0, true) =~= target);
        if let Some(a) = &self.avatar {
            let ghost out0 = out@;
            push_kv_avatar(&mut out, !first, a.original.as_str());
            proof {
                assert(out@ == out0 + (if first {
                    Seq::<char>::empty()
                } else {
                    seq![',']
                }) + member_text(v, 0));
                lemma_ser_step(v, 0, first, out0, out@, target);
            }
            first = false;
        }
        assert(out@ + ser_from(v, 1, first) == target);
        if let Some(s) = &self.name {
            let ghost out0 = out@;
            push_kv(&mut out, !first, "name", s.as_str());
            proof {
                assert(out@ == out0 + (if first {
                    Seq::<char>::empty()
                } else {
                    seq![',']
                }) + member_text(v, 1));
                lemma_ser_step(v, 1, first, out0, out@, target);
            }
            first = false;
        }
        assert(out@ + ser_from(v, 2, first) == target);
        if let Some(s) = &self.status {
            let ghost out0 = out@;
            push_kv(&mut out, !first, "status", s.as_str());
            proof {
                assert(out@ == out0 + (if first {
                    Seq::<char>::empty()
                } else {
                    seq![',']
                }) + member_text(v, 2));
                lemma_ser_step(v, 2, first, out0, out@, target);
            }
            first = false;
        }
        assert(out@ + ser_from(v, 3, first) == target);
        if let Some(c) = self.emoji {
            let ghost out0 = out@;
            push_kv_char(&mut out, !first, "emoji", c);
            proof {
                assert(out@ == out0 + (if first {
                    Seq::<char>::empty()
                } else {
                    seq![',']
                }) + member_text(v, 3));
                lemma_ser_step(v, 3, first, out0, out@, target);
            }
            first = false;
        }
        assert(out@ + ser_from(v, 4, first) == target);
        if let Some(s) = &self.media {
            let ghost out0 = out@;
            push_kv(&mut out, !first, "media", s.as_str());
            proof {
                assert(out@ == out0 + (if first {
                    Seq::<char>::empty()
                } else {
                    seq![',']
                }) + member_text(v, 4));
                lemma_ser_step(v, 4, first, out0, out@, target);
            }
            first = false;
        }
        assert(out@ + ser_from(v, 5, first) == target);
        if let Some(m) = self.media_type {
            let ghost out0 = out@;
            push_kv(&mut out, !first, "mediaType", media_type_str(m));
            proof {
                assert(out@ == out0 + (if first {
                    Seq::<char>::empty()
                } else {
                    seq![',']
                }) + member_text(v, 5));
                lemma_ser_step(v, 5, first, out0, out@, target);
            }
            first = false;
        }
        assert(out@ + ser_from(v, 6, first) == target);
        out.push('}');
        proof {
            assert(out@ =~= target);
        }
        chars_to_string(&out)
    }
}

} // verus!

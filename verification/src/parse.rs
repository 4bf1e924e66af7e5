//! The record parser: a recursive-descent reader for the codec's
//! structured-text form.  The grammar is standard JSON restricted to the
//! record's shape: whitespace is allowed between tokens, known members
//! may come in any order and a member written twice takes its last
//! value, a known member may be `null` (meaning the field is absent),
//! unknown members are skipped for forward compatibility, and string
//! values take the usual escapes including `\uXXXX` with surrogate
//! pairs.  Malformed structure is an error.

use vstd::prelude::*;
use crate::chars::{chars_of_str, chars_to_string};
use crate::codec::ParseError;
use crate::record::{Avatar, MediaType, UserData, UserDataV, empty_record};

verus! {

/// A JSON whitespace character.
pub open spec fn json_ws(c: char) -> bool {
    c == ' ' || c == '\t' || c == '\n' || c == '\r'
}

/// The first non-whitespace position at or after `i`.
pub open spec fn skip_ws(s: Seq<char>, i: int) -> int
    decreases s.len() - i,
{
    if i < 0 || i >= s.len() {
        i
    } else if json_ws(s[i]) {
        skip_ws(s, i + 1)
    } else {
        i
    }
}

/// Whether `c` is a hexadecimal digit.
pub open spec fn is_hex_digit(c: char) -> bool {
    (48 <= c as u32 && c as u32 <= 57) || (97 <= c as u32 && c as u32 <= 102) || (65 <= c as u32
        && c as u32 <= 70)
}

/// The value of a hexadecimal digit.
pub open spec fn hex_val(c: char) -> int {
    if 48 <= c as u32 && c as u32 <= 57 {
        c as u32 - 48
    } else if 97 <= c as u32 && c as u32 <= 102 {
        c as u32 - 87
    } else {
        c as u32 - 55
    }
}

/// Whether four hexadecimal digits stand at `i`.
pub open spec fn hex4_ok(s: Seq<char>, i: int) -> bool {
    &&& 0 <= i
    &&& i + 4 <= s.len()
    &&& is_hex_digit(s[i])
    &&& is_hex_digit(s[i + 1])
    &&& is_hex_digit(s[i + 2])
    &&& is_hex_digit(s[i + 3])
}

/// The value of the four hexadecimal digits at `i`.
pub open spec fn hex4(s: Seq<char>, i: int) -> int {
    hex_val(s[i]) * 0x1000 + hex_val(s[i + 1]) * 0x100 + hex_val(s[i + 2]) * 16 + hex_val(
        s[i + 3],
    )
}

/// The character a single-letter escape code stands for.
pub open spec fn unesc_char(c: char) -> Option<char> {
    if c == '"' {
        Some('"')
    } else if c == '\\' {
        Some('\\')
    } else if c == '/' {
        Some('/')
    } else if c == 'n' {
        Some('\n')
    } else if c == 't' {
        Some('\t')
    } else if c == 'r' {
        Some('\r')
    } else {
        None
    }
}

/// Parse the body of a quoted string from just after the opening quote:
/// the decoded text, and the position just past the closing quote.
/// `\uXXXX` escapes decode a basic-plane character, or an astral one
/// through a surrogate pair; a lone or misordered surrogate is an error.
pub open spec fn sp_str_body(s: Seq<char>, i: int) -> Option<(Seq<char>, int)>
    decreases s.len() - i,
{
    if i < 0 || i >= s.len() {
        None
    } else if s[i] == '"' {
        Some((Seq::empty(), i + 1))
    } else if s[i] == '\\' {
        if i + 1 < s.len() && s[i + 1] == 'u' {
            if hex4_ok(s, i + 2) {
                let h = hex4(s, i + 2);
                if h < 0xD800 || h > 0xDFFF {
                    match sp_str_body(s, i + 6) {
                        Some(p) => Some((seq![((h as u32) as char)] + p.0, p.1)),
                        None => None,
                    }
                } else if h <= 0xDBFF {
                    if i + 8 <= s.len() && s[i + 6] == '\\' && s[i + 7] == 'u' && hex4_ok(
                        s,
                        i + 8,
                    ) {
                        let l = hex4(s, i + 8);
                        if 0xDC00 <= l && l <= 0xDFFF {
                            let code = 0x10000 + (h - 0xD800) * 0x400 + (l - 0xDC00);
                            match sp_str_body(s, i + 12) {
                                Some(p) => Some((seq![((code as u32) as char)] + p.0, p.1)),
                                None => None,
                            }
                        } else {
                            None
                        }
                    } else {
                        None
                    }
                } else {
                    None
                }
            } else {
                None
            }
        } else if i + 1 < s.len() {
            match unesc_char(s[i + 1]) {
                Some(c) => match sp_str_body(s, i + 2) {
                    Some(p) => Some((seq![c] + p.0, p.1)),
                    None => None,
                },
                None => None,
            }
        } else {
            None
        }
    } else {
        match sp_str_body(s, i + 1) {
            Some(p) => Some((seq![s[i]] + p.0, p.1)),
            None => None,
        }
    }
}

/// Parse a quoted string value at `i`.
pub open spec fn sp_string(s: Seq<char>, i: int) -> Option<(Seq<char>, int)> {
    if 0 <= i && i < s.len() && s[i] == '"' {
        sp_str_body(s, i + 1)
    } else {
        None
    }
}

/// Whether the literal `null` stands at `i`.
pub open spec fn is_null_at(s: Seq<char>, i: int) -> bool {
    &&& 0 <= i
    &&& i + 4 <= s.len()
    &&& s[i] == 'n'
    &&& s[i + 1] == 'u'
    &&& s[i + 2] == 'l'
    &&& s[i + 3] == 'l'
}

/// Skip a bare token (number, boolean, null or similar): everything up
/// to the next delimiter or whitespace.
pub open spec fn sp_skip_prim(s: Seq<char>, i: int) -> int
    decreases s.len() - i,
{
    if i < 0 || i >= s.len() {
        i
    } else if s[i] == ',' || s[i] == '}' || s[i] == ']' || json_ws(s[i]) {
        i
    } else {
        sp_skip_prim(s, i + 1)
    }
}

/// Skip one value of an unknown member: consumed structurally, not
/// interpreted.
pub open spec fn sp_skip_value(s: Seq<char>, i: int) -> Option<int>
    decreases s.len() - i, 0int,
{
    if i < 0 || i >= s.len() {
        None
    } else if s[i] == '"' {
        match sp_string(s, i) {
            Some(p) => Some(p.1),
            None => None,
        }
    } else if s[i] == '{' {
        let m0 = skip_ws(s, i + 1);
        if i + 1 <= m0 && m0 <= s.len() {
            sp_skip_members(s, m0)
        } else {
            None
        }
    } else if s[i] == '[' {
        let m0 = skip_ws(s, i + 1);
        if i + 1 <= m0 && m0 <= s.len() {
            sp_skip_elems(s, m0)
        } else {
            None
        }
    } else if s[i] == ',' || s[i] == '}' || s[i] == ']' || s[i] == ':' || json_ws(s[i]) {
        None
    } else {
        Some(sp_skip_prim(s, i + 1))
    }
}

/// Skip the members of a skipped object, from its first key (or closing
/// brace) to just past its closing brace.
pub open spec fn sp_skip_members(s: Seq<char>, i: int) -> Option<int>
    decreases s.len() - i, 1int,
{
    if i < 0 || i >= s.len() {
        None
    } else if s[i] == '}' {
        Some(i + 1)
    } else {
        match sp_string(s, i) {
            Some(p) => if i < p.1 {
                let j2 = skip_ws(s, p.1);
                if p.1 <= j2 && j2 < s.len() && s[j2] == ':' {
                    let v0 = skip_ws(s, j2 + 1);
                    if j2 + 1 <= v0 && v0 <= s.len() {
                        match sp_skip_value(s, v0) {
                            Some(j) => if v0 < j && j <= s.len() {
                                let d = skip_ws(s, j);
                                if j <= d && d < s.len() {
                                    if s[d] == ',' {
                                        let n = skip_ws(s, d + 1);
                                        if d + 1 <= n && n <= s.len() && i < n {
                                            sp_skip_members(s, n)
                                        } else {
                                            None
                                        }
                                    } else if s[d] == '}' {
                                        Some(d + 1)
                                    } else {
                                        None
                                    }
                                } else {
                                    None
                                }
                            } else {
                                None
                            },
                            None => None,
                        }
                    } else {
                        None
                    }
                } else {
                    None
                }
            } else {
                None
            },
            None => None,
        }
    }
}

/// Skip the elements of a skipped array, from its first element (or
/// closing bracket) to just past its closing bracket.
pub open spec fn sp_skip_elems(s: Seq<char>, i: int) -> Option<int>
    decreases s.len() - i, 1int,
{
    if i < 0 || i >= s.len() {
        None
    } else if s[i] == ']' {
        Some(i + 1)
    } else {
        match sp_skip_value(s, i) {
            Some(j) => if i < j && j <= s.len() {
                let d = skip_ws(s, j);
                if j <= d && d < s.len() {
                    if s[d] == ',' {
                        let n = skip_ws(s, d + 1);
                        if d + 1 <= n && n <= s.len() && i < n {
                            sp_skip_elems(s, n)
                        } else {
                            None
                        }
                    } else if s[d] == ']' {
                        Some(d + 1)
                    } else {
                        None
                    }
                } else {
                    None
                }
            } else {
                None
            },
            None => None,
        }
    }
}

/// The media kind a name stands for.
pub open spec fn media_type_of(t: Seq<char>) -> Option<MediaType> {
    if t == "Unspecified"@ {
        Some(MediaType::Unspecified)
    } else if t == "Text"@ {
        Some(MediaType::Text)
    } else if t == "Movie"@ {
        Some(MediaType::Movie)
    } else if t == "TVShow"@ {
        Some(MediaType::TVShow)
    } else if t == "Music"@ {
        Some(MediaType::Music)
    } else if t == "Speech"@ {
        Some(MediaType::Speech)
    } else if t == "Game"@ {
        Some(MediaType::Game)
    } else {
        None
    }
}

/// Parse an avatar value: an object with exactly the member `original`.
pub open spec fn sp_avatar(s: Seq<char>, i: int) -> Option<(Seq<char>, int)> {
    if 0 <= i && i < s.len() && s[i] == '{' {
        let k0 = skip_ws(s, i + 1);
        if i + 1 <= k0 && k0 <= s.len() {
            match sp_string(s, k0) {
                Some(k) => if k.0 == "original"@ && k0 < k.1 {
                    let j2 = skip_ws(s, k.1);
                    if k.1 <= j2 && j2 < s.len() && s[j2] == ':' {
                        let v0 = skip_ws(s, j2 + 1);
                        if j2 + 1 <= v0 && v0 <= s.len() {
                            match sp_string(s, v0) {
                                Some(t) => if v0 < t.1 {
                                    let e = skip_ws(s, t.1);
                                    if t.1 <= e && e < s.len() && s[e] == '}' {
                                        Some((t.0, e + 1))
                                    } else {
                                        None
                                    }
                                } else {
                                    None
                                },
                                None => None,
                            }
                        } else {
                            None
                        }
                    } else {
                        None
                    }
                } else {
                    None
                },
                None => None,
            }
        } else {
            None
        }
    } else {
        None
    }
}

/// The record `acc` with field number `k` (in serialization order)
/// replaced by that field of `v`.
pub open spec fn set_field(acc: UserDataV, v: UserDataV, k: int) -> UserDataV {
    UserDataV {
        avatar: if k == 0 {
            v.avatar
        } else {
            acc.avatar
        },
        name: if k == 1 {
            v.name
        } else {
            acc.name
        },
        status: if k == 2 {
            v.status
        } else {
            acc.status
        },
        emoji: if k == 3 {
            v.emoji
        } else {
            acc.emoji
        },
        media: if k == 4 {
            v.media
        } else {
            acc.media
        },
        media_type: if k == 5 {
            v.media_type
        } else {
            acc.media_type
        },
    }
}

/// The record `acc` with field number `k` made absent.
pub open spec fn clear_field(acc: UserDataV, k: int) -> UserDataV {
    UserDataV {
        avatar: if k == 0 {
            None
        } else {
            acc.avatar
        },
        name: if k == 1 {
            None
        } else {
            acc.name
        },
        status: if k == 2 {
            None
        } else {
            acc.status
        },
        emoji: if k == 3 {
            None
        } else {
            acc.emoji
        },
        media: if k == 4 {
            None
        } else {
            acc.media
        },
        media_type: if k == 5 {
            None
        } else {
            acc.media_type
        },
    }
}

/// Parse the value of the member named `key` and record it in `acc`.  A
/// known member may be `null`, which makes the field absent.
pub open spec fn sp_member_value(s: Seq<char>, i: int, acc: UserDataV, key: Seq<char>) -> Option<
    (UserDataV, int),
> {
    if key == "avatar"@ {
        if is_null_at(s, i) {
            Some((clear_field(acc, 0), i + 4))
        } else {
            match sp_avatar(s, i) {
                Some(p) => Some(
                    (
                        UserDataV {
                            avatar: Some(p.0),
                            name: acc.name,
                            status: acc.status,
                            emoji: acc.emoji,
                            media: acc.media,
                            media_type: acc.media_type,
                        },
                        p.1,
                    ),
                ),
                None => None,
            }
        }
    } else if key == "name"@ {
        if is_null_at(s, i) {
            Some((clear_field(acc, 1), i + 4))
        } else {
            match sp_string(s, i) {
                Some(p) => Some(
                    (
                        UserDataV {
                            avatar: acc.avatar,
                            name: Some(p.0),
                            status: acc.status,
                            emoji: acc.emoji,
                            media: acc.media,
                            media_type: acc.media_type,
                        },
                        p.1,
                    ),
                ),
                None => None,
            }
        }
    } else if key == "status"@ {
        if is_null_at(s, i) {
            Some((clear_field(acc, 2), i + 4))
        } else {
            match sp_string(s, i) {
                Some(p) => Some(
                    (
                        UserDataV {
                            avatar: acc.avatar,
                            name: acc.name,
                            status: Some(p.0),
                            emoji: acc.emoji,
                            media: acc.media,
                            media_type: acc.media_type,
                        },
                        p.1,
                    ),
                ),
                None => None,
            }
        }
    } else if key == "emoji"@ {
        if is_null_at(s, i) {
            Some((clear_field(acc, 3), i + 4))
        } else {
            match sp_string(s, i) {
                Some(p) => if p.0.len() == 1 {
                    Some(
                        (
                            UserDataV {
                                avatar: acc.avatar,
                                name: acc.name,
                                status: acc.status,
                                emoji: Some(p.0[0]),
                                media: acc.media,
                                media_type: acc.media_type,
                            },
                            p.1,
                        ),
                    )
                } else {
                    None
                },
                None => None,
            }
        }
    } else if key == "media"@ {
        if is_null_at(s, i) {
            Some((clear_field(acc, 4), i + 4))
        } else {
            match sp_string(s, i) {
                Some(p) => Some(
                    (
                        UserDataV {
                            avatar: acc.avatar,
                            name: acc.name,
                            status: acc.status,
                            emoji: acc.emoji,
                            media: Some(p.0),
                            media_type: acc.media_type,
                        },
                        p.1,
                    ),
                ),
                None => None,
            }
        }
    } else if key == "mediaType"@ {
        if is_null_at(s, i) {
            Some((clear_field(acc, 5), i + 4))
        } else {
            match sp_string(s, i) {
                Some(p) => match media_type_of(p.0) {
                    Some(m) => Some(
                        (
                            UserDataV {
                                avatar: acc.avatar,
                                name: acc.name,
                                status: acc.status,
                                emoji: acc.emoji,
                                media: acc.media,
                                media_type: Some(m),
                            },
                            p.1,
                        ),
                    ),
                    None => None,
                },
                None => None,
            }
        }
    } else {
        match sp_skip_value(s, i) {
            Some(j) => Some((acc, j)),
            None => None,
        }
    }
}

/// Parse a member list starting at a key, then continue with `sp_after`.
pub open spec fn sp_members(s: Seq<char>, i: int, acc: UserDataV) -> Option<UserDataV>
    decreases s.len() - i, 0int,
{
    match sp_string(s, i) {
        Some(p) => if i < p.1 {
            let j2 = skip_ws(s, p.1);
            if p.1 <= j2 && j2 < s.len() && s[j2] == ':' {
                let v0 = skip_ws(s, j2 + 1);
                if j2 + 1 <= v0 && v0 <= s.len() {
                    match sp_member_value(s, v0, acc, p.0) {
                        Some(q) => if v0 < q.1 && q.1 <= s.len() {
                            sp_after(s, q.1, q.0)
                        } else {
                            None
                        },
                        None => None,
                    }
                } else {
                    None
                }
            } else {
                None
            }
        } else {
            None
        },
        None => None,
    }
}

/// After a member: a comma continues the member list, and the closing
/// brace must end the document up to trailing whitespace.
pub open spec fn sp_after(s: Seq<char>, i: int, acc: UserDataV) -> Option<UserDataV>
    decreases s.len() - i, 1int,
{
    let a = skip_ws(s, i);
    if 0 <= i && i <= a && a < s.len() && s[a] == ',' {
        let n = skip_ws(s, a + 1);
        if a + 1 <= n && n <= s.len() && i < n {
            sp_members(s, n, acc)
        } else {
            None
        }
    } else if 0 <= i && i <= a && a < s.len() && s[a] == '}' {
        if skip_ws(s, a + 1) == s.len() {
            Some(acc)
        } else {
            None
        }
    } else {
        None
    }
}

/// Parse a whole record document: an object whose known members fill in
/// the record, starting from the all-absent record.  Whitespace may
/// surround the document and stand between its tokens.
pub open spec fn sp_parse(s: Seq<char>) -> Option<UserDataV> {
    let i0 = skip_ws(s, 0);
    if 0 <= i0 && i0 < s.len() && s[i0] == '{' {
        let j = skip_ws(s, i0 + 1);
        if i0 + 1 <= j && j < s.len() {
            if s[j] == '}' {
                if skip_ws(s, j + 1) == s.len() {
                    Some(empty_record())
                } else {
                    None
                }
            } else {
                sp_members(s, j, empty_record())
            }
        } else {
            None
        }
    } else {
        None
    }
}

// ---------------------------------------------------------------------------
// The executable parser, mirroring the spec grammar.
// ---------------------------------------------------------------------------

/// The first non-whitespace position at or after `i`.
fn p_skip_ws(s: &Vec<char>, i: usize) -> (r: usize)
    requires
        i <= s@.len(),
    ensures
        r as int == skip_ws(s@, i as int),
        i <= r <= s@.len(),
{
    let mut j = i;
    while j < s.len() && (s[j] == ' ' || s[j] == '\t' || s[j] == '\n' || s[j] == '\r')
        invariant
            i <= j <= s@.len(),
            skip_ws(s@, i as int) == skip_ws(s@, j as int),
        decreases s@.len() - j,
    {
        j = j + 1;
    }
    j
}

/// The value of a hexadecimal digit.
fn hex_digit_val(c: char) -> (r: Option<u32>)
    ensures
        match r {
            Some(v) => is_hex_digit(c) && v as int == hex_val(c) && v <= 15,
            None => !is_hex_digit(c),
        },
{
    let u = c as u32;
    if 48 <= u && u <= 57 {
        Some(u - 48)
    } else if 97 <= u && u <= 102 {
        Some(u - 87)
    } else if 65 <= u && u <= 70 {
        Some(u - 55)
    } else {
        None
    }
}

/// The value of the four hexadecimal digits at `i`, if they stand
/// there.
fn p_hex4(s: &Vec<char>, i: usize) -> (r: Option<u32>)
    ensures
        match r {
            Some(h) => hex4_ok(s@, i as int) && h as int == hex4(s@, i as int) && h <= 0xFFFF,
            None => !hex4_ok(s@, i as int),
        },
{
    if s.len() < 4 || i > s.len() - 4 {
        return None;
    }
    let d3 = match hex_digit_val(s[i]) {
        Some(v) => v,
        None => {
            return None;
        },
    };
    let d2 = match hex_digit_val(s[i + 1]) {
        Some(v) => v,
        None => {
            return None;
        },
    };
    let d1 = match hex_digit_val(s[i + 2]) {
        Some(v) => v,
        None => {
            return None;
        },
    };
    let d0 = match hex_digit_val(s[i + 3]) {
        Some(v) => v,
        None => {
            return None;
        },
    };
    Some(d3 * 0x1000 + d2 * 0x100 + d1 * 16 + d0)
}

/// Relies on `char::from_u32`: yields the character with exactly that
/// code point when the value is a unicode scalar value (not a surrogate
/// and at most the maximum code point), and nothing otherwise.
#[verifier::external_body]
fn char_from_u32(u: u32) -> (r: Option<char>)
    ensures
        match r {
            Some(c) => c == ((u as char)) && (u < 0xD800 || (0xE000 <= u && u <= 0x10FFFF)),
            None => !(u < 0xD800 || (0xE000 <= u && u <= 0x10FFFF)),
        },
{
    char::from_u32(u)
}

/// The character a single-letter escape code stands for.
fn p_unesc(c: char) -> (r: Option<char>)
    ensures
        r == unesc_char(c),
{
    if c == '"' {
        Some('"')
    } else if c == '\\' {
        Some('\\')
    } else if c == '/' {
        Some('/')
    } else if c == 'n' {
        Some('\n')
    } else if c == 't' {
        Some('\t')
    } else if c == 'r' {
        Some('\r')
    } else {
        None
    }
}

/// Read a string body from just after the opening quote.
fn p_str_body(s: &Vec<char>, i: usize) -> (r: Option<(Vec<char>, usize)>)
    ensures
        match r {
            Some(p) => {
                &&& sp_str_body(s@, i as int) == Some((p.0@, p.1 as int))
                &&& i < p.1 <= s@.len()
            },
            None => sp_str_body(s@, i as int) is None,
        },
    decreases s@.len() - i,
{
    if i >= s.len() {
        return None;
    }
    let c = s[i];
    if c == '"' {
        let empty: Vec<char> = Vec::new();
        return Some((empty, i + 1));
    }
    if c == '\\' {
        if i + 1 < s.len() && s[i + 1] == 'u' {
            let h = match p_hex4(s, i + 2) {
                Some(h) => h,
                None => {
                    return None;
                },
            };
            if h < 0xD800 || h > 0xDFFF {
                let d = match char_from_u32(h) {
                    Some(d) => d,
                    None => {
                        return None;
                    },
                };
                match p_str_body(s, i + 6) {
                    None => None,
                    Some((t, j)) => {
                        let ghost t0 = t@;
                        let mut t = t;
                        t.insert(0, d);
                        proof {
                            assert(t@ =~= seq![d] + t0);
                        }
                        Some((t, j))
                    },
                }
            } else if h <= 0xDBFF {
                if s.len() - i >= 8 && s[i + 6] == '\\' && s[i + 7] == 'u' {
                    let l = match p_hex4(s, i + 8) {
                        Some(l) => l,
                        None => {
                            return None;
                        },
                    };
                    if 0xDC00 <= l && l <= 0xDFFF {
                        let code = 0x10000 + (h - 0xD800) * 0x400 + (l - 0xDC00);
                        let d = match char_from_u32(code) {
                            Some(d) => d,
                            None => {
                                return None;
                            },
                        };
                        match p_str_body(s, i + 12) {
                            None => None,
                            Some((t, j)) => {
                                let ghost t0 = t@;
                                let mut t = t;
                                t.insert(0, d);
                                proof {
                                    assert(t@ =~= seq![d] + t0);
                                }
                                Some((t, j))
                            },
                        }
                    } else {
                        None
                    }
                } else {
                    None
                }
            } else {
                None
            }
        } else if i + 1 < s.len() {
            match p_unesc(s[i + 1]) {
                None => None,
                Some(d) => match p_str_body(s, i + 2) {
                    None => None,
                    Some((t, j)) => {
                        let ghost t0 = t@;
                        let mut t = t;
                        t.insert(0, d);
                        proof {
                            assert(t@ =~= seq![d] + t0);
                        }
                        Some((t, j))
                    },
                },
            }
        } else {
            None
        }
    } else {
        match p_str_body(s, i + 1) {
            None => None,
            Some((t, j)) => {
                let ghost t0 = t@;
                let mut t = t;
                t.insert(0, c);
                proof {
                    assert(t@ =~= seq![c] + t0);
                }
                Some((t, j))
            },
        }
    }
}

/// Read a quoted string value.
fn p_string(s: &Vec<char>, i: usize) -> (r: Option<(Vec<char>, usize)>)
    ensures
        match r {
            Some(p) => {
                &&& sp_string(s@, i as int) == Some((p.0@, p.1 as int))
                &&& i < p.1 <= s@.len()
            },
            None => sp_string(s@, i as int) is None,
        },
{
    if i < s.len() && s[i] == '"' {
        p_str_body(s, i + 1)
    } else {
        None
    }
}

/// The position just past the literal `null` at `i`, if it stands
/// there.
fn p_null_end(s: &Vec<char>, i: usize) -> (r: Option<usize>)
    ensures
        match r {
            Some(e) => is_null_at(s@, i as int) && e as int == i + 4 && e <= s@.len(),
            None => !is_null_at(s@, i as int),
        },
{
    if s.len() < 4 || i > s.len() - 4 {
        return None;
    }
    if s[i] == 'n' && s[i + 1] == 'u' && s[i + 2] == 'l' && s[i + 3] == 'l' {
        Some(i + 4)
    } else {
        None
    }
}

/// Skip a bare token up to the next delimiter or whitespace.
fn p_skip_prim(s: &Vec<char>, i: usize) -> (r: usize)
    requires
        i <= s@.len(),
    ensures
        r as int == sp_skip_prim(s@, i as int),
        i <= r <= s@.len(),
{
    let mut j = i;
    while j < s.len() && s[j] != ',' && s[j] != '}' && s[j] != ']' && s[j] != ' ' && s[j] != '\t'
        && s[j] != '\n' && s[j] != '\r'
        invariant
            i <= j <= s@.len(),
            sp_skip_prim(s@, i as int) == sp_skip_prim(s@, j as int),
        decreases s@.len() - j,
    {
        j = j + 1;
    }
    j
}

/// Skip one unknown value.
fn p_skip_value(s: &Vec<char>, i: usize) -> (r: Option<usize>)
    ensures
        match r {
            Some(j) => {
                &&& sp_skip_value(s@, i as int) == Some(j as int)
                &&& i < j <= s@.len()
            },
            None => sp_skip_value(s@, i as int) is None,
        },
    decreases s@.len() - i, 0int,
{
    if i >= s.len() {
        return None;
    }
    let c = s[i];
    if c == '"' {
        match p_string(s, i) {
            Some((_t, j)) => Some(j),
            None => None,
        }
    } else if c == '{' {
        let m0 = p_skip_ws(s, i + 1);
        p_skip_members(s, m0)
    } else if c == '[' {
        let m0 = p_skip_ws(s, i + 1);
        p_skip_elems(s, m0)
    } else if c == ',' || c == '}' || c == ']' || c == ':' || c == ' ' || c == '\t' || c == '\n'
        || c == '\r' {
        None
    } else {
        Some(p_skip_prim(s, i + 1))
    }
}

/// Skip a skipped object's members.
fn p_skip_members(s: &Vec<char>, i: usize) -> (r: Option<usize>)
    ensures
        match r {
            Some(j) => {
                &&& sp_skip_members(s@, i as int) == Some(j as int)
                &&& i < j <= s@.len()
            },
            None => sp_skip_members(s@, i as int) is None,
        },
    decreases s@.len() - i, 1int,
{
    if i >= s.len() {
        return None;
    }
    if s[i] == '}' {
        return Some(i + 1);
    }
    match p_string(s, i) {
        None => None,
        Some((_k, j)) => {
            let j2 = p_skip_ws(s, j);
            if j2 < s.len() && s[j2] == ':' {
                let v0 = p_skip_ws(s, j2 + 1);
                match p_skip_value(s, v0) {
                    None => None,
                    Some(j3) => {
                        let d = p_skip_ws(s, j3);
                        if d < s.len() {
                            if s[d] == ',' {
                                let n = p_skip_ws(s, d + 1);
                                p_skip_members(s, n)
                            } else if s[d] == '}' {
                                Some(d + 1)
                            } else {
                                None
                            }
                        } else {
                            None
                        }
                    },
                }
            } else {
                None
            }
        },
    }
}

/// Skip a skipped array's elements.
fn p_skip_elems(s: &Vec<char>, i: usize) -> (r: Option<usize>)
    ensures
        match r {
            Some(j) => {
                &&& sp_skip_elems(s@, i as int) == Some(j as int)
                &&& i < j <= s@.len()
            },
            None => sp_skip_elems(s@, i as int) is None,
        },
    decreases s@.len() - i, 1int,
{
    if i >= s.len() {
        return None;
    }
    if s[i] == ']' {
        return Some(i + 1);
    }
    match p_skip_value(s, i) {
        None => None,
        Some(j) => {
            let d = p_skip_ws(s, j);
            if d < s.len() {
                if s[d] == ',' {
                    let n = p_skip_ws(s, d + 1);
                    p_skip_elems(s, n)
                } else if s[d] == ']' {
                    Some(d + 1)
                } else {
                    None
                }
            } else {
                None
            }
        },
    }
}

/// The media kind a parsed name stands for.
fn p_media_type(t: &Vec<char>) -> (r: Option<MediaType>)
    ensures
        r == media_type_of(t@),
{
    if crate::chars::chars_eq_str(t, "Unspecified") {
        Some(MediaType::Unspecified)
    } else if crate::chars::chars_eq_str(t, "Text") {
        Some(MediaType::Text)
    } else if crate::chars::chars_eq_str(t, "Movie") {
        Some(MediaType::Movie)
    } else if crate::chars::chars_eq_str(t, "TVShow") {
        Some(MediaType::TVShow)
    } else if crate::chars::chars_eq_str(t, "Music") {
        Some(MediaType::Music)
    } else if crate::chars::chars_eq_str(t, "Speech") {
        Some(MediaType::Speech)
    } else if crate::chars::chars_eq_str(t, "Game") {
        Some(MediaType::Game)
    } else {
        None
    }
}

/// Read an avatar value.
fn p_avatar(s: &Vec<char>, i: usize) -> (r: Option<(Vec<char>, usize)>)
    ensures
        match r {
            Some(p) => {
                &&& sp_avatar(s@, i as int) == Some((p.0@, p.1 as int))
                &&& i < p.1 <= s@.len()
            },
            None => sp_avatar(s@, i as int) is None,
        },
{
    if i < s.len() && s[i] == '{' {
        let k0 = p_skip_ws(s, i + 1);
        match p_string(s, k0) {
            None => None,
            Some((k, j)) => {
                if crate::chars::chars_eq_str(&k, "original") {
                    let j2 = p_skip_ws(s, j);
                    if j2 < s.len() && s[j2] == ':' {
                        let v0 = p_skip_ws(s, j2 + 1);
                        match p_string(s, v0) {
                            None => None,
                            Some((t, j3)) => {
                                let e = p_skip_ws(s, j3);
                                if e < s.len() && s[e] == '}' {
                                    Some((t, e + 1))
                                } else {
                                    None
                                }
                            },
                        }
                    } else {
                        None
                    }
                } else {
                    None
                }
            },
        }
    } else {
        None
    }
}

/// Read the value of the member named `key` into `acc`.
fn p_member_value(s: &Vec<char>, i: usize, acc: UserData, key: &Vec<char>) -> (r: Option<
    (UserData, usize),
>)
    ensures
        match r {
            Some(p) => {
                &&& sp_member_value(s@, i as int, acc@, key@) == Some((p.0@, p.1 as int))
                &&& i < p.1 <= s@.len()
            },
            None => sp_member_value(s@, i as int, acc@, key@) is None,
        },
{
    let mut acc = acc;
    if crate::chars::chars_eq_str(key, "avatar") {
        if let Some(e) = p_null_end(s, i) {
            acc.avatar = None;
            Some((acc, e))
        } else {
            match p_avatar(s, i) {
                None => None,
                Some((t, j)) => {
                    acc.avatar = Some(Avatar { original: chars_to_string(&t) });
                    Some((acc, j))
                },
            }
        }
    } else if crate::chars::chars_eq_str(key, "name") {
        if let Some(e) = p_null_end(s, i) {
            acc.name = None;
            Some((acc, e))
        } else {
            match p_string(s, i) {
                None => None,
                Some((t, j)) => {
                    acc.name = Some(chars_to_string(&t));
                    Some((acc, j))
                },
            }
        }
    } else if crate::chars::chars_eq_str(key, "status") {
        if let Some(e) = p_null_end(s, i) {
            acc.status = None;
            Some((acc, e))
        } else {
            match p_string(s, i) {
                None => None,
                Some((t, j)) => {
                    acc.status = Some(chars_to_string(&t));
                    Some((acc, j))
                },
            }
        }
    } else if crate::chars::chars_eq_str(key, "emoji") {
        if let Some(e) = p_null_end(s, i) {
            acc.emoji = None;
            Some((acc, e))
        } else {
            match p_string(s, i) {
                None => None,
                Some((t, j)) => {
                    if t.len() == 1 {
                        acc.emoji = Some(t[0]);
                        Some((acc, j))
                    } else {
                        None
                    }
                },
            }
        }
    } else if crate::chars::chars_eq_str(key, "media") {
        if let Some(e) = p_null_end(s, i) {
            acc.media = None;
            Some((acc, e))
        } else {
            match p_string(s, i) {
                None => None,
                Some((t, j)) => {
                    acc.media = Some(chars_to_string(&t));
                    Some((acc, j))
                },
            }
        }
    } else if crate::chars::chars_eq_str(key, "mediaType") {
        if let Some(e) = p_null_end(s, i) {
            acc.media_type = None;
            Some((acc, e))
        } else {
            match p_string(s, i) {
                None => None,
                Some((t, j)) => match p_media_type(&t) {
                    None => None,
                    Some(m) => {
                        acc.media_type = Some(m);
                        Some((acc, j))
                    },
                },
            }
        }
    } else {
        match p_skip_value(s, i) {
            None => None,
            Some(j) => Some((acc, j)),
        }
    }
}

/// Read a member list starting at a key.
fn p_members(s: &Vec<char>, i: usize, acc: UserData) -> (r: Option<UserData>)
    ensures
        match r {
            Some(d) => sp_members(s@, i as int, acc@) == Some(d@),
            None => sp_members(s@, i as int, acc@) is None,
        },
    decreases s@.len() - i, 0int,
{
    match p_string(s, i) {
        None => None,
        Some((key, j)) => {
            let j2 = p_skip_ws(s, j);
            if j2 < s.len() && s[j2] == ':' {
                let v0 = p_skip_ws(s, j2 + 1);
                match p_member_value(s, v0, acc, &key) {
                    None => None,
                    Some((acc2, k2)) => p_after(s, k2, acc2),
                }
            } else {
                None
            }
        },
    }
}

/// Continue after a member: a comma, or the final closing brace and
/// trailing whitespace.
fn p_after(s: &Vec<char>, i: usize, acc: UserData) -> (r: Option<UserData>)
    requires
        i <= s@.len(),
    ensures
        match r {
            Some(d) => sp_after(s@, i as int, acc@) == Some(d@),
            None => sp_after(s@, i as int, acc@) is None,
        },
    decreases s@.len() - i, 1int,
{
    let a = p_skip_ws(s, i);
    if a < s.len() && s[a] == ',' {
        let n = p_skip_ws(s, a + 1);
        p_members(s, n, acc)
    } else if a < s.len() && s[a] == '}' {
        if p_skip_ws(s, a + 1) == s.len() {
            Some(acc)
        } else {
            None
        }
    } else {
        None
    }
}

impl UserData {
    /// Decode a record document.  Returns the parsed record exactly when
    /// the document is a well-formed object of the codec's grammar
    /// (whitespace and unknown members tolerated, `null` meaning
    /// absent), and `ParseError` otherwise.
    pub fn parse(s: &str) -> (r: Result<UserData, ParseError>)
        ensures
            match r {
                Ok(d) => sp_parse(s@) == Some(d@),
                Err(_) => sp_parse(s@) is None,
            },
    {
        let cs = chars_of_str(s);
        let i0 = p_skip_ws(&cs, 0);
        if i0 < cs.len() && cs[i0] == '{' {
            let j = p_skip_ws(&cs, i0 + 1);
            if j < cs.len() {
                if cs[j] == '}' {
                    if p_skip_ws(&cs, j + 1) == cs.len() {
                        Ok(UserData::new())
                    } else {
                        Err(ParseError)
                    }
                } else {
                    match p_members(&cs, j, UserData::new()) {
                        Some(d) => Ok(d),
                        None => Err(ParseError),
                    }
                }
            } else {
                Err(ParseError)
            }
        } else {
            Err(ParseError)
        }
    }
}

} // verus!

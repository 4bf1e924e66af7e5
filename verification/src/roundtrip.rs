//! The codec's round-trip law: parsing a serialized record yields the
//! record back, field for field, for every representable record.  The
//! proof inverts the serializer layer by layer: escaped strings, the
//! avatar object, each member, and the member list as a whole.

use vstd::prelude::*;
use crate::codec::{
    avatar_value, esc, esc_char, field_present, any_present, hex_digit, member_text,
    media_type_name, ser_from, ser_string, spec_serialize,
};
use crate::parse::{
    hex4, hex4_ok, hex_val, is_hex_digit, is_null_at, media_type_of, set_field, skip_ws, sp_after,
    sp_avatar, sp_member_value, sp_members, sp_parse, sp_str_body, sp_string, unesc_char,
};
use crate::record::{UserDataV, empty_record};

verus! {

/// Pointwise consequence of a subrange equality.
proof fn lemma_subrange_index(s: Seq<char>, lo: int, x: Seq<char>)
    requires
        0 <= lo,
        lo + x.len() <= s.len(),
        s.subrange(lo, lo + x.len()) == x,
    ensures
        forall|o: int| 0 <= o < x.len() ==> s[lo + o] == x[o],
{
    assert forall|o: int| 0 <= o < x.len() implies s[lo + o] == x[o] by {
        assert(s.subrange(lo, lo + x.len())[o] == x[o]);
    }
}

/// A subrange equality from pointwise agreement.
proof fn lemma_subrange_intro(s: Seq<char>, lo: int, x: Seq<char>)
    requires
        0 <= lo,
        lo + x.len() <= s.len(),
        forall|o: int| 0 <= o < x.len() ==> s[lo + o] == x[o],
    ensures
        s.subrange(lo, lo + x.len()) == x,
{
    assert(s.subrange(lo, lo + x.len()) =~= x);
}

/// A subrange equal to a concatenation splits into two subrange
/// equalities.
proof fn lemma_subrange_concat(s: Seq<char>, i: int, a: Seq<char>, b: Seq<char>)
    requires
        0 <= i,
        i + a.len() + b.len() <= s.len(),
        s.subrange(i, i + a.len() + b.len()) == a + b,
    ensures
        s.subrange(i, i + a.len()) == a,
        s.subrange(i + a.len(), i + a.len() + b.len()) == b,
{
    lemma_subrange_index(s, i, a + b);
    assert forall|o: int| 0 <= o < a.len() implies s[i + o] == a[o] by {
        assert((a + b)[o] == a[o]);
    }
    lemma_subrange_intro(s, i, a);
    assert forall|o: int| 0 <= o < b.len() implies s[i + a.len() + o] == b[o] by {
        assert((a + b)[a.len() + o] == b[o]);
    }
    lemma_subrange_intro(s, i + a.len(), b);
}

/// The character at the start of a one-character subrange.
proof fn lemma_char_at(s: Seq<char>, lo: int, c: char)
    requires
        0 <= lo,
        lo + 1 <= s.len(),
        s.subrange(lo, lo + 1) == seq![c],
    ensures
        s[lo] == c,
{
    assert(s.subrange(lo, lo + 1)[0] == c);
}

/// A character's code point casts back to the character.
proof fn lemma_char_u32_id(c: char)
    ensures
        ((c as u32) as char) == c,
{
}

/// A value below sixteen written as a hexadecimal digit reads back as
/// itself.
proof fn lemma_hex_digit(n: int)
    requires
        0 <= n < 16,
    ensures
        is_hex_digit(hex_digit(n)),
        hex_val(hex_digit(n)) == n,
{
    if n < 10 {
        assert(hex_digit(n) as u32 == 48 + n);
    } else {
        assert(hex_digit(n) as u32 == 87 + n);
    }
}

/// A string body that is the escaped form of `t` followed by a closing
/// quote parses back to exactly `t`.
proof fn lemma_str_body_inverts(t: Seq<char>, s: Seq<char>, i: int)
    requires
        0 <= i,
        i + esc(t).len() + 1 <= s.len(),
        s.subrange(i, i + esc(t).len()) == esc(t),
        s[i + esc(t).len()] == '"',
    ensures
        sp_str_body(s, i) == Some((t, i + esc(t).len() + 1)),
    decreases t.len(),
{
    lemma_subrange_index(s, i, esc(t));
    if t.len() == 0 {
        assert(esc(t).len() == 0);
        assert(s[i] == '"');
        assert(t =~= Seq::<char>::empty());
    } else {
        let c = t[0];
        let t2 = t.skip(1);
        assert(esc(t) == esc_char(c) + esc(t2));
        if c == '"' || c == '\\' || c == '\n' || c == '\t' || c == '\r' {
            let code = if c == '"' {
                '"'
            } else if c == '\\' {
                '\\'
            } else if c == '\n' {
                'n'
            } else if c == '\t' {
                't'
            } else {
                'r'
            };
            assert(esc_char(c) =~= seq!['\\', code]);
            assert(esc(t)[0] == '\\');
            assert(esc(t)[1] == code);
            assert(s[i] == '\\');
            assert(s[i + 1] == code);
            assert(code != 'u');
            assert(unesc_char(code) == Some(c));
            assert forall|o: int| 0 <= o < esc(t2).len() implies s[i + 2 + o] == esc(t2)[o] by {
                assert(esc(t)[2 + o] == esc(t2)[o]);
            }
            lemma_subrange_intro(s, i + 2, esc(t2));
            assert(s[i + 2 + esc(t2).len()] == '"');
            lemma_str_body_inverts(t2, s, i + 2);
            assert(seq![c] + t2 =~= t);
        } else if (c as u32) < 0x20 {
            let u = c as u32;
            lemma_hex_digit(u as int / 16);
            lemma_hex_digit(u as int % 16);
            let d1 = hex_digit(u as int / 16);
            let d0 = hex_digit(u as int % 16);
            assert(esc_char(c) =~= seq!['\\', 'u', '0', '0', d1, d0]);
            assert(esc(t)[0] == '\\' && esc(t)[1] == 'u' && esc(t)[2] == '0' && esc(t)[3] == '0'
                && esc(t)[4] == d1 && esc(t)[5] == d0);
            assert(s[i] == '\\' && s[i + 1] == 'u' && s[i + 2] == '0' && s[i + 3] == '0' && s[i
                + 4] == d1 && s[i + 5] == d0);
            assert(is_hex_digit('0') && hex_val('0') == 0) by {
                assert('0' as u32 == 48);
            }
            assert(hex4_ok(s, i + 2));
            assert(u as int == (u as int / 16) * 16 + (u as int % 16));
            assert(hex4(s, i + 2) == u);
            assert forall|o: int| 0 <= o < esc(t2).len() implies s[i + 6 + o] == esc(t2)[o] by {
                assert(esc(t)[6 + o] == esc(t2)[o]);
            }
            lemma_subrange_intro(s, i + 6, esc(t2));
            assert(s[i + 6 + esc(t2).len()] == '"');
            lemma_str_body_inverts(t2, s, i + 6);
            assert(hex4(s, i + 2) as u32 == c as u32);
            lemma_char_u32_id(c);
            assert(((hex4(s, i + 2) as u32) as char) == c);
            assert(seq![c] + t2 =~= t);
        } else {
            assert(esc_char(c) =~= seq![c]);
            assert(esc(t)[0] == c);
            assert(s[i] == c);
            assert forall|o: int| 0 <= o < esc(t2).len() implies s[i + 1 + o] == esc(t2)[o] by {
                assert(esc(t)[1 + o] == esc(t2)[o]);
            }
            lemma_subrange_intro(s, i + 1, esc(t2));
            assert(s[i + 1 + esc(t2).len()] == '"');
            lemma_str_body_inverts(t2, s, i + 1);
            assert(seq![c] + t2 =~= t);
        }
    }
}

/// A serialized string value parses back to exactly its text.
proof fn lemma_string_inverts(t: Seq<char>, s: Seq<char>, i: int)
    requires
        0 <= i,
        i + ser_string(t).len() <= s.len(),
        s.subrange(i, i + ser_string(t).len()) == ser_string(t),
    ensures
        sp_string(s, i) == Some((t, i + ser_string(t).len())),
        ser_string(t).len() >= 2,
{
    assert(ser_string(t).len() == esc(t).len() + 2);
    lemma_subrange_index(s, i, ser_string(t));
    assert(ser_string(t)[0] == '"');
    assert(s[i] == '"');
    assert forall|o: int| 0 <= o < esc(t).len() implies s[i + 1 + o] == esc(t)[o] by {
        assert(ser_string(t)[1 + o] == esc(t)[o]);
    }
    lemma_subrange_intro(s, i + 1, esc(t));
    assert(ser_string(t)[1 + esc(t).len() as int] == '"');
    assert(s[i + 1 + esc(t).len()] == '"');
    lemma_str_body_inverts(t, s, i + 1);
}

/// A serialized avatar value parses back to exactly its text.
proof fn lemma_avatar_inverts(a: Seq<char>, s: Seq<char>, i: int)
    requires
        0 <= i,
        i + avatar_value(a).len() <= s.len(),
        s.subrange(i, i + avatar_value(a).len()) == avatar_value(a),
    ensures
        sp_avatar(s, i) == Some((a, i + avatar_value(a).len())),
{
    let key = ser_string("original"@);
    let val = ser_string(a);
    let l1 = key.len();
    let l2 = val.len();
    assert(avatar_value(a) == (seq!['{'] + key + seq![':'] + val) + seq!['}']);
    lemma_subrange_concat(s, i, seq!['{'] + key + seq![':'] + val, seq!['}']);
    lemma_subrange_concat(s, i, seq!['{'] + key + seq![':'], val);
    lemma_subrange_concat(s, i, seq!['{'] + key, seq![':']);
    lemma_subrange_concat(s, i, seq!['{'], key);
    lemma_char_at(s, i, '{');
    lemma_subrange_index(s, i + 1, key);
    assert(key[0] == '"');
    assert(s[i + 1] == '"');
    assert(skip_ws(s, i + 1) == i + 1);
    lemma_string_inverts("original"@, s, i + 1);
    lemma_char_at(s, i + 1 + l1, ':');
    assert(skip_ws(s, i + 1 + l1) == i + 1 + l1);
    lemma_subrange_index(s, i + 2 + l1, val);
    assert(val[0] == '"');
    assert(s[i + 2 + l1] == '"');
    assert(skip_ws(s, i + 2 + l1) == i + 2 + l1);
    lemma_string_inverts(a, s, i + 2 + l1);
    lemma_char_at(s, i + 2 + l1 + l2, '}');
    assert(skip_ws(s, i + 2 + l1 + l2) == i + 2 + l1 + l2);
    assert(avatar_value(a).len() == l1 + l2 + 3);
}

/// Parsing a media kind's name yields that kind back.
proof fn lemma_media_type_inverts(m: crate::record::MediaType)
    ensures
        media_type_of(media_type_name(m)) == Some(m),
{
    reveal_strlit("Unspecified");
    reveal_strlit("Text");
    reveal_strlit("Movie");
    reveal_strlit("TVShow");
    reveal_strlit("Music");
    reveal_strlit("Speech");
    reveal_strlit("Game");
    assert("Unspecified"@.len() == 11);
    assert("Text"@.len() == 4);
    assert("Movie"@.len() == 5);
    assert("TVShow"@.len() == 6);
    assert("Music"@.len() == 5);
    assert("Speech"@.len() == 6);
    assert("Game"@.len() == 4);
    assert("Music"@[1] == 'u' && "Movie"@[1] == 'o');
    assert("Speech"@[0] == 'S' && "TVShow"@[0] == 'T');
    assert("Game"@[0] == 'G' && "Text"@[0] == 'T');
    assert("Music"@ != "Movie"@);
    assert("Speech"@ != "TVShow"@);
    assert("Game"@ != "Text"@);
    assert("Game"@ != "Music"@);
    assert("Game"@ != "Movie"@);
}

/// The six member keys are pairwise distinct.
proof fn lemma_keys_distinct()
    ensures
        "avatar"@ != "name"@,
        "avatar"@ != "status"@,
        "avatar"@ != "emoji"@,
        "avatar"@ != "media"@,
        "avatar"@ != "mediaType"@,
        "name"@ != "status"@,
        "name"@ != "emoji"@,
        "name"@ != "media"@,
        "name"@ != "mediaType"@,
        "status"@ != "emoji"@,
        "status"@ != "media"@,
        "status"@ != "mediaType"@,
        "emoji"@ != "media"@,
        "emoji"@ != "mediaType"@,
        "media"@ != "mediaType"@,
{
    reveal_strlit("avatar");
    reveal_strlit("name");
    reveal_strlit("status");
    reveal_strlit("emoji");
    reveal_strlit("media");
    reveal_strlit("mediaType");
    assert("avatar"@.len() == 6);
    assert("name"@.len() == 4);
    assert("status"@.len() == 6);
    assert("emoji"@.len() == 5);
    assert("media"@.len() == 5);
    assert("mediaType"@.len() == 9);
    assert("avatar"@[0] == 'a' && "status"@[0] == 's');
    assert("emoji"@[0] == 'e' && "media"@[0] == 'm');
}

/// A serialized member parses as one member: it records exactly that
/// field of `v` in the accumulator and hands the position just past the
/// member to the continuation.
/// One serialized member at `i`, member number 0 in the order, parses
/// as that member and hands the continuation the position past it.
#[verifier::spinoff_prover]
proof fn lemma_member_inverts_0(v: UserDataV, acc: UserDataV, s: Seq<char>, i: int)
    requires
        field_present(v, 0),
        0 <= i,
        i + member_text(v, 0).len() <= s.len(),
        s.subrange(i, i + member_text(v, 0).len()) == member_text(v, 0),
    ensures
        sp_members(s, i, acc) == sp_after(s, i + member_text(v, 0).len(), set_field(acc, v, 0)),
{
    lemma_keys_distinct();
    let m = member_text(v, 0);
    let key = ser_string("avatar"@);
    let val = avatar_value(v.avatar->0);
    assert(m == (key + seq![':']) + val);
    lemma_subrange_concat(s, i, key + seq![':'], val);
    lemma_subrange_concat(s, i, key, seq![':']);
    lemma_string_inverts("avatar"@, s, i);
    lemma_char_at(s, i + key.len() as int, ':');
    assert(skip_ws(s, i + key.len() as int) == i + key.len());
    lemma_subrange_index(s, i + key.len() + 1, val);
    assert(val[0] == '{');
    assert(s[i + key.len() + 1] == '{');
    assert(skip_ws(s, i + key.len() + 1) == i + key.len() + 1);
    assert(!is_null_at(s, i + key.len() + 1));
    lemma_avatar_inverts(v.avatar->0, s, i + key.len() + 1);
}

/// One serialized member at `i`, member number 1 in the order, parses
/// as that member and hands the continuation the position past it.
#[verifier::spinoff_prover]
proof fn lemma_member_inverts_1(v: UserDataV, acc: UserDataV, s: Seq<char>, i: int)
    requires
        field_present(v, 1),
        0 <= i,
        i + member_text(v, 1).len() <= s.len(),
        s.subrange(i, i + member_text(v, 1).len()) == member_text(v, 1),
    ensures
        sp_members(s, i, acc) == sp_after(s, i + member_text(v, 1).len(), set_field(acc, v, 1)),
{
    lemma_keys_distinct();
    let m = member_text(v, 1);
    let key = ser_string("name"@);
    let val = ser_string(v.name->0);
    assert(m == (key + seq![':']) + val);
    lemma_subrange_concat(s, i, key + seq![':'], val);
    lemma_subrange_concat(s, i, key, seq![':']);
    lemma_string_inverts("name"@, s, i);
    lemma_char_at(s, i + key.len() as int, ':');
    assert(skip_ws(s, i + key.len() as int) == i + key.len());
    lemma_subrange_index(s, i + key.len() + 1, val);
    assert(val[0] == '"');
    assert(s[i + key.len() + 1] == '"');
    assert(skip_ws(s, i + key.len() + 1) == i + key.len() + 1);
    assert(!is_null_at(s, i + key.len() + 1));
    lemma_string_inverts(v.name->0, s, i + key.len() + 1);
}

/// One serialized member at `i`, member number 2 in the order, parses
/// as that member and hands the continuation the position past it.
#[verifier::spinoff_prover]
proof fn lemma_member_inverts_2(v: UserDataV, acc: UserDataV, s: Seq<char>, i: int)
    requires
        field_present(v, 2),
        0 <= i,
        i + member_text(v, 2).len() <= s.len(),
        s.subrange(i, i + member_text(v, 2).len()) == member_text(v, 2),
    ensures
        sp_members(s, i, acc) == sp_after(s, i + member_text(v, 2).len(), set_field(acc, v, 2)),
{
    lemma_keys_distinct();
    let m = member_text(v, 2);
    let key = ser_string("status"@);
    let val = ser_string(v.status->0);
    assert(m == (key + seq![':']) + val);
    lemma_subrange_concat(s, i, key + seq![':'], val);
    lemma_subrange_concat(s, i, key, seq![':']);
    lemma_string_inverts("status"@, s, i);
    lemma_char_at(s, i + key.len() as int, ':');
    assert(skip_ws(s, i + key.len() as int) == i + key.len());
    lemma_subrange_index(s, i + key.len() + 1, val);
    assert(val[0] == '"');
    assert(s[i + key.len() + 1] == '"');
    assert(skip_ws(s, i + key.len() + 1) == i + key.len() + 1);
    assert(!is_null_at(s, i + key.len() + 1));
    lemma_string_inverts(v.status->0, s, i + key.len() + 1);
}

/// One serialized member at `i`, member number 3 in the order, parses
/// as that member and hands the continuation the position past it.
#[verifier::spinoff_prover]
proof fn lemma_member_inverts_3(v: UserDataV, acc: UserDataV, s: Seq<char>, i: int)
    requires
        field_present(v, 3),
        0 <= i,
        i + member_text(v, 3).len() <= s.len(),
        s.subrange(i, i + member_text(v, 3).len()) == member_text(v, 3),
    ensures
        sp_members(s, i, acc) == sp_after(s, i + member_text(v, 3).len(), set_field(acc, v, 3)),
{
    lemma_keys_distinct();
    let m = member_text(v, 3);
    let key = ser_string("emoji"@);
    let t = seq![v.emoji->0];
    let val = ser_string(t);
    assert(m == (key + seq![':']) + val);
    lemma_subrange_concat(s, i, key + seq![':'], val);
    lemma_subrange_concat(s, i, key, seq![':']);
    lemma_string_inverts("emoji"@, s, i);
    lemma_char_at(s, i + key.len() as int, ':');
    assert(skip_ws(s, i + key.len() as int) == i + key.len());
    lemma_subrange_index(s, i + key.len() + 1, val);
    assert(val[0] == '"');
    assert(s[i + key.len() + 1] == '"');
    assert(skip_ws(s, i + key.len() + 1) == i + key.len() + 1);
    assert(!is_null_at(s, i + key.len() + 1));
    lemma_string_inverts(t, s, i + key.len() + 1);
    assert(t.len() == 1 && t[0] == v.emoji->0);
}

/// One serialized member at `i`, member number 4 in the order, parses
/// as that member and hands the continuation the position past it.
#[verifier::spinoff_prover]
proof fn lemma_member_inverts_4(v: UserDataV, acc: UserDataV, s: Seq<char>, i: int)
    requires
        field_present(v, 4),
        0 <= i,
        i + member_text(v, 4).len() <= s.len(),
        s.subrange(i, i + member_text(v, 4).len()) == member_text(v, 4),
    ensures
        sp_members(s, i, acc) == sp_after(s, i + member_text(v, 4).len(), set_field(acc, v, 4)),
{
    lemma_keys_distinct();
    let m = member_text(v, 4);
    let key = ser_string("media"@);
    let val = ser_string(v.media->0);
    assert(m == (key + seq![':']) + val);
    lemma_subrange_concat(s, i, key + seq![':'], val);
    lemma_subrange_concat(s, i, key, seq![':']);
    lemma_string_inverts("media"@, s, i);
    lemma_char_at(s, i + key.len() as int, ':');
    assert(skip_ws(s, i + key.len() as int) == i + key.len());
    lemma_subrange_index(s, i + key.len() + 1, val);
    assert(val[0] == '"');
    assert(s[i + key.len() + 1] == '"');
    assert(skip_ws(s, i + key.len() + 1) == i + key.len() + 1);
    assert(!is_null_at(s, i + key.len() + 1));
    lemma_string_inverts(v.media->0, s, i + key.len() + 1);
}

/// One serialized member at `i`, member number 5 in the order, parses
/// as that member and hands the continuation the position past it.
#[verifier::spinoff_prover]
proof fn lemma_member_inverts_5(v: UserDataV, acc: UserDataV, s: Seq<char>, i: int)
    requires
        field_present(v, 5),
        0 <= i,
        i + member_text(v, 5).len() <= s.len(),
        s.subrange(i, i + member_text(v, 5).len()) == member_text(v, 5),
    ensures
        sp_members(s, i, acc) == sp_after(s, i + member_text(v, 5).len(), set_field(acc, v, 5)),
{
    lemma_keys_distinct();
    let m = member_text(v, 5);
    let key = ser_string("mediaType"@);
    let t = media_type_name(v.media_type->0);
    let val = ser_string(t);
    assert(m == (key + seq![':']) + val);
    lemma_subrange_concat(s, i, key + seq![':'], val);
    lemma_subrange_concat(s, i, key, seq![':']);
    lemma_string_inverts("mediaType"@, s, i);
    lemma_char_at(s, i + key.len() as int, ':');
    assert(skip_ws(s, i + key.len() as int) == i + key.len());
    lemma_subrange_index(s, i + key.len() + 1, val);
    assert(val[0] == '"');
    assert(s[i + key.len() + 1] == '"');
    assert(skip_ws(s, i + key.len() + 1) == i + key.len() + 1);
    assert(!is_null_at(s, i + key.len() + 1));
    lemma_string_inverts(t, s, i + key.len() + 1);
    lemma_media_type_inverts(v.media_type->0);
}

/// A serialized member parses as one member: it records exactly that
/// field of `v` in the accumulator and hands the position just past the
/// member to the continuation.
proof fn lemma_member_inverts(v: UserDataV, k: int, acc: UserDataV, s: Seq<char>, i: int)
    requires
        0 <= k < 6,
        field_present(v, k),
        0 <= i,
        i + member_text(v, k).len() <= s.len(),
        s.subrange(i, i + member_text(v, k).len()) == member_text(v, k),
    ensures
        sp_members(s, i, acc) == sp_after(s, i + member_text(v, k).len(), set_field(acc, v, k)),
{
    if k == 0 {
        lemma_member_inverts_0(v, acc, s, i);
    } else if k == 1 {
        lemma_member_inverts_1(v, acc, s, i);
    } else if k == 2 {
        lemma_member_inverts_2(v, acc, s, i);
    } else if k == 3 {
        lemma_member_inverts_3(v, acc, s, i);
    } else if k == 4 {
        lemma_member_inverts_4(v, acc, s, i);
    } else {
        lemma_member_inverts_5(v, acc, s, i);
    }
}

/// After some members have been parsed, the remaining serialized members
/// (each with its leading comma) followed by the closing brace complete
/// the parse to exactly `v`.
proof fn lemma_after_inverts(v: UserDataV, s: Seq<char>, i: int, acc: UserDataV, k: int)
    requires
        0 <= k <= 6,
        0 <= i <= s.len(),
        s.subrange(i, s.len() as int) == ser_from(v, k, false),
        (0 < k || v.avatar is None) ==> acc.avatar == v.avatar,
        (1 < k || v.name is None) ==> acc.name == v.name,
        (2 < k || v.status is None) ==> acc.status == v.status,
        (3 < k || v.emoji is None) ==> acc.emoji == v.emoji,
        (4 < k || v.media is None) ==> acc.media == v.media,
        (5 < k || v.media_type is None) ==> acc.media_type == v.media_type,
    ensures
        sp_after(s, i, acc) == Some(v),
    decreases 6 - k,
{
    if k == 6 {
        assert(ser_from(v, 6, false) == seq!['}']);
        assert(s.subrange(i, s.len() as int).len() == 1);
        assert(i + 1 == s.len());
        assert(s.subrange(i, i + 1) == seq!['}']);
        lemma_char_at(s, i, '}');
        assert(skip_ws(s, i) == i);
        assert(skip_ws(s, i + 1) == s.len());
        assert(acc == v);
    } else if !field_present(v, k) {
        lemma_after_inverts(v, s, i, acc, k + 1);
    } else {
        let m = member_text(v, k);
        let rest = ser_from(v, k + 1, false);
        assert(ser_from(v, k, false) == (seq![','] + m) + rest);
        lemma_subrange_concat(s, i, seq![','] + m, rest);
        lemma_subrange_concat(s, i, seq![','], m);
        lemma_char_at(s, i, ',');
        assert(skip_ws(s, i) == i);
        lemma_subrange_index(s, i + 1, m);
        assert(member_text(v, k)[0] == '"');
        assert(s[i + 1] == '"');
        assert(skip_ws(s, i + 1) == i + 1);
        lemma_member_inverts(v, k, acc, s, i + 1);
        assert(i + 1 + m.len() + rest.len() == s.len());
        assert(s.subrange(i + 1 + m.len() as int, s.len() as int) == rest);
        lemma_after_inverts(v, s, i + 1 + m.len(), set_field(acc, v, k), k + 1);
    }
}

/// The first serialized member and everything after it parse to exactly
/// `v`, provided every absent field of `v` is already absent in `acc`.
proof fn lemma_members_inverts(v: UserDataV, s: Seq<char>, i: int, acc: UserDataV, k: int)
    requires
        0 <= k < 6,
        any_present(v, k),
        0 <= i <= s.len(),
        s.subrange(i, s.len() as int) == ser_from(v, k, true),
        (0 < k || v.avatar is None) ==> acc.avatar == v.avatar,
        (1 < k || v.name is None) ==> acc.name == v.name,
        (2 < k || v.status is None) ==> acc.status == v.status,
        (3 < k || v.emoji is None) ==> acc.emoji == v.emoji,
        (4 < k || v.media is None) ==> acc.media == v.media,
        (5 < k || v.media_type is None) ==> acc.media_type == v.media_type,
    ensures
        sp_members(s, i, acc) == Some(v),
    decreases 6 - k,
{
    if !field_present(v, k) {
        assert(any_present(v, k) == (field_present(v, k) || any_present(v, k + 1)));
        if k == 5 {
            assert(!any_present(v, 6));
            assert(false);
        }
        lemma_members_inverts(v, s, i, acc, k + 1);
    } else {
        let m = member_text(v, k);
        let rest = ser_from(v, k + 1, false);
        assert(ser_from(v, k, true) == m + rest);
        lemma_subrange_concat(s, i, m, rest);
        lemma_member_inverts(v, k, acc, s, i);
        assert(i + m.len() + rest.len() == s.len());
        assert(s.subrange(i + m.len() as int, s.len() as int) == rest);
        lemma_after_inverts(v, s, i + m.len(), set_field(acc, v, k), k + 1);
    }
}

/// When some field is present, the serialized member list begins with a
/// quote (the first member's key).
proof fn lemma_ser_from_first_char(v: UserDataV, k: int)
    requires
        0 <= k < 6,
        any_present(v, k),
    ensures
        ser_from(v, k, true).len() > 0,
        ser_from(v, k, true)[0] == '"',
    decreases 6 - k,
{
    if !field_present(v, k) {
        assert(any_present(v, k) == (field_present(v, k) || any_present(v, k + 1)));
        if k == 5 {
            assert(!any_present(v, 6));
            assert(false);
        }
        lemma_ser_from_first_char(v, k + 1);
    } else {
        assert(member_text(v, k)[0] == '"');
    }
}

/// The round-trip law: parsing a serialized record yields the record
/// back, field for field, for every representable record; in particular
/// absent and present-but-empty fields stay distinguishable.
pub proof fn lemma_round_trip(v: UserDataV)
    ensures
        sp_parse(spec_serialize(v)) == Some(v),
{
    let s = spec_serialize(v);
    let body = ser_from(v, 0, true);
    assert(s == seq!['{'] + body);
    assert(s[0] == '{');
    assert(skip_ws(s, 0) == 0);
    if any_present(v, 0) {
        lemma_ser_from_first_char(v, 0);
        assert(s.len() >= 2);
        assert(s[1] == body[0]);
        assert(s[1] == '"');
        assert(skip_ws(s, 1) == 1);
        assert(s.subrange(1, s.len() as int) =~= body);
        lemma_members_inverts(v, s, 1, empty_record(), 0);
    } else {
        assert(!field_present(v, 0) && !any_present(v, 1));
        assert(!field_present(v, 1) && !any_present(v, 2));
        assert(!field_present(v, 2) && !any_present(v, 3));
        assert(!field_present(v, 3) && !any_present(v, 4));
        assert(!field_present(v, 4) && !any_present(v, 5));
        assert(!field_present(v, 5) && !any_present(v, 6));
        assert(ser_from(v, 6, true) == seq!['}']);
        assert(ser_from(v, 5, true) == seq!['}']);
        assert(ser_from(v, 4, true) == seq!['}']);
        assert(ser_from(v, 3, true) == seq!['}']);
        assert(ser_from(v, 2, true) == seq!['}']);
        assert(ser_from(v, 1, true) == seq!['}']);
        assert(body == seq!['}']);
        assert(s =~= seq!['{', '}']);
        assert(s.len() == 2 && s[0] == '{' && s[1] == '}');
        assert(skip_ws(s, 1) == 1);
        assert(skip_ws(s, 2) == 2);
        assert(v == empty_record());
    }
}

} // verus!

//! The status record model: the data entity a user publishes, the
//! field-level merge used for partial updates, and the username validator
//! that guards every storage and credential lookup.

use vstd::prelude::*;

verus! {

/// The kind of media named by a record's `media` field.
#[derive(Clone, Copy, PartialEq, Eq, Structural, Debug)]
pub enum MediaType {
    Unspecified,
    Text,
    Movie,
    TVShow,
    Music,
    Speech,
    Game,
}

/// A reference to a user's avatar image, original resolution only.
#[derive(Debug, PartialEq)]
pub struct Avatar {
    pub original: String,
}

impl Clone for Avatar {
    fn clone(&self) -> (r: Self)
        ensures
            r@ == self@,
    {
        Avatar { original: self.original.clone() }
    }
}

impl View for Avatar {
    type V = Seq<char>;

    open spec fn view(&self) -> Seq<char> {
        self.original@
    }
}

/// One user's published status record.  Every field is independently
/// optional: absence means "unspecified", which is distinct from a
/// present-but-empty value.
#[derive(Debug, PartialEq)]
pub struct UserData {
    pub avatar: Option<Avatar>,
    pub name: Option<String>,
    pub status: Option<String>,
    pub emoji: Option<char>,
    pub media: Option<String>,
    pub media_type: Option<MediaType>,
}

/// The mathematical model of a record: each optional text field as an
/// optional sequence of characters.
pub ghost struct UserDataV {
    pub avatar: Option<Seq<char>>,
    pub name: Option<Seq<char>>,
    pub status: Option<Seq<char>>,
    pub emoji: Option<char>,
    pub media: Option<Seq<char>>,
    pub media_type: Option<MediaType>,
}

impl View for UserData {
    type V = UserDataV;

    open spec fn view(&self) -> UserDataV {
        UserDataV {
            avatar: match self.avatar {
                Some(a) => Some(a@),
                None => None,
            },
            name: match self.name {
                Some(s) => Some(s@),
                None => None,
            },
            status: match self.status {
                Some(s) => Some(s@),
                None => None,
            },
            emoji: self.emoji,
            media: match self.media {
                Some(s) => Some(s@),
                None => None,
            },
            media_type: self.media_type,
        }
    }
}

/// The record in which every field is absent: the unit of `spec_merge`,
/// and the base a first write for a username is merged against.
pub open spec fn empty_record() -> UserDataV {
    UserDataV {
        avatar: None,
        name: None,
        status: None,
        emoji: None,
        media: None,
        media_type: None,
    }
}

/// Field-level last-writer-wins merge: a field present in `update`
/// replaces the base's field, an absent one leaves it unchanged.
pub open spec fn spec_merge(base: UserDataV, update: UserDataV) -> UserDataV {
    UserDataV {
        avatar: if update.avatar is Some {
            update.avatar
        } else {
            base.avatar
        },
        name: if update.name is Some {
            update.name
        } else {
            base.name
        },
        status: if update.status is Some {
            update.status
        } else {
            base.status
        },
        emoji: if update.emoji is Some {
            update.emoji
        } else {
            base.emoji
        },
        media: if update.media is Some {
            update.media
        } else {
            base.media
        },
        media_type: if update.media_type is Some {
            update.media_type
        } else {
            base.media_type
        },
    }
}

impl UserData {
    /// A record with every field absent.
    pub fn new() -> (r: UserData)
        ensures
            r@ == empty_record(),
    {
        UserData {
            avatar: None,
            name: None,
            status: None,
            emoji: None,
            media: None,
            media_type: None,
        }
    }

    /// Merge a partial update into this record, field by field: each field
    /// present in `update` overwrites, each absent one is retained.  Total:
    /// it never fails.
    pub fn update_status_fields(&self, update: UserData) -> (r: UserData)
        ensures
            r@ == spec_merge(self@, update@),
    {
        let avatar = if update.avatar.is_some() {
            update.avatar
        } else {
            match &self.avatar {
                Some(a) => Some(a.clone()),
                None => None,
            }
        };
        let name = if update.name.is_some() {
            update.name
        } else {
            match &self.name {
                Some(s) => Some(s.clone()),
                None => None,
            }
        };
        let status = if update.status.is_some() {
            update.status
        } else {
            match &self.status {
                Some(s) => Some(s.clone()),
                None => None,
            }
        };
        let emoji = if update.emoji.is_some() {
            update.emoji
        } else {
            self.emoji
        };
        let media = if update.media.is_some() {
            update.media
        } else {
            match &self.media {
                Some(s) => Some(s.clone()),
                None => None,
            }
        };
        let media_type = if update.media_type.is_some() {
            update.media_type
        } else {
            self.media_type
        };
        UserData { avatar, name, status, emoji, media, media_type }
    }
}

/// Merging the all-absent update into any record leaves it unchanged.
pub proof fn lemma_merge_identity(r: UserDataV)
    ensures
        spec_merge(r, empty_record()) == r,
{
}

/// Applying the same update twice yields the same record as applying it
/// once: the merge behind a partial update is idempotent.
pub proof fn lemma_merge_idempotent(base: UserDataV, update: UserDataV)
    ensures
        spec_merge(spec_merge(base, update), update) == spec_merge(base, update),
{
}

/// Merge overwrites exactly the fields present in the update, and
/// retains exactly the base's absent ones — independently for each of
/// the six fields.
pub proof fn lemma_merge_overwrite(base: UserDataV, update: UserDataV)
    ensures
        update.avatar is Some ==> spec_merge(base, update).avatar == update.avatar,
        update.avatar is None ==> spec_merge(base, update).avatar == base.avatar,
        update.name is Some ==> spec_merge(base, update).name == update.name,
        update.name is None ==> spec_merge(base, update).name == base.name,
        update.status is Some ==> spec_merge(base, update).status == update.status,
        update.status is None ==> spec_merge(base, update).status == base.status,
        update.emoji is Some ==> spec_merge(base, update).emoji == update.emoji,
        update.emoji is None ==> spec_merge(base, update).emoji == base.emoji,
        update.media is Some ==> spec_merge(base, update).media == update.media,
        update.media is None ==> spec_merge(base, update).media == base.media,
        update.media_type is Some ==> spec_merge(base, update).media_type == update.media_type,
        update.media_type is None ==> spec_merge(base, update).media_type == base.media_type,
{
}

/// Updates that set disjoint fields commute, and neither is lost: applied
/// in either order, every field present in one of them ends up in the
/// result.
pub proof fn lemma_disjoint_updates_commute(base: UserDataV, u1: UserDataV, u2: UserDataV)
    requires
        !(u1.avatar is Some && u2.avatar is Some),
        !(u1.name is Some && u2.name is Some),
        !(u1.status is Some && u2.status is Some),
        !(u1.emoji is Some && u2.emoji is Some),
        !(u1.media is Some && u2.media is Some),
        !(u1.media_type is Some && u2.media_type is Some),
    ensures
        spec_merge(spec_merge(base, u1), u2) == spec_merge(spec_merge(base, u2), u1),
        u1.status is Some ==> spec_merge(spec_merge(base, u1), u2).status == u1.status,
        u2.status is Some ==> spec_merge(spec_merge(base, u1), u2).status == u2.status,
        u1.emoji is Some ==> spec_merge(spec_merge(base, u1), u2).emoji == u1.emoji,
        u2.emoji is Some ==> spec_merge(spec_merge(base, u1), u2).emoji == u2.emoji,
{
}

/// A character allowed in a canonical username: ASCII lower-case letters,
/// digits, `-` and `_`.  In particular no path separators, so a username
/// is safe to use as a storage key.
pub open spec fn valid_username_char(c: char) -> bool {
    ('a' <= c && c <= 'z') || ('0' <= c && c <= '9') || c == '-' || c == '_'
}

/// A canonical username: nonempty, at most 64 characters, drawn from the
/// safe character set.
pub open spec fn spec_valid_username(s: Seq<char>) -> bool {
    &&& 1 <= s.len() <= 64
    &&& forall|i: int| 0 <= i < s.len() ==> valid_username_char(#[trigger] s[i])
}

/// Decide whether `username` is canonical: nonempty, at most 64
/// characters, each from `[a-z0-9_-]`.  Every storage and credential
/// lookup is guarded by this check.
pub fn validate_username(username: &str) -> (r: bool)
    ensures
        r == spec_valid_username(username@),
{
    let len = username.unicode_len();
    if len == 0 || len > 64 {
        return false;
    }
    let mut i: usize = 0;
    while i < len
        invariant
            len == username@.len(),
            1 <= len <= 64,
            0 <= i <= len,
            forall|j: int| 0 <= j < i ==> valid_username_char(#[trigger] username@[j]),
        decreases len - i,
    {
        let c = username.get_char(i);
        let ok = ('a' <= c && c <= 'z') || ('0' <= c && c <= '9') || c == '-' || c == '_';
        if !ok {
            return false;
        }
        i = i + 1;
    }
    true
}

} // verus!

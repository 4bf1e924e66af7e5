//! The server core: the in-memory resource store (the durable mapping
//! from username to status record, modelled as a map) and the request
//! handler that ties the router, the auth gate, the codec and the store
//! together.  The handler is a pure state transformer: transport I/O
//! stays outside, handing in a plain request and taking back a plain
//! response.
//!
//! Requests for one username must be handled one at a time (per-username
//! mutual exclusion); the handler itself never interleaves a
//! read-merge-write cycle, so a serialized sequence of calls never loses
//! an update or exposes a partial one.

use vstd::prelude::*;
use crate::auth::{check_basic_auth, spec_basic_auth, CredentialStore};
use crate::codec::spec_serialize;
use crate::parse::sp_parse;
use crate::record::{empty_record, spec_merge, spec_valid_username, validate_username, UserData,
    UserDataV};
use crate::router::{op_is_mutating, op_username, route, spec_route, Method, Operation,
    OperationV};

verus! {

/// The members of a record store, newest last: a later entry for a
/// username supersedes an earlier one.
pub open spec fn entries_map(s: Seq<(String, UserData)>) -> Map<Seq<char>, UserDataV>
    decreases s.len(),
{
    if s.len() == 0 {
        Map::empty()
    } else {
        entries_map(s.drop_last()).insert(s.last().0@, s.last().1@)
    }
}

/// The resource store: the durable keyed mapping from username to its
/// status record.  Its model is a map; a write appends, and a read takes
/// the newest entry, so a reader never observes a partial write.
pub struct StatusStore {
    entries: Vec<(String, UserData)>,
}

impl View for StatusStore {
    type V = Map<Seq<char>, UserDataV>;

    closed spec fn view(&self) -> Map<Seq<char>, UserDataV> {
        entries_map(self.entries@)
    }
}

impl StatusStore {
    /// An empty store: no username has a record yet.
    pub fn new() -> (r: StatusStore)
        ensures
            r@ == Map::<Seq<char>, UserDataV>::empty(),
    {
        StatusStore { entries: Vec::new() }
    }

    /// The stored record for `username`, if one exists.
    pub fn get(&self, username: &str) -> (r: Option<&UserData>)
        ensures
            match r {
                Some(d) => self@.contains_key(username@) && d@ == self@[username@],
                None => !self@.contains_key(username@),
            },
    {
        let mut j = self.entries.len();
        proof {
            assert(self.entries@.take(j as int) =~= self.entries@);
        }
        while j > 0
            invariant
                0 <= j <= self.entries@.len(),
                self@.contains_key(username@) == entries_map(
                    self.entries@.take(j as int),
                ).contains_key(username@),
                entries_map(self.entries@.take(j as int)).contains_key(username@) ==> self@[
                    username@
                ] == entries_map(self.entries@.take(j as int))[username@],
            decreases j,
        {
            proof {
                assert(self.entries@.take(j as int).drop_last() =~= self.entries@.take(j - 1));
                assert(self.entries@.take(j as int).last() == self.entries@[j - 1]);
            }
            if crate::chars::str_eq(self.entries[j - 1].0.as_str(), username) {
                return Some(&self.entries[j - 1].1);
            }
            j = j - 1;
        }
        proof {
            assert(self.entries@.take(0) =~= Seq::<(String, UserData)>::empty());
        }
        None
    }

    /// Store `data` as the record for `username`, superseding any
    /// earlier record.  The write is whole-record: no reader can see a
    /// half-written value.
    pub fn set(&mut self, username: &str, data: UserData)
        ensures
            final(self)@ == old(self)@.insert(username@, data@),
    {
        let key = username.to_owned();
        self.entries.push((key, data));
        proof {
            assert(self.entries@.drop_last() =~= old(self).entries@);
        }
    }
}

/// A request as the core sees it: transport details reduced to plain
/// values.
pub struct Request {
    pub method: Method,
    pub path: String,
    pub auth: Option<String>,
    pub body: String,
}

/// The model of a request.
pub ghost struct RequestV {
    pub method: Method,
    pub path: Seq<char>,
    pub auth: Option<Seq<char>>,
    pub body: Seq<char>,
}

impl View for Request {
    type V = RequestV;

    open spec fn view(&self) -> RequestV {
        RequestV {
            method: self.method,
            path: self.path@,
            auth: match self.auth {
                Some(h) => Some(h@),
                None => None,
            },
            body: self.body@,
        }
    }
}

/// A response: a status code and a human-readable or serialized body.
pub struct Response {
    pub status: u16,
    pub body: String,
}

/// The model of a handled request: what is sent back, and the store
/// afterwards.
pub ghost struct HandleOut {
    pub status: u16,
    pub body: Seq<char>,
    pub store: Map<Seq<char>, UserDataV>,
}

/// What handling a request does, as a function of the store, the
/// credential document and the request: the routing table of
/// `spec_route`, the auth gate of `spec_basic_auth` on every mutating
/// operation, the codec on bodies, and field-level merge on updates.
/// Status codes: 200 success, 204 preflight, 400 client fault, 401 auth
/// failure, 404 record absent, 405 method not allowed, 501
/// acknowledged-but-unimplemented.
pub open spec fn spec_handle(
    store: Map<Seq<char>, UserDataV>,
    db: Seq<char>,
    req: RequestV,
) -> HandleOut {
    let op = spec_route(req.method, req.path);
    match op {
        OperationV::ServeRobots => HandleOut {
            status: 200,
            body: "User-agent: *\nDisallow: /\n"@,
            store,
        },
        OperationV::CorsPreflight => HandleOut { status: 204, body: Seq::empty(), store },
        OperationV::UserQuery => HandleOut {
            status: 501,
            body: "Status queries are not implemented yet"@,
            store,
        },
        OperationV::GetStatus { username } => {
            if !spec_valid_username(username) {
                HandleOut { status: 400, body: "Invalid username"@, store }
            } else if store.contains_key(username) {
                HandleOut { status: 200, body: spec_serialize(store[username]), store }
            } else {
                HandleOut {
                    status: 404,
                    body: "Username does not have a status on this server"@,
                    store,
                }
            }
        },
        OperationV::PatchStatus { username } => {
            if !spec_basic_auth(req.auth, db, username) {
                HandleOut { status: 401, body: "Unauthorized"@, store }
            } else {
                match sp_parse(req.body) {
                    None => HandleOut { status: 400, body: "Malformed status record"@, store },
                    Some(update) => {
                        let base = if store.contains_key(username) {
                            store[username]
                        } else {
                            empty_record()
                        };
                        HandleOut {
                            status: 200,
                            body: Seq::empty(),
                            store: store.insert(username, spec_merge(base, update)),
                        }
                    },
                }
            }
        },
        OperationV::PutAvatar { username } => {
            if !spec_basic_auth(req.auth, db, username) {
                HandleOut { status: 401, body: "Unauthorized"@, store }
            } else {
                HandleOut { status: 501, body: "Avatars are not implemented yet"@, store }
            }
        },
        OperationV::DeleteAvatar { username } => {
            if !spec_basic_auth(req.auth, db, username) {
                HandleOut { status: 401, body: "Unauthorized"@, store }
            } else {
                HandleOut { status: 501, body: "Avatars are not implemented yet"@, store }
            }
        },
        OperationV::InvalidAvatarMethod => HandleOut {
            status: 400,
            body: "Invalid method for avatar operations"@,
            store,
        },
        OperationV::GetFollowing { username } => HandleOut {
            status: 501,
            body: "Following lists are not implemented yet"@,
            store,
        },
        OperationV::PatchFollowing { username } => {
            if !spec_basic_auth(req.auth, db, username) {
                HandleOut { status: 401, body: "Unauthorized"@, store }
            } else {
                HandleOut { status: 501, body: "Following lists are not implemented yet"@, store }
            }
        },
        OperationV::InvalidFollowingMethod => HandleOut {
            status: 405,
            body: "Invalid method for following operations"@,
            store,
        },
        OperationV::NotAllowed => HandleOut {
            status: 405,
            body: "Invalid path or method"@,
            store,
        },
    }
}

/// The server core: the resource store and the credential store.
pub struct Server {
    pub store: StatusStore,
    pub creds: CredentialStore,
}

impl Server {
    /// A server over the given credential document, with no records yet.
    pub fn new(credential_db: &str) -> (r: Server)
        ensures
            r.store@ == Map::<Seq<char>, UserDataV>::empty(),
            r.creds@ == credential_db@,
    {
        Server { store: StatusStore::new(), creds: CredentialStore::new(credential_db) }
    }

    /// Handle one request: exactly `spec_handle` over the request and
    /// the current store.  In particular a mutating request whose
    /// Basic-auth header does not authenticate as exactly the path's
    /// username is answered 401 and changes no stored state.
    pub fn handle_request(&mut self, req: &Request) -> (r: Response)
        ensures
            ({
                let out = spec_handle(old(self).store@, old(self).creds@, req@);
                &&& r.status == out.status
                &&& r.body@ == out.body
                &&& final(self).store@ == out.store
            }),
            final(self).creds@ == old(self).creds@,
            ({
                let op = spec_route(req@.method, req@.path);
                op_is_mutating(op) && !spec_basic_auth(req@.auth, old(self).creds@, op_username(op))
                    ==> r.status == 401 && final(self).store@ == old(self).store@
            }),
    {
        let op = route(req.method, req.path.as_str());
        let auth_header = match &req.auth {
            Some(h) => Some(h.as_str()),
            None => None,
        };
        match op {
            Operation::ServeRobots => Response {
                status: 200,
                body: "User-agent: *\nDisallow: /\n".to_owned(),
            },
            Operation::CorsPreflight => Response { status: 204, body: String::new() },
            Operation::UserQuery => Response {
                status: 501,
                body: "Status queries are not implemented yet".to_owned(),
            },
            Operation::GetStatus { username } => {
                if !validate_username(username.as_str()) {
                    Response { status: 400, body: "Invalid username".to_owned() }
                } else {
                    match self.store.get(username.as_str()) {
                        Some(d) => Response { status: 200, body: d.serialize() },
                        None => Response {
                            status: 404,
                            body: "Username does not have a status on this server".to_owned(),
                        },
                    }
                }
            },
            Operation::PatchStatus { username } => {
                if !check_basic_auth(auth_header, username.as_str(), &self.creds) {
                    Response { status: 401, body: "Unauthorized".to_owned() }
                } else {
                    match UserData::parse(req.body.as_str()) {
                        Err(_) => Response {
                            status: 400,
                            body: "Malformed status record".to_owned(),
                        },
                        Ok(update) => {
                            let merged = match self.store.get(username.as_str()) {
                                Some(base) => base.update_status_fields(update),
                                None => UserData::new().update_status_fields(update),
                            };
                            self.store.set(username.as_str(), merged);
                            Response { status: 200, body: String::new() }
                        },
                    }
                }
            },
            Operation::PutAvatar { username } => {
                if !check_basic_auth(auth_header, username.as_str(), &self.creds) {
                    Response { status: 401, body: "Unauthorized".to_owned() }
                } else {
                    Response { status: 501, body: "Avatars are not implemented yet".to_owned() }
                }
            },
            Operation::DeleteAvatar { username } => {
                if !check_basic_auth(auth_header, username.as_str(), &self.creds) {
                    Response { status: 401, body: "Unauthorized".to_owned() }
                } else {
                    Response { status: 501, body: "Avatars are not implemented yet".to_owned() }
                }
            },
            Operation::InvalidAvatarMethod => Response {
                status: 400,
                body: "Invalid method for avatar operations".to_owned(),
            },
            Operation::GetFollowing { username: _ } => Response {
                status: 501,
                body: "Following lists are not implemented yet".to_owned(),
            },
            Operation::PatchFollowing { username } => {
                if !check_basic_auth(auth_header, username.as_str(), &self.creds) {
                    Response { status: 401, body: "Unauthorized".to_owned() }
                } else {
                    Response {
                        status: 501,
                        body: "Following lists are not implemented yet".to_owned(),
                    }
                }
            },
            Operation::InvalidFollowingMethod => Response {
                status: 405,
                body: "Invalid method for following operations".to_owned(),
            },
            Operation::NotAllowed => Response {
                status: 405,
                body: "Invalid path or method".to_owned(),
            },
        }
    }
}

/// The authorization gate: a request that mutates one user's record,
/// carrying credentials that authenticate as a *different* user, is
/// rejected with 401 and changes no stored state — a valid credential
/// for user A can never touch user B's record.
pub proof fn lemma_authorization_gate(
    store: Map<Seq<char>, UserDataV>,
    db: Seq<char>,
    req: RequestV,
    other: Seq<char>,
)
    requires
        op_is_mutating(spec_route(req.method, req.path)),
        other != op_username(spec_route(req.method, req.path)),
        spec_basic_auth(req.auth, db, other),
    ensures
        spec_handle(store, db, req).status == 401,
        spec_handle(store, db, req).store == store,
{
    let op = spec_route(req.method, req.path);
    crate::auth::lemma_auth_exclusive(req.auth, db, other, op_username(op));
}

/// Two partial updates to the same username that set disjoint fields
/// leave the same stored state in whichever order they are handled: no
/// update is lost.  Under the required per-username serialization,
/// concurrent PATCHes land in some order, so each of their fields
/// appears in the final record (see `lemma_disjoint_updates_commute`
/// for the field-by-field account).
pub proof fn lemma_disjoint_patches_commute(
    store: Map<Seq<char>, UserDataV>,
    db: Seq<char>,
    req1: RequestV,
    req2: RequestV,
)
    requires
        spec_route(req1.method, req1.path) is PatchStatus,
        spec_route(req2.method, req2.path) is PatchStatus,
        op_username(spec_route(req1.method, req1.path)) == op_username(
            spec_route(req2.method, req2.path),
        ),
        spec_basic_auth(req1.auth, db, op_username(spec_route(req1.method, req1.path))),
        spec_basic_auth(req2.auth, db, op_username(spec_route(req2.method, req2.path))),
        sp_parse(req1.body) is Some,
        sp_parse(req2.body) is Some,
        ({
            let u1 = sp_parse(req1.body)->0;
            let u2 = sp_parse(req2.body)->0;
            &&& !(u1.avatar is Some && u2.avatar is Some)
            &&& !(u1.name is Some && u2.name is Some)
            &&& !(u1.status is Some && u2.status is Some)
            &&& !(u1.emoji is Some && u2.emoji is Some)
            &&& !(u1.media is Some && u2.media is Some)
            &&& !(u1.media_type is Some && u2.media_type is Some)
        }),
    ensures
        spec_handle(spec_handle(store, db, req1).store, db, req2).store == spec_handle(
            spec_handle(store, db, req2).store,
            db,
            req1,
        ).store,
{
    let u = op_username(spec_route(req1.method, req1.path));
    let u1 = sp_parse(req1.body)->0;
    let u2 = sp_parse(req2.body)->0;
    let base = if store.contains_key(u) {
        store[u]
    } else {
        empty_record()
    };
    crate::record::lemma_disjoint_updates_commute(base, u1, u2);
    assert(spec_handle(spec_handle(store, db, req1).store, db, req2).store =~= spec_handle(
        spec_handle(store, db, req2).store,
        db,
        req1,
    ).store);
}

/// Handling the same request twice leaves the same stored state as
/// handling it once: in particular a repeated partial update changes
/// nothing the first application did not already change.
pub proof fn lemma_handle_idempotent(
    store: Map<Seq<char>, UserDataV>,
    db: Seq<char>,
    req: RequestV,
)
    ensures
        spec_handle(spec_handle(store, db, req).store, db, req).store == spec_handle(
            store,
            db,
            req,
        ).store,
{
    let op = spec_route(req.method, req.path);
    let once = spec_handle(store, db, req).store;
    if op is PatchStatus {
        let username = op->PatchStatus_username;
        if spec_basic_auth(req.auth, db, username) {
            match sp_parse(req.body) {
                None => {},
                Some(update) => {
                    let base = if store.contains_key(username) {
                        store[username]
                    } else {
                        empty_record()
                    };
                    crate::record::lemma_merge_idempotent(base, update);
                    assert(once.insert(username, spec_merge(once[username], update)) =~= once);
                },
            }
        }
    }
}

} // verus!

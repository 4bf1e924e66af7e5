use argon2::password_hash::{PasswordHasher, SaltString};
use femur::auth::CredentialStore;
use femur::router::{route, Method, Operation};
use femur::server::{Request, Server};

fn hash_of(password: &str) -> String {
    let salt = SaltString::from_b64("c29tZXNhbHQ").unwrap();
    argon2::Argon2::default().hash_password(password.as_bytes(), &salt).unwrap().to_string()
}

fn basic_header(user: &str, password: &str) -> String {
    format!("Basic {}", base64::encode(format!("{}:{}", user, password)))
}

fn get(server: &mut Server, user: &str) -> (u16, String) {
    let r = server.handle_request(&Request {
        method: Method::Get,
        path: format!("/.well-known/fmrl/user/{}", user),
        auth: None,
        body: String::new(),
    });
    (r.status, r.body)
}

fn patch(server: &mut Server, user: &str, auth: Option<String>, body: &str) -> (u16, String) {
    let r = server.handle_request(&Request {
        method: Method::Patch,
        path: format!("/.well-known/fmrl/user/{}", user),
        auth,
        body: body.to_string(),
    });
    (r.status, r.body)
}

#[test]
fn credential_store_lookup_and_verify() {
    let alice = hash_of("opensesame");
    let bob = hash_of("hunter2");
    let db = format!("alice {}\nbob\t {}\nbroken-line\n", alice, bob);
    let store = CredentialStore::new(&db);
    assert_eq!(store.lookup_hash("alice"), Some(alice.clone()));
    assert_eq!(store.lookup_hash("bob"), Some(bob));
    assert_eq!(store.lookup_hash("broken-line"), None);
    assert_eq!(store.lookup_hash("carol"), None);
    assert!(store.verify("alice", "opensesame"));
    assert!(!store.verify("alice", "wrong"));
    assert!(!store.verify("carol", "opensesame"));
    assert!(!store.verify("alic", "opensesame"));
}

#[test]
fn credential_store_ignores_garbage_hash() {
    let store = CredentialStore::new("alice not-a-phc-hash\n");
    assert_eq!(store.lookup_hash("alice"), Some("not-a-phc-hash".to_string()));
    assert!(!store.verify("alice", "anything"));
}

#[test]
fn end_to_end_patch_then_get() {
    let db = format!("alice {}\n", hash_of("opensesame"));
    let mut server = Server::new(&db);

    let (status, _) = get(&mut server, "alice");
    assert_eq!(status, 404);

    let auth = Some(basic_header("alice", "opensesame"));
    let (status, body) = patch(&mut server, "alice", auth.clone(), "{\"status\":\"hi\"}");
    assert_eq!((status, body.as_str()), (200, ""));

    let (status, body) = get(&mut server, "alice");
    assert_eq!(status, 200);
    assert_eq!(body, "{\"status\":\"hi\"}");

    let (status, _) = patch(&mut server, "alice", auth, "{\"emoji\":\"\u{1F642}\"}");
    assert_eq!(status, 200);

    let (status, body) = get(&mut server, "alice");
    assert_eq!(status, 200);
    assert_eq!(body, "{\"status\":\"hi\",\"emoji\":\"\u{1F642}\"}");
}

#[test]
fn auth_gate_rejects_and_preserves_state() {
    let db = format!("alice {}\n", hash_of("opensesame"));
    let mut server = Server::new(&db);

    let cases: Vec<Option<String>> = vec![
        None,
        Some("Bearer token".to_string()),
        Some("Basic ???not-base64???".to_string()),
        Some(format!("Basic {}", base64::encode([0xffu8, 0xfe, 0xff]))),
        Some(format!("Basic {}", base64::encode("alice"))),
        Some(format!("Basic {}", base64::encode("alice:a:b"))),
        Some(basic_header("alice", "wrong-password")),
        Some(basic_header("carol", "opensesame")),
    ];
    for auth in cases {
        let (status, _) = patch(&mut server, "alice", auth, "{\"status\":\"pwned\"}");
        assert_eq!(status, 401);
        let (status, _) = get(&mut server, "alice");
        assert_eq!(status, 404);
    }
}

#[test]
fn authorization_requires_path_user_to_match() {
    let db = format!(
        "alice {}\nmallory {}\n",
        hash_of("opensesame"),
        hash_of("muahaha"),
    );
    let mut server = Server::new(&db);

    let mallory = Some(basic_header("mallory", "muahaha"));
    let (status, _) = patch(&mut server, "alice", mallory, "{\"status\":\"pwned\"}");
    assert_eq!(status, 401);
    let (status, _) = get(&mut server, "alice");
    assert_eq!(status, 404);
}

#[test]
fn patch_is_idempotent_on_stored_state() {
    let db = format!("alice {}\n", hash_of("opensesame"));
    let mut server = Server::new(&db);
    let auth = Some(basic_header("alice", "opensesame"));
    patch(&mut server, "alice", auth.clone(), "{\"name\":\"Alice\",\"emoji\":\"a\"}");
    let (_, once) = get(&mut server, "alice");
    patch(&mut server, "alice", auth, "{\"name\":\"Alice\",\"emoji\":\"a\"}");
    let (_, twice) = get(&mut server, "alice");
    assert_eq!(once, twice);
}

#[test]
fn sequential_disjoint_patches_keep_every_field() {
    let db = format!("alice {}\n", hash_of("opensesame"));
    let mut server = Server::new(&db);
    let auth = Some(basic_header("alice", "opensesame"));
    patch(&mut server, "alice", auth.clone(), "{\"name\":\"Alice\"}");
    patch(&mut server, "alice", auth.clone(), "{\"status\":\"here\"}");
    patch(&mut server, "alice", auth, "{\"media\":\"Radio\"}");
    let (_, body) = get(&mut server, "alice");
    let parsed = femur::record::UserData::parse(&body).unwrap();
    assert_eq!(parsed.name, Some("Alice".to_string()));
    assert_eq!(parsed.status, Some("here".to_string()));
    assert_eq!(parsed.media, Some("Radio".to_string()));
}

#[test]
fn malformed_patch_body_is_client_fault() {
    let db = format!("alice {}\n", hash_of("opensesame"));
    let mut server = Server::new(&db);
    let auth = Some(basic_header("alice", "opensesame"));
    let (status, _) = patch(&mut server, "alice", auth, "{\"status\":broken}");
    assert_eq!(status, 400);
    let (status, _) = get(&mut server, "alice");
    assert_eq!(status, 404);
}

#[test]
fn invalid_username_is_rejected() {
    let db = format!("alice {}\n", hash_of("opensesame"));
    let mut server = Server::new(&db);
    let (status, _) = get(&mut server, "No%20Such");
    assert_eq!(status, 400);
    let auth = Some(basic_header("alice", "opensesame"));
    let (status, _) = patch(&mut server, "UPPER", auth, "{\"status\":\"hi\"}");
    assert_eq!(status, 401);
}

#[test]
fn routing_table_priorities() {
    assert_eq!(route(Method::Get, "/robots.txt"), Operation::ServeRobots);
    assert_eq!(route(Method::Options, "/anything"), Operation::CorsPreflight);
    assert_eq!(route(Method::Get, "/.well-known/fmrl/users?user=a"), Operation::UserQuery);
    assert_eq!(
        route(Method::Patch, "/.well-known/fmrl/user/alice"),
        Operation::PatchStatus { username: "alice".to_string() },
    );
    assert_eq!(
        route(Method::Get, "/.well-known/fmrl/user/alice"),
        Operation::GetStatus { username: "alice".to_string() },
    );
    assert_eq!(
        route(Method::Put, "/.well-known/fmrl/user/alice/avatar"),
        Operation::PutAvatar { username: "alice".to_string() },
    );
    assert_eq!(
        route(Method::Delete, "/.well-known/fmrl/user/alice/avatar"),
        Operation::DeleteAvatar { username: "alice".to_string() },
    );
    assert_eq!(
        route(Method::Post, "/.well-known/fmrl/user/alice/avatar"),
        Operation::InvalidAvatarMethod,
    );
    assert_eq!(
        route(Method::Get, "/.well-known/fmrl/user/alice/following"),
        Operation::GetFollowing { username: "alice".to_string() },
    );
    assert_eq!(
        route(Method::Patch, "/.well-known/fmrl/user/alice/following"),
        Operation::PatchFollowing { username: "alice".to_string() },
    );
    assert_eq!(
        route(Method::Put, "/.well-known/fmrl/user/alice/following"),
        Operation::InvalidFollowingMethod,
    );
    assert_eq!(route(Method::Get, "/elsewhere"), Operation::NotAllowed);
    assert_eq!(route(Method::Post, "/.well-known/fmrl/users"), Operation::NotAllowed);
}

#[test]
fn unimplemented_operations_answer_their_contract_codes() {
    let db = format!("alice {}\n", hash_of("opensesame"));
    let mut server = Server::new(&db);
    let auth = Some(basic_header("alice", "opensesame"));

    let robots = server.handle_request(&Request {
        method: Method::Get,
        path: "/robots.txt".to_string(),
        auth: None,
        body: String::new(),
    });
    assert_eq!(robots.status, 200);
    assert_eq!(robots.body, "User-agent: *\nDisallow: /\n");

    let preflight = server.handle_request(&Request {
        method: Method::Options,
        path: "/.well-known/fmrl/user/alice".to_string(),
        auth: None,
        body: String::new(),
    });
    assert_eq!((preflight.status, preflight.body.as_str()), (204, ""));

    let query = server.handle_request(&Request {
        method: Method::Get,
        path: "/.well-known/fmrl/users?user=alice".to_string(),
        auth: None,
        body: String::new(),
    });
    assert_eq!(query.status, 501);

    let put_avatar = server.handle_request(&Request {
        method: Method::Put,
        path: "/.well-known/fmrl/user/alice/avatar".to_string(),
        auth: auth.clone(),
        body: String::new(),
    });
    assert_eq!(put_avatar.status, 501);

    let put_avatar_unauth = server.handle_request(&Request {
        method: Method::Put,
        path: "/.well-known/fmrl/user/alice/avatar".to_string(),
        auth: None,
        body: String::new(),
    });
    assert_eq!(put_avatar_unauth.status, 401);

    let bad_avatar_method = server.handle_request(&Request {
        method: Method::Post,
        path: "/.well-known/fmrl/user/alice/avatar".to_string(),
        auth: None,
        body: String::new(),
    });
    assert_eq!(bad_avatar_method.status, 400);

    let get_following = server.handle_request(&Request {
        method: Method::Get,
        path: "/.well-known/fmrl/user/alice/following".to_string(),
        auth: None,
        body: String::new(),
    });
    assert_eq!(get_following.status, 501);

    let patch_following_unauth = server.handle_request(&Request {
        method: Method::Patch,
        path: "/.well-known/fmrl/user/alice/following".to_string(),
        auth: None,
        body: String::new(),
    });
    assert_eq!(patch_following_unauth.status, 401);

    let patch_following = server.handle_request(&Request {
        method: Method::Patch,
        path: "/.well-known/fmrl/user/alice/following".to_string(),
        auth,
        body: String::new(),
    });
    assert_eq!(patch_following.status, 501);

    let bad_following_method = server.handle_request(&Request {
        method: Method::Put,
        path: "/.well-known/fmrl/user/alice/following".to_string(),
        auth: None,
        body: String::new(),
    });
    assert_eq!(bad_following_method.status, 405);

    let elsewhere = server.handle_request(&Request {
        method: Method::Get,
        path: "/elsewhere".to_string(),
        auth: None,
        body: String::new(),
    });
    assert_eq!((elsewhere.status, elsewhere.body.as_str()), (405, "Invalid path or method"));
}

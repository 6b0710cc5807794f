use user_site::routes::handle;
use user_site::routes::rocket;
use user_site::routes::serve_outcome;
use user_site::routes::status_of;
use user_site::routes::Method;
use user_site::routes::Reply;
use user_site::store::DbError;
use user_site::store::NewUser;
use user_site::store::NewUserInput;
use user_site::store::UserStore;

fn input(username: &str, email: &str, password: &str) -> NewUserInput {
    NewUserInput {
        username: username.to_string(),
        email: email.to_string(),
        password: password.to_string(),
    }
}

#[test]
fn create_returns_matching_row_with_positive_id() {
    let mut store = UserStore::new();
    let created = store
        .create(NewUser {
            username: "alice".to_string(),
            email: "alice@example.com".to_string(),
            password: "secret".to_string(),
        })
        .unwrap();
    assert!(created.id > 0);
    assert_eq!(created.id, 1);
    assert_eq!(created.username, "alice");
    assert_eq!(created.email, "alice@example.com");
    assert_eq!(created.password, "secret");
    assert!(!created.admin);
}

#[test]
fn create_accepts_empty_fields() {
    let mut store = UserStore::new();
    let created = store
        .create(NewUser {
            username: String::new(),
            email: String::new(),
            password: String::new(),
        })
        .unwrap();
    assert_eq!(created.username, "");
    assert_eq!(created.email, "");
    assert_eq!(created.password, "");
}

#[test]
fn read_never_created_is_absent() {
    let store = UserStore::new();
    assert!(store.read(42).is_none());
    let mut store = UserStore::new();
    store
        .create(NewUser {
            username: "a".to_string(),
            email: "a@x.com".to_string(),
            password: "p".to_string(),
        })
        .unwrap();
    assert!(store.read(7).is_none());
    assert!(store.read(-1).is_none());
}

#[test]
fn delete_then_read_is_absent() {
    let mut store = UserStore::new();
    let created = store
        .create(NewUser {
            username: "a".to_string(),
            email: "a@x.com".to_string(),
            password: "p".to_string(),
        })
        .unwrap();
    assert!(store.delete(created.id).is_some());
    assert!(store.read(created.id).is_none());
}

#[test]
fn delete_missing_gives_same_absence_signal() {
    let mut store = UserStore::new();
    // a delete that affected no row and a lookup of a missing row answer
    // with the same absence, not a distinct error
    assert!(store.delete(5).is_none());
    assert!(store.read(5).is_none());
}

#[test]
fn ids_keep_growing_after_delete() {
    let mut store = UserStore::new();
    let a = store
        .create(NewUser {
            username: "a".to_string(),
            email: "a@x.com".to_string(),
            password: "p".to_string(),
        })
        .unwrap();
    assert!(store.delete(a.id).is_some());
    let b = store
        .create(NewUser {
            username: "b".to_string(),
            email: "b@x.com".to_string(),
            password: "q".to_string(),
        })
        .unwrap();
    assert_eq!(b.id, 2);
}

#[test]
fn create_fails_when_id_space_is_exhausted() {
    let mut store = UserStore::starting_at(i32::MAX);
    let r = store.create(NewUser {
        username: "a".to_string(),
        email: "a@x.com".to_string(),
        password: "p".to_string(),
    });
    match r {
        Err(e) => assert_eq!(e, DbError),
        Ok(_) => panic!("the exhausted store must refuse the insert"),
    }
}

#[test]
fn crud_round_trip_through_the_routes() {
    let mut app = rocket();
    let body = input("a", "a@x.com", "p");
    let reply = handle(&mut app, Method::Post, "/diesel/", Some(&body));
    assert_eq!(status_of(&reply), 201);
    let id = match reply {
        Reply::Created { location, user } => {
            assert_eq!(location, "/");
            assert!(user.id > 0);
            assert_eq!(user.username, "a");
            assert_eq!(user.email, "a@x.com");
            assert_eq!(user.password, "p");
            assert!(!user.admin);
            user.id
        }
        _ => panic!("expected a created reply"),
    };

    let path = format!("/diesel/{}", id);
    let reply = handle(&mut app, Method::Get, &path, None);
    assert_eq!(status_of(&reply), 200);
    match reply {
        Reply::UserJson { user } => {
            assert_eq!(user.id, id);
            assert_eq!(user.username, "a");
            assert_eq!(user.email, "a@x.com");
            assert_eq!(user.password, "p");
        }
        _ => panic!("expected the row back"),
    }

    let reply = handle(&mut app, Method::Delete, &path, None);
    assert_eq!(status_of(&reply), 200);
    assert!(matches!(reply, Reply::Deleted));

    let reply = handle(&mut app, Method::Get, &path, None);
    assert_eq!(status_of(&reply), 404);
    assert!(matches!(reply, Reply::NotFound));
}

#[test]
fn read_endpoint_of_unknown_id_is_not_found() {
    let mut app = rocket();
    let reply = handle(&mut app, Method::Get, "/diesel/9", None);
    assert_eq!(status_of(&reply), 404);
    assert!(matches!(reply, Reply::NotFound));
}

#[test]
fn delete_endpoint_of_unknown_id_is_not_found() {
    let mut app = rocket();
    let reply = handle(&mut app, Method::Delete, "/diesel/9", None);
    assert_eq!(status_of(&reply), 404);
    assert!(matches!(reply, Reply::NotFound));
}

#[test]
fn create_without_body_is_rejected() {
    let mut app = rocket();
    let reply = handle(&mut app, Method::Post, "/diesel/", None);
    assert_eq!(status_of(&reply), 400);
    assert!(matches!(reply, Reply::BadRequest));
}

#[test]
fn create_on_exhausted_store_is_a_server_error() {
    let mut app = rocket();
    app.store = UserStore::starting_at(i32::MAX);
    let body = input("a", "a@x.com", "p");
    let reply = handle(&mut app, Method::Post, "/diesel/", Some(&body));
    assert_eq!(status_of(&reply), 500);
    assert!(matches!(reply, Reply::ServerError));
}

#[test]
fn missing_static_file_is_absence_never_a_server_error() {
    assert_eq!(serve_outcome(false), 404);
    assert_eq!(serve_outcome(true), 200);
    let mut app = rocket();
    let reply = handle(&mut app, Method::Get, "/no-such-page.html", None);
    match reply {
        Reply::File { path } => assert_eq!(path, "static/no-such-page.html"),
        _ => panic!("a leading-slash path must fall through to the assets"),
    }
}

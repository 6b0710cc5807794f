use user_site::routes::asset_file;
use user_site::routes::css_file;
use user_site::routes::fais;
use user_site::routes::index;
use user_site::routes::register;
use user_site::routes::route;
use user_site::routes::Method;
use user_site::routes::RouteMatch;

#[test]
fn named_pages_map_to_their_files() {
    assert_eq!(index(), "static/index.html");
    assert_eq!(fais(), "static/fais.html");
    assert_eq!(register(), "static/register.html");
    assert!(matches!(route(Method::Get, "/"), RouteMatch::Home));
    assert!(matches!(route(Method::Get, "/fais"), RouteMatch::FaisPage));
    assert!(matches!(
        route(Method::Get, "/register"),
        RouteMatch::RegisterPage
    ));
}

#[test]
fn css_prefix_serves_the_asset_directory() {
    match route(Method::Get, "/css/site.css") {
        RouteMatch::CssAsset { rest } => assert_eq!(rest, "site.css"),
        _ => panic!("expected the css route"),
    }
    assert_eq!(css_file("site.css"), "static/site.css");
    assert_eq!(asset_file("img/logo.png"), "static/img/logo.png");
}

#[test]
fn other_paths_fall_through_to_the_asset_directory() {
    match route(Method::Get, "/about.html") {
        RouteMatch::Asset { rest } => assert_eq!(rest, "about.html"),
        _ => panic!("expected the asset fallthrough"),
    }
}

#[test]
fn user_endpoints_parse_their_id() {
    assert!(matches!(
        route(Method::Get, "/diesel/12"),
        RouteMatch::ReadUser { id: 12 }
    ));
    assert!(matches!(
        route(Method::Delete, "/diesel/-3"),
        RouteMatch::DeleteUser { id: -3 }
    ));
    assert!(matches!(route(Method::Post, "/diesel"), RouteMatch::CreateUser));
    assert!(matches!(route(Method::Post, "/diesel/"), RouteMatch::CreateUser));
}

#[test]
fn bad_id_segments_do_not_match_the_user_endpoints() {
    match route(Method::Get, "/diesel/abc") {
        RouteMatch::Asset { rest } => assert_eq!(rest, "diesel/abc"),
        _ => panic!("an unparsable id must fall through to the assets"),
    }
    assert!(matches!(
        route(Method::Delete, "/diesel/abc"),
        RouteMatch::NoMatch
    ));
    assert!(matches!(route(Method::Post, "/elsewhere"), RouteMatch::NoMatch));
    assert!(matches!(route(Method::Get, "no-slash"), RouteMatch::NoMatch));
}

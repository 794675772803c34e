use miniblog::Action;
use miniblog::Post;
use miniblog::Request;
use miniblog::Store;
use miniblog::handle;
use miniblog::route::Route;
use miniblog::route::parse_u64;
use miniblog::route::route;

fn seeded(n: u64) -> Store {
    let mut s = Store::new();
    let mut k: u64 = 0;
    while k < n {
        s.insert(format!("title {}", k + 1), format!("text {}", k + 1));
        k += 1;
    }
    s
}

fn page_posts(s: &mut Store, page: Option<u64>, per: Option<u64>) -> Vec<Post> {
    match handle(s, Request::List { page, posts_per_page: per }) {
        Action::ListPage { posts, .. } => posts,
        _ => panic!("listing did not answer with a page"),
    }
}

#[test]
fn listing_is_bounded_and_ascending() {
    let mut s = seeded(7);
    let p1 = page_posts(&mut s, Some(1), Some(5));
    assert_eq!(p1.len(), 5);
    let ids: Vec<u64> = p1.iter().map(|p| p.id).collect();
    assert_eq!(ids, vec![1, 2, 3, 4, 5]);
    let p2 = page_posts(&mut s, Some(2), Some(5));
    assert_eq!(p2.len(), 2);
    assert_eq!(p2[0].id, 6);
    assert_eq!(p2[1].id, 7);
    let p3 = page_posts(&mut s, Some(3), Some(5));
    assert!(p3.is_empty());
}

#[test]
fn num_pages_is_ceiling() {
    let s = seeded(7);
    assert_eq!(s.num_pages(5), 2);
    assert_eq!(s.num_pages(3), 3);
    assert_eq!(s.num_pages(7), 1);
    assert_eq!(s.num_pages(8), 1);
    assert_eq!(s.num_pages(1), 7);
    let empty = Store::new();
    assert_eq!(empty.num_pages(5), 0);
}

#[test]
fn page_zero_is_answered_as_page_one() {
    let mut s = seeded(3);
    let p = page_posts(&mut s, Some(0), Some(2));
    assert_eq!(p.len(), 2);
    assert_eq!(p[0].id, 1);
}

#[test]
fn listing_defaults_are_page_one_of_five() {
    let mut s = seeded(7);
    match handle(&mut s, Request::List { page: None, posts_per_page: None }) {
        Action::ListPage { posts, page, posts_per_page, num_pages } => {
            assert_eq!(page, 1);
            assert_eq!(posts_per_page, 5);
            assert_eq!(num_pages, 2);
            assert_eq!(posts.len(), 5);
        },
        _ => panic!("listing did not answer with a page"),
    }
}

#[test]
fn created_post_appears_in_listing() {
    let mut s = Store::new();
    match handle(
        &mut s,
        Request::Create { title: "T".to_owned(), text: "X".to_owned() },
    ) {
        Action::Redirect => {},
        _ => panic!("create did not redirect"),
    }
    let p1 = page_posts(&mut s, Some(1), None);
    assert!(p1.iter().any(|p| p.title == "T" && p.text == "X" && p.id == 1));
}

#[test]
fn update_keeps_id_and_fetch_sees_new_title() {
    let mut s = seeded(3);
    match handle(
        &mut s,
        Request::Update { id: 3, title: "New".to_owned(), text: "text 3".to_owned() },
    ) {
        Action::Redirect => {},
        _ => panic!("update did not redirect"),
    }
    let p = s.find(3).expect("post 3 is there");
    assert_eq!(p.id, 3);
    assert_eq!(p.title, "New");
}

#[test]
fn deleted_post_is_absent() {
    let mut s = seeded(3);
    match handle(&mut s, Request::Delete { id: 3 }) {
        Action::Redirect => {},
        _ => panic!("delete did not redirect"),
    }
    assert!(s.find(3).is_none());
    assert_eq!(s.count(), 2);
}

#[test]
fn missing_ids_give_the_structured_failure() {
    let mut s = seeded(1);
    assert!(matches!(handle(&mut s, Request::Edit { id: 9 }), Action::Missing));
    assert!(matches!(
        handle(&mut s, Request::Update { id: 9, title: "a".to_owned(), text: "b".to_owned() }),
        Action::Missing
    ));
    assert!(matches!(handle(&mut s, Request::Delete { id: 9 }), Action::Missing));
    assert_eq!(s.count(), 1);
}

#[test]
fn not_found_echoes_the_path() {
    let mut s = Store::new();
    match handle(&mut s, Request::Other { path: "/does-not-exist".to_owned() }) {
        Action::NotFound { uri } => assert_eq!(uri, "/does-not-exist"),
        _ => panic!("unknown path did not go to the not-found page"),
    }
    assert!(matches!(route("GET", "/does-not-exist"), Route::NotFound));
}

#[test]
fn update_with_identical_values_changes_nothing() {
    let mut s = Store::new();
    handle(&mut s, Request::Create { title: "T".to_owned(), text: "X".to_owned() });
    handle(&mut s, Request::Create { title: "U".to_owned(), text: "Y".to_owned() });
    let before: Vec<(u64, String, String)> = page_posts(&mut s, Some(1), None)
        .into_iter()
        .map(|p| (p.id, p.title, p.text))
        .collect();
    let fetched = match handle(&mut s, Request::Edit { id: 1 }) {
        Action::EditForm { post } => post,
        _ => panic!("edit did not answer with the form"),
    };
    match handle(
        &mut s,
        Request::Update { id: fetched.id, title: fetched.title, text: fetched.text },
    ) {
        Action::Redirect => {},
        _ => panic!("update did not redirect"),
    }
    let after: Vec<(u64, String, String)> = page_posts(&mut s, Some(1), None)
        .into_iter()
        .map(|p| (p.id, p.title, p.text))
        .collect();
    assert_eq!(before, after);
}

#[test]
fn ids_are_not_reused_after_delete() {
    let mut s = seeded(2);
    handle(&mut s, Request::Delete { id: 2 });
    let mut s2 = s;
    handle(&mut s2, Request::Create { title: "c".to_owned(), text: "d".to_owned() });
    let p = page_posts(&mut s2, Some(1), None);
    let ids: Vec<u64> = p.iter().map(|q| q.id).collect();
    assert_eq!(ids, vec![1, 3]);
}

#[test]
fn routes_match_the_table() {
    assert!(matches!(route("GET", "/"), Route::List));
    assert!(matches!(route("GET", "/new"), Route::NewForm));
    assert!(matches!(route("POST", "/"), Route::Create));
    assert!(matches!(route("GET", "/3"), Route::Edit { id: 3 }));
    assert!(matches!(route("POST", "/3"), Route::Update { id: 3 }));
    assert!(matches!(route("POST", "/delete/3"), Route::Delete { id: 3 }));
    assert!(matches!(route("GET", "/static/style.css"), Route::Static));
    assert!(matches!(route("PUT", "/"), Route::NotFound));
    assert!(matches!(route("GET", "/a/b"), Route::NotFound));
    assert!(matches!(route("POST", "/delete/"), Route::NotFound));
    assert!(matches!(route("POST", "/delete/x"), Route::NotFound));
    assert!(matches!(route("GET", ""), Route::NotFound));
}

#[test]
fn route_ids_cover_the_u64_range_and_no_more() {
    assert!(matches!(
        route("GET", "/18446744073709551615"),
        Route::Edit { id: u64::MAX }
    ));
    assert!(matches!(route("GET", "/18446744073709551616"), Route::NotFound));
}

#[test]
fn parse_u64_accepts_exactly_decimal_u64() {
    assert_eq!(parse_u64("42"), Some(42));
    assert_eq!(parse_u64("0"), Some(0));
    assert_eq!(parse_u64("007"), Some(7));
    assert_eq!(parse_u64("18446744073709551615"), Some(u64::MAX));
    assert_eq!(parse_u64("18446744073709551616"), None);
    assert_eq!(parse_u64(""), None);
    assert_eq!(parse_u64("4x"), None);
    assert_eq!(parse_u64("-1"), None);
}

use routs::routs::http::{Header, Router};

#[test]
fn header_set_get_del() {
    let mut h = Header::new();
    assert_eq!(h.get("Host"), None);
    h.set("Host", "x");
    assert_eq!(h.get("Host"), Some("x".to_string()));
    h.set("Host", "y");
    assert_eq!(h.get("Host"), Some("y".to_string()));
    assert_eq!(h.get("host"), None);
    h.set("Accept", "*/*");
    h.del("Host");
    assert_eq!(h.get("Host"), None);
    assert_eq!(h.get("Accept"), Some("*/*".to_string()));
    h.del("Missing");
    assert_eq!(h.get("Accept"), Some("*/*".to_string()));
}

#[test]
fn router_last_registration_wins() {
    let mut r: Router<u32> = Router::new();
    r.handle_func("/x", 1);
    r.handle_func("/x", 2);
    assert_eq!(r.get_handler("/x"), Some(&2));
    assert_eq!(r.get_handler("/y"), None);
}

#[test]
fn router_matches_exact_path_only() {
    let mut r: Router<u32> = Router::new();
    r.handle_func("/a", 7);
    assert_eq!(r.get_handler("/a/"), None);
    assert_eq!(r.get_handler("/A"), None);
    assert_eq!(r.get_handler("/a"), Some(&7));
    let c = r.clone();
    assert_eq!(c.get_handler("/a"), Some(&7));
}

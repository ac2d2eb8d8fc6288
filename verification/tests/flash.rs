use catalog::flash::{decode, encode, FlashData};
use tower_cookies::{Cookie, Cookies};

fn flash(kind: &str, message: &str) -> FlashData {
    FlashData { kind: kind.to_string(), message: message.to_string() }
}

#[test]
fn encode_marks_the_kind_and_keeps_the_message() {
    assert_eq!(encode(&flash("ok", "done")), ".o.k:done");
    assert_eq!(encode(&flash("", "")), ":");
    assert_eq!(encode(&flash("", "x")), ":x");
    assert_eq!(encode(&flash("a", "")), ".a:");
    assert_eq!(
        encode(&flash("success", "Person successfully added")),
        ".s.u.c.c.e.s.s:Person successfully added"
    );
}

#[test]
fn encode_is_not_the_identity_on_either_field() {
    let data = flash("success", "Genre successfully updated");
    let value = encode(&data);
    assert_ne!(value, data.kind);
    assert_ne!(value, data.message);
}

#[test]
fn decode_reads_what_encode_wrote() {
    for (kind, message) in [
        ("success", "Person successfully added"),
        ("", ""),
        (".:", ":.:."),
        ("a:b", "c.d"),
        ("été", "Dvořák ajouté"),
        ("..", "::"),
    ] {
        let data = flash(kind, message);
        assert_eq!(decode(&encode(&data)), Some(data));
    }
}

#[test]
fn decode_reads_given_values() {
    assert_eq!(decode(".o.k:done"), Some(flash("ok", "done")));
    assert_eq!(decode(":"), Some(flash("", "")));
    assert_eq!(decode("..:x"), Some(flash(".", "x")));
    assert_eq!(decode(".::"), Some(flash(":", "")));
    assert_eq!(decode("::"), Some(flash("", ":")));
}

#[test]
fn decode_of_an_unreadable_value_is_nothing() {
    assert_eq!(decode(""), None);
    assert_eq!(decode("."), None);
    assert_eq!(decode(".a"), None);
    assert_eq!(decode(".a.b"), None);
    assert_eq!(decode("a:b"), None);
    assert_eq!(decode(".a."), None);
    assert_eq!(decode("{\"kind\":\"success\"}"), None);
}

fn value_of(cookies: &Cookies, name: &str) -> Option<String> {
    cookies.get(name).map(|c| c.value().to_string())
}

#[test]
fn take_after_set_returns_the_message_once() {
    let mut cookies = Cookies::default();
    let data = flash("success", "Genre successfully added");
    catalog::flash::set(&mut cookies, &data);
    assert_eq!(
        value_of(&cookies, "_flash"),
        Some(".s.u.c.c.e.s.s:Genre successfully added".to_string())
    );
    assert_eq!(cookies.get("_flash").unwrap().path(), Some("/"));
    assert_eq!(catalog::flash::take(&mut cookies), Some(data));
    assert_eq!(value_of(&cookies, "_flash"), None);
    assert_eq!(catalog::flash::take(&mut cookies), None);
}

#[test]
fn set_overwrites_an_earlier_message() {
    let mut cookies = Cookies::default();
    catalog::flash::set(&mut cookies, &flash("success", "first"));
    catalog::flash::set(&mut cookies, &flash("error", "second"));
    assert_eq!(cookies.list().len(), 1);
    assert_eq!(catalog::flash::take(&mut cookies), Some(flash("error", "second")));
    assert_eq!(catalog::flash::take(&mut cookies), None);
}

#[test]
fn take_from_an_empty_jar_is_nothing() {
    let mut cookies = Cookies::default();
    assert_eq!(catalog::flash::take(&mut cookies), None);
    assert_eq!(cookies.list().len(), 0);
}

#[test]
fn take_of_an_unreadable_cookie_is_nothing_and_leaves_it() {
    let mut cookies = Cookies::default();
    cookies.add(Cookie::new("_flash", "not a flash"));
    assert_eq!(catalog::flash::take(&mut cookies), None);
    assert_eq!(value_of(&cookies, "_flash"), Some("not a flash".to_string()));
}

#[test]
fn take_reads_the_cookie_that_a_request_brought() {
    let mut cookies = Cookies::default();
    cookies.add(Cookie::new("_flash", ".o.k:saved"));
    assert_eq!(catalog::flash::take(&mut cookies), Some(flash("ok", "saved")));
    assert_eq!(value_of(&cookies, "_flash"), None);
}

#[test]
fn set_and_take_leave_the_other_cookies() {
    let mut cookies = Cookies::default();
    cookies.add(Cookie::new("session", "abc"));
    catalog::flash::set(&mut cookies, &flash("success", "done"));
    assert_eq!(value_of(&cookies, "session"), Some("abc".to_string()));
    assert_eq!(catalog::flash::take(&mut cookies), Some(flash("success", "done")));
    assert_eq!(value_of(&cookies, "session"), Some("abc".to_string()));
    assert_eq!(cookies.list().len(), 1);
}

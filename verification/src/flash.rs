//! One-shot messages that cross from the answer to a change to the next page
//! in a cookie.
//!
//! The cookie's value holds every character of the kind behind a `.`, then a
//! `:`, then the message as it is: kind `ok` with message `done` travels as
//! `.o.k:done`.

use vstd::prelude::*;
use vstd::string::*;

verus! {

/// What a flash message is: its kind and its text.
pub struct Flash {
    pub kind: Seq<char>,
    pub message: Seq<char>,
}

/// A message shown once, on the page that follows a change.
#[derive(Clone, Debug, PartialEq, Eq)]
pub struct FlashData {
    pub kind: String,
    pub message: String,
}

impl View for FlashData {
    type V = Flash;

    open spec fn view(&self) -> Flash {
        Flash { kind: self.kind@, message: self.message@ }
    }
}

/// The kind of a flash message as it stands in a cookie's value.
pub open spec fn marked(kind: Seq<char>) -> Seq<char> {
    Seq::new(
        (2 * kind.len()) as nat,
        |i: int|
            if i % 2 == 0 {
                '.'
            } else {
                kind[i / 2]
            },
    )
}

/// The cookie value that carries `f`.
pub open spec fn encoded(f: Flash) -> Seq<char> {
    marked(f.kind) + seq![':'] + f.message
}

/// Some flash message travels as `value`.
pub open spec fn readable(value: Seq<char>) -> bool {
    exists|f: Flash| value == encoded(f)
}

/// The flash message that travels as `value`, where there is one.
pub open spec fn decoded(value: Seq<char>) -> Flash {
    choose|f: Flash| value == encoded(f)
}

/// The cookies of one exchange, shared with the layer that reads them from
/// the request and writes them to the answer.
#[verifier::external_type_specification]
#[verifier::external_body]
pub struct ExCookies(tower_cookies::Cookies);

/// What a jar keeps of a cookie: its value, and the path that it is set
/// for, where it has one.
pub struct Crumb {
    pub value: Seq<char>,
    pub path: Option<Seq<char>>,
}

/// The cookies that a jar holds, as a holder of the jar finds them, each by
/// its name.
pub uninterp spec fn cookies_of(cookies: tower_cookies::Cookies) -> Map<Seq<char>, Crumb>;

/// The path that the flash cookie is set for: the whole site.
pub open spec fn flash_path() -> Seq<char> {
    "/"@
}

/// The name of the cookie that carries the flash message.
pub open spec fn flash_name() -> Seq<char> {
    "_flash"@
}

/// What reading `value` gives: the message that it carries, or nothing
/// where it carries none.
pub open spec fn read(value: Seq<char>) -> Option<Flash> {
    if readable(value) {
        Some(decoded(value))
    } else {
        None
    }
}

/// The jar holds a flash cookie that carries a message.
pub open spec fn carries(jar: Map<Seq<char>, Crumb>) -> bool {
    jar.contains_key(flash_name()) && readable(jar[flash_name()].value)
}

/// The message that reading the flash cookie gives: that of a readable
/// cookie, nothing where the cookie is missing or unreadable.
pub open spec fn shown(jar: Map<Seq<char>, Crumb>) -> Option<Flash> {
    if jar.contains_key(flash_name()) {
        read(jar[flash_name()].value)
    } else {
        None
    }
}

/// The jar after the flash cookie was read: a cookie that gave its message
/// is gone; anything else stays as it was.
pub open spec fn after_take(jar: Map<Seq<char>, Crumb>) -> Map<Seq<char>, Crumb> {
    if carries(jar) {
        jar.remove(flash_name())
    } else {
        jar
    }
}

/// The jar after `f` was put into the flash cookie.
pub open spec fn after_set(jar: Map<Seq<char>, Crumb>, f: Flash) -> Map<Seq<char>, Crumb> {
    jar.insert(flash_name(), Crumb { value: encoded(f), path: Some(flash_path()) })
}

/// The flash message of an optional value.
pub open spec fn flash_of(flash: Option<FlashData>) -> Option<Flash> {
    match flash {
        Some(data) => Some(data@),
        None => None,
    }
}

/// Two flash messages that travel as the same value are the same message.
pub proof fn lemma_encoded_injective(f: Flash, g: Flash)
    requires
        encoded(f) == encoded(g),
    ensures
        f == g,
{
    let m = f.kind.len() as int;
    let n = g.kind.len() as int;
    let e = encoded(f);
    let d = encoded(g);
    assert(e[2 * m] == ':');
    assert(d[2 * n] == ':');
    if m < n {
        assert(d[2 * m] == '.');
    }
    if n < m {
        assert(e[2 * n] == '.');
    }
    assert forall|j: int| 0 <= j < m implies f.kind[j] == g.kind[j] by {
        assert(e[2 * j + 1] == f.kind[j]);
        assert(d[2 * j + 1] == g.kind[j]);
    }
    assert(f.kind =~= g.kind);
    assert(e.len() == 2 * m + 1 + f.message.len());
    assert(d.len() == 2 * n + 1 + g.message.len());
    assert forall|j: int| 0 <= j < f.message.len() implies f.message[j] == g.message[j] by {
        assert(e[2 * m + 1 + j] == f.message[j]);
        assert(d[2 * n + 1 + j] == g.message[j]);
    }
    assert(f.message =~= g.message);
}

/// A value whose marked characters end without a `:` carries no message.
proof fn lemma_unreadable(value: Seq<char>, n: int)
    requires
        0 <= n,
        2 * n <= value.len(),
        forall|k: int| 0 <= k < 2 * n && k % 2 == 0 ==> #[trigger] value[k] == '.',
        2 * n == value.len() || (value[2 * n] != ':' && (value[2 * n] != '.' || 2 * n + 1
            == value.len())),
    ensures
        !readable(value),
{
    assert forall|f: Flash| value != encoded(f) by {
        let e = encoded(f);
        let m = f.kind.len() as int;
        assert(e.len() == 2 * m + 1 + f.message.len());
        assert(e[2 * m] == ':');
        if value == e {
            if m < n {
                assert(value[2 * m] == '.');
            } else if m > n {
                assert(e[2 * n] == '.');
            }
        }
    }
}

/// Reading the value that carries a message gives that message.
pub proof fn lemma_read_encoded(f: Flash)
    ensures
        read(encoded(f)) == Some(f),
{
    assert(readable(encoded(f)));
    lemma_encoded_injective(decoded(encoded(f)), f);
}

/// A message written to the cookie and read back is the same message,
/// whatever the jar held before; the reading removes the cookie, so that a
/// second reading gives nothing; the other cookies stay as they were.
pub proof fn lemma_flash_round_trip(jar: Map<Seq<char>, Crumb>, f: Flash)
    ensures
        shown(after_set(jar, f)) == Some(f),
        after_take(after_set(jar, f)) == jar.remove(flash_name()),
        shown(after_take(after_set(jar, f))) == None::<Flash>,
        after_take(after_take(after_set(jar, f))) == after_take(after_set(jar, f)),
{
    let value = encoded(f);
    assert(readable(value));
    lemma_encoded_injective(decoded(value), f);
    assert(after_set(jar, f).remove(flash_name()) =~= jar.remove(flash_name()));
}

/// The cookie value that carries `data`.
pub fn encode(data: &FlashData) -> (value: String)
    ensures
        value@ == encoded(data@),
{
    let kind = data.kind.as_str();
    let n: usize = kind.unicode_len();
    let mut value = String::new();
    let mut i: usize = 0;
    while i < n
        invariant
            kind@ == data.kind@,
            n == kind@.len(),
            i <= n,
            value@.len() == 2 * i,
            forall|k: int|
                0 <= k < 2 * i ==> #[trigger] value@[k] == (if k % 2 == 0 {
                    '.'
                } else {
                    kind@[k / 2]
                }),
        decreases n - i,
    {
        proof {
            reveal_strlit(".");
        }
        value.append(".");
        value.append(kind.substring_char(i, i + 1));
        i = i + 1;
    }
    proof {
        reveal_strlit(":");
        assert(value@ =~= marked(data.kind@));
    }
    value.append(":");
    value.append(data.message.as_str());
    value
}

/// The flash message that `value` carries, if it carries one.
pub fn decode(value: &str) -> (r: Option<FlashData>)
    ensures
        flash_of(r) == read(value@),
        match r {
            Some(data) => value@ == encoded(data@),
            None => !readable(value@),
        },
{
    let len: usize = value.unicode_len();
    let mut kind = String::new();
    let mut at: usize = 0;
    loop
        invariant
            len == value@.len(),
            at <= len,
            at == 2 * kind@.len(),
            forall|k: int|
                0 <= k < at ==> #[trigger] value@[k] == (if k % 2 == 0 {
                    '.'
                } else {
                    kind@[k / 2]
                }),
        decreases len - at,
    {
        if at >= len {
            proof {
                lemma_unreadable(value@, kind@.len() as int);
            }
            return None;
        }
        let c: char = value.get_char(at);
        if c == ':' {
            let message = String::from_str(value.substring_char(at + 1, len));
            let data = FlashData { kind, message };
            proof {
                assert(value@ =~= encoded(data@));
                lemma_read_encoded(data@);
            }
            return Some(data);
        }
        if c != '.' || len - at < 2 {
            proof {
                lemma_unreadable(value@, kind@.len() as int);
            }
            return None;
        }
        kind.append(value.substring_char(at + 1, at + 2));
        at = at + 2;
    }
}

/// `Cookies::get` and `Cookie::value`: the value of the cookie with the
/// given name, where the jar holds one.
#[verifier::external_body]
fn cookie_value(cookies: &tower_cookies::Cookies, name: &str) -> (r: Option<String>)
    ensures
        match r {
            Some(value) => cookies_of(*cookies).contains_key(name@) && cookies_of(
                *cookies,
            )[name@].value == value@,
            None => !cookies_of(*cookies).contains_key(name@),
        },
{
    cookies.get(name).map(|cookie| cookie.value().to_owned())
}

/// `Cookie::new`, `Cookie::set_path` and `Cookies::add`: the jar holds the
/// value with the path under the name, in place of what it held under it;
/// the other cookies stay.
#[verifier::external_body]
fn put_cookie(cookies: &mut tower_cookies::Cookies, name: &str, value: &str, path: &str)
    ensures
        cookies_of(*final(cookies)) == cookies_of(*old(cookies)).insert(
            name@,
            Crumb { value: value@, path: Some(path@) },
        ),
{
    let mut cookie = tower_cookies::Cookie::new(name.to_owned(), value.to_owned());
    cookie.set_path(path.to_owned());
    cookies.add(cookie);
}

/// `Cookie::new`, `Cookie::set_path` and `Cookies::remove`: the jar holds no
/// cookie of the name; the other cookies stay.
#[verifier::external_body]
fn drop_cookie(cookies: &mut tower_cookies::Cookies, name: &str, path: &str)
    ensures
        cookies_of(*final(cookies)) == cookies_of(*old(cookies)).remove(name@),
{
    let mut cookie = tower_cookies::Cookie::new(name.to_owned(), "");
    cookie.set_path(path.to_owned());
    cookies.remove(cookie);
}

/// Puts `data` into the flash cookie, set for the whole site, in place of
/// what the cookie held.
pub fn set(cookies: &mut tower_cookies::Cookies, data: &FlashData)
    ensures
        cookies_of(*final(cookies)) == after_set(cookies_of(*old(cookies)), data@),
{
    let value = encode(data);
    put_cookie(cookies, "_flash", value.as_str(), "/");
}

/// Reads the flash cookie once: a readable cookie gives its message and is
/// removed; a missing or unreadable one gives nothing and the jar stays as
/// it was.
pub fn take(cookies: &mut tower_cookies::Cookies) -> (r: Option<FlashData>)
    ensures
        flash_of(r) == shown(cookies_of(*old(cookies))),
        cookies_of(*final(cookies)) == after_take(cookies_of(*old(cookies))),
{
    let r = match cookie_value(cookies, "_flash") {
        Some(value) => decode(value.as_str()),
        None => None,
    };
    if r.is_some() {
        drop_cookie(cookies, "_flash", "/");
    }
    r
}

} // verus!

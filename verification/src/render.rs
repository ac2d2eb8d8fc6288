//! From a page to the text that the browser gets: the context that the
//! template engine reads, and the answer made of what it rendered.

use vstd::prelude::*;
use vstd::string::*;
use crate::flash::{Flash, FlashData};
use crate::handlers::{
    respond, status_of, render_failure_text, template_of, title_of, title_text, Entity, Failure,
    Page, Screen,
};
use crate::store::{rows_of, Record, Row};

verus! {

/// What a value of a template context is: a text, a number, a list of
/// values, or an object with a value for each of its keys.
pub enum Json {
    Text(Seq<char>),
    Number(int),
    List(Seq<Json>),
    Object(Map<Seq<char>, Json>),
}

/// The template engine with the templates that it has loaded.
#[verifier::external_type_specification]
#[verifier::external_body]
pub struct ExTera(tera::Tera);

/// The context that a template is rendered with.
#[verifier::external_type_specification]
#[verifier::external_body]
pub struct ExContext(tera::Context);

/// A value of a context.
#[verifier::external_type_specification]
#[verifier::external_body]
pub struct ExValue(tera::Value);

/// What a context value holds.
pub uninterp spec fn json_of(value: tera::Value) -> Json;

/// The values that a context holds, by their keys.
pub uninterp spec fn entries(context: tera::Context) -> Map<Seq<char>, Json>;

/// What each of a sequence of context values holds.
pub open spec fn jsons(values: Seq<tera::Value>) -> Seq<Json> {
    Seq::new(values.len(), |i: int| json_of(values[i]))
}

/// `tera::Value::from` on a string slice: the value is that text.
#[verifier::external_body]
fn text_value(text: &str) -> (value: tera::Value)
    ensures
        json_of(value) == Json::Text(text@),
{
    tera::Value::from(text)
}

/// `tera::Value::from` on an `i32`: the value is that number.
#[verifier::external_body]
fn number_value(number: i32) -> (value: tera::Value)
    ensures
        json_of(value) == Json::Number(number as int),
{
    tera::Value::from(number)
}

/// `tera::Map::new`, `tera::Map::insert` twice and `tera::Value::Object`: an
/// object with the two keys; were they the same key, the second value would
/// stand under it.
#[verifier::external_body]
fn object_value(first_key: &str, first: tera::Value, second_key: &str, second: tera::Value) -> (value:
    tera::Value)
    ensures
        json_of(value) == Json::Object(
            Map::<Seq<char>, Json>::empty().insert(first_key@, json_of(first)).insert(
                second_key@,
                json_of(second),
            ),
        ),
{
    let mut object = tera::Map::new();
    object.insert(first_key.to_owned(), first);
    object.insert(second_key.to_owned(), second);
    tera::Value::Object(object)
}

/// `tera::Value::Array`: the list of the given values, in their order.
#[verifier::external_body]
fn list_value(items: Vec<tera::Value>) -> (value: tera::Value)
    ensures
        json_of(value) == Json::List(jsons(items@)),
{
    tera::Value::Array(items)
}

/// `tera::Context::new`: a context without values.
#[verifier::external_body]
fn context_new() -> (context: tera::Context)
    ensures
        entries(context) == (Map::<Seq<char>, Json>::empty()),
{
    tera::Context::new()
}

/// `tera::Context::insert` with a context value: the value stands under the
/// key, in place of what stood there; the other keys keep their values. The
/// call panics only where its argument does not serialise, and a context
/// value always does.
#[verifier::external_body]
fn context_insert(context: &mut tera::Context, key: &str, value: &tera::Value)
    ensures
        entries(*final(context)) == entries(*old(context)).insert(key@, json_of(*value)),
{
    context.insert(key, value);
}

/// `tera::Tera::render`: the text of the named template for the context, or
/// nothing where the engine reports an error. What it gives depends on the
/// templates that the engine holds, so nothing is claimed of it.
#[verifier::external_body]
fn render_template(templates: &tera::Tera, name: &str, context: &tera::Context) -> (rendered: Option<
    String,
>) {
    templates.render(name, context).ok()
}

/// The entity whose records `screen` shows, where it shows records.
pub open spec fn listed(screen: Screen) -> Option<Entity> {
    match screen {
        Screen::List(entity) => Some(entity),
        Screen::Print(entity) => Some(entity),
        Screen::Found(entity) => Some(entity),
        _ => None,
    }
}

/// The key under which a template finds the records of `entity`.
pub open spec fn records_key(entity: Entity) -> Seq<char> {
    match entity {
        Entity::Person => "persons"@,
        Entity::Genre => "genres"@,
    }
}

/// The key under which a template finds the name of a record of `entity`.
pub open spec fn name_key(entity: Entity) -> Seq<char> {
    match entity {
        Entity::Person => "full_name"@,
        Entity::Genre => "name"@,
    }
}

/// A record as a template sees it: an object with its identifier and its
/// name.
pub open spec fn record_json(row: Row, entity: Entity) -> Json {
    Json::Object(
        Map::<Seq<char>, Json>::empty().insert("id"@, Json::Number(row.id)).insert(
            name_key(entity),
            Json::Text(row.name),
        ),
    )
}

/// The records of a page as a template sees them.
pub open spec fn records_json(rows: Seq<Row>, entity: Entity) -> Seq<Json> {
    Seq::new(rows.len(), |i: int| record_json(rows[i], entity))
}

/// A flash message as a template sees it: an object with its kind and its
/// text.
pub open spec fn flash_json(flash: Flash) -> Json {
    Json::Object(
        Map::<Seq<char>, Json>::empty().insert("kind"@, Json::Text(flash.kind)).insert(
            "message"@,
            Json::Text(flash.message),
        ),
    )
}

/// The context of a page: its title, but for the page of a missing path; the
/// path, where the page shows one; the records, where the screen lists
/// some; and the flash message, where the page has one.
pub open spec fn page_entries(page: Page) -> Map<Seq<char>, Json> {
    let titled = if page.screen == Screen::Missing {
        Map::<Seq<char>, Json>::empty()
    } else {
        Map::<Seq<char>, Json>::empty().insert("title"@, Json::Text(title_text(page.screen)))
    };
    let located = match page.uri {
        Some(uri) => titled.insert("uri"@, Json::Text(uri@)),
        None => titled,
    };
    let filled = match listed(page.screen) {
        Some(entity) => located.insert(
            records_key(entity),
            Json::List(records_json(rows_of(page.records@), entity)),
        ),
        None => located,
    };
    match page.flash {
        Some(data) => filled.insert("flash"@, flash_json(data@)),
        None => filled,
    }
}

/// The entity whose records `screen` shows, where it shows records.
pub fn listed_entity(screen: Screen) -> (r: Option<Entity>)
    ensures
        r == listed(screen),
{
    match screen {
        Screen::List(entity) => Some(entity),
        Screen::Print(entity) => Some(entity),
        Screen::Found(entity) => Some(entity),
        _ => None,
    }
}

/// A record of `entity` as a context value.
fn record_value(record: &Record, entity: Entity) -> (value: tera::Value)
    ensures
        json_of(value) == record_json(record@, entity),
{
    let key: &str = match entity {
        Entity::Person => "full_name",
        Entity::Genre => "name",
    };
    object_value("id", number_value(record.id), key, text_value(record.name.as_str()))
}

/// A flash message as a context value.
fn flash_value(data: &FlashData) -> (value: tera::Value)
    ensures
        json_of(value) == flash_json(data@),
{
    object_value(
        "kind",
        text_value(data.kind.as_str()),
        "message",
        text_value(data.message.as_str()),
    )
}

/// The context that the template of `page` is rendered with.
pub fn page_context(page: &Page) -> (context: tera::Context)
    ensures
        entries(context) == page_entries(*page),
{
    let mut context = context_new();
    match page.screen {
        Screen::Missing => {},
        _ => {
            let title = text_value(title_of(page.screen));
            context_insert(&mut context, "title", &title);
        },
    }
    match &page.uri {
        Some(uri) => {
            let path = text_value(uri.as_str());
            context_insert(&mut context, "uri", &path);
        },
        None => {},
    }
    match listed_entity(page.screen) {
        Some(entity) => {
            let mut items: Vec<tera::Value> = Vec::new();
            let mut i: usize = 0;
            while i < page.records.len()
                invariant
                    i <= page.records.len(),
                    items.len() == i,
                    forall|k: int|
                        0 <= k < i ==> json_of(#[trigger] items@[k]) == record_json(
                            page.records@[k]@,
                            entity,
                        ),
                decreases page.records.len() - i,
            {
                items.push(record_value(&page.records[i], entity));
                i = i + 1;
            }
            proof {
                assert(jsons(items@) =~= records_json(rows_of(page.records@), entity));
            }
            let key: &str = match entity {
                Entity::Person => "persons",
                Entity::Genre => "genres",
            };
            let list = list_value(items);
            context_insert(&mut context, key, &list);
        },
        None => {},
    }
    match &page.flash {
        Some(data) => {
            let flash = flash_value(data);
            context_insert(&mut context, "flash", &flash);
        },
        None => {},
    }
    context
}

/// Renders `page` with its template and answers the request: the rendered
/// text with the status of the page's screen, or, where the engine reports
/// an error, the failure that names the template.
pub fn render(templates: &tera::Tera, page: &Page) -> (r: Result<(u16, String), Failure>)
    ensures
        match r {
            Ok(answer) => answer.0 == status_of(page.screen),
            Err(failure) => failure.status == 500 && failure.message@ == render_failure_text(
                page.screen,
            ),
        },
{
    let context = page_context(page);
    let rendered = render_template(templates, template_of(page.screen), &context);
    respond(page.screen, rendered)
}

} // verus!

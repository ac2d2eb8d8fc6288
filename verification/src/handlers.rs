//! What each request does: which page it shows, what it changes in the
//! catalog, and which flash message it leaves for the next page.
//!
//! A request ends in one of three ways: a page to render, the way to a list
//! after a change, or a failure. Nothing is tried twice: a store that
//! refuses ends the request.

use vstd::prelude::*;
use vstd::string::*;
use crate::flash::{after_set, after_take, cookies_of, flash_of, shown, Flash, FlashData};
use crate::store::{
    found, has_id, position_of, rows_of, same_rows, sorted_by_name, Record, Row, Store, StoreError,
};

verus! {

/// The two kinds of records that the catalog keeps.
#[derive(Clone, Copy, Debug, PartialEq, Eq)]
pub enum Entity {
    Person,
    Genre,
}

/// What a request changed.
#[derive(Clone, Copy, Debug, PartialEq, Eq)]
pub enum Change {
    Added,
    Updated,
    Deleted,
}

/// The pages of the application.
#[derive(Clone, Copy, Debug, PartialEq, Eq)]
pub enum Screen {
    Start,
    About,
    Missing,
    List(Entity),
    Print(Entity),
    Found(Entity),
}

/// The search form: the text to look for in the names.
#[derive(Clone, Debug, PartialEq, Eq)]
pub struct Demande {
    pub name: String,
}

/// What the renderer needs to show a page.
#[derive(Clone, Debug, PartialEq, Eq)]
pub struct Page {
    pub screen: Screen,
    pub records: Vec<Record>,
    pub flash: Option<FlashData>,
    pub uri: Option<String>,
}

/// A request that failed: the status of the answer and its text.
#[derive(Clone, Debug, PartialEq, Eq)]
pub struct Failure {
    pub status: u16,
    pub message: String,
}

/// The persons and the genres.
pub struct Catalog {
    pub persons: Store,
    pub genres: Store,
}

/// The entity that `entity` is not.
pub open spec fn other(entity: Entity) -> Entity {
    match entity {
        Entity::Person => Entity::Genre,
        Entity::Genre => Entity::Person,
    }
}

/// The text of the flash message that reports `change` on `entity`.
pub open spec fn success_text(entity: Entity, change: Change) -> Seq<char> {
    match (entity, change) {
        (Entity::Person, Change::Added) => "Person successfully added"@,
        (Entity::Person, Change::Updated) => "Person successfully updated"@,
        (Entity::Person, Change::Deleted) => "Person succcessfully deleted"@,
        (Entity::Genre, Change::Added) => "Genre successfully added"@,
        (Entity::Genre, Change::Updated) => "Genre successfully updated"@,
        (Entity::Genre, Change::Deleted) => "Genre succcessfully deleted"@,
    }
}

/// The flash message that reports `change` on `entity`.
pub open spec fn success(entity: Entity, change: Change) -> Flash {
    Flash { kind: "success"@, message: success_text(entity, change) }
}

/// The template that shows `screen`.
pub open spec fn template_text(screen: Screen) -> Seq<char> {
    match screen {
        Screen::Start => "start.html.tera"@,
        Screen::About => "about.html.tera"@,
        Screen::Missing => "error/404.html.tera"@,
        Screen::List(Entity::Person) => "persons.html.tera"@,
        Screen::List(Entity::Genre) => "genres.html.tera"@,
        Screen::Print(Entity::Person) => "list_users.html.tera"@,
        Screen::Print(Entity::Genre) => "list_genres.html.tera"@,
        Screen::Found(Entity::Person) => "persons.html.tera"@,
        Screen::Found(Entity::Genre) => "genres.html.tera"@,
    }
}

/// The title of `screen`.
pub open spec fn title_text(screen: Screen) -> Seq<char> {
    match screen {
        Screen::Start => "Start"@,
        Screen::About => "A propos de ..."@,
        Screen::Missing => "404"@,
        Screen::List(Entity::Person) => "Gestion des Musiciens"@,
        Screen::List(Entity::Genre) => "Gestion des Genres"@,
        Screen::Print(Entity::Person) => "Liste des Personnes"@,
        Screen::Print(Entity::Genre) => "Liste des Genres"@,
        Screen::Found(Entity::Person) => "Personne(s) trouvée(s)"@,
        Screen::Found(Entity::Genre) => "Genre(s) trouvé(s)"@,
    }
}

/// The text of the failure when the template of `screen` does not render.
pub open spec fn render_failure_text(screen: Screen) -> Seq<char> {
    match screen {
        Screen::Start => "Template error in start.html.tera"@,
        Screen::About => "Template error in about.html.tera"@,
        Screen::Missing => "Template error in 404.html.tera"@,
        Screen::List(Entity::Person) => "Template error in persons.html.tera"@,
        Screen::List(Entity::Genre) => "Template error in genres.html.tera"@,
        Screen::Print(Entity::Person) => "Template error in list_users.html.tera"@,
        Screen::Print(Entity::Genre) => "Template error in list_genres.html.tera"@,
        Screen::Found(Entity::Person) => "Template error in persons.html.tera"@,
        Screen::Found(Entity::Genre) => "Template error in genres.html.tera"@,
    }
}

/// The text of the failure when the store refuses `change` on `entity`.
pub open spec fn store_failure_text(entity: Entity, change: Change) -> Seq<char> {
    match (entity, change) {
        (Entity::Person, Change::Added) => "could not insert person"@,
        (Entity::Person, Change::Updated) => "could not edit person"@,
        (Entity::Person, Change::Deleted) => "could not delete person"@,
        (Entity::Genre, Change::Added) => "could not insert genre"@,
        (Entity::Genre, Change::Updated) => "could not edit genre"@,
        (Entity::Genre, Change::Deleted) => "could not delete genre"@,
    }
}

/// The text of the failure when the store cannot give the records of
/// `entity`.
pub open spec fn read_failure_text(entity: Entity) -> Seq<char> {
    match entity {
        Entity::Person => "could not read persons"@,
        Entity::Genre => "could not read genres"@,
    }
}

/// The status of the answer that shows `screen`.
pub open spec fn status_of(screen: Screen) -> int {
    match screen {
        Screen::Missing => 404,
        _ => 200,
    }
}

/// The flash message that reports `change` on `entity`.
pub fn success_flash(entity: Entity, change: Change) -> (data: FlashData)
    ensures
        data@ == success(entity, change),
{
    let message: &str = match (entity, change) {
        (Entity::Person, Change::Added) => "Person successfully added",
        (Entity::Person, Change::Updated) => "Person successfully updated",
        (Entity::Person, Change::Deleted) => "Person succcessfully deleted",
        (Entity::Genre, Change::Added) => "Genre successfully added",
        (Entity::Genre, Change::Updated) => "Genre successfully updated",
        (Entity::Genre, Change::Deleted) => "Genre succcessfully deleted",
    };
    FlashData { kind: String::from_str("success"), message: String::from_str(message) }
}

/// The template that shows `screen`.
pub fn template_of(screen: Screen) -> (name: &'static str)
    ensures
        name@ == template_text(screen),
{
    match screen {
        Screen::Start => "start.html.tera",
        Screen::About => "about.html.tera",
        Screen::Missing => "error/404.html.tera",
        Screen::List(Entity::Person) => "persons.html.tera",
        Screen::List(Entity::Genre) => "genres.html.tera",
        Screen::Print(Entity::Person) => "list_users.html.tera",
        Screen::Print(Entity::Genre) => "list_genres.html.tera",
        Screen::Found(Entity::Person) => "persons.html.tera",
        Screen::Found(Entity::Genre) => "genres.html.tera",
    }
}

/// The title of `screen`.
pub fn title_of(screen: Screen) -> (title: &'static str)
    ensures
        title@ == title_text(screen),
{
    match screen {
        Screen::Start => "Start",
        Screen::About => "A propos de ...",
        Screen::Missing => "404",
        Screen::List(Entity::Person) => "Gestion des Musiciens",
        Screen::List(Entity::Genre) => "Gestion des Genres",
        Screen::Print(Entity::Person) => "Liste des Personnes",
        Screen::Print(Entity::Genre) => "Liste des Genres",
        Screen::Found(Entity::Person) => "Personne(s) trouvée(s)",
        Screen::Found(Entity::Genre) => "Genre(s) trouvé(s)",
    }
}

/// The path of the page that lists `entity`, where a change sends the browser.
pub fn list_path(entity: Entity) -> (path: &'static str)
    ensures
        path@ == (match entity {
            Entity::Person => "/persons"@,
            Entity::Genre => "/genres"@,
        }),
{
    match entity {
        Entity::Person => "/persons",
        Entity::Genre => "/genres",
    }
}

/// The failure of a request whose template did not render: a server error
/// that names the template.
pub fn render_failure(screen: Screen) -> (failure: Failure)
    ensures
        failure.status == 500,
        failure.message@ == render_failure_text(screen),
{
    let message: &str = match screen {
        Screen::Start => "Template error in start.html.tera",
        Screen::About => "Template error in about.html.tera",
        Screen::Missing => "Template error in 404.html.tera",
        Screen::List(Entity::Person) => "Template error in persons.html.tera",
        Screen::List(Entity::Genre) => "Template error in genres.html.tera",
        Screen::Print(Entity::Person) => "Template error in list_users.html.tera",
        Screen::Print(Entity::Genre) => "Template error in list_genres.html.tera",
        Screen::Found(Entity::Person) => "Template error in persons.html.tera",
        Screen::Found(Entity::Genre) => "Template error in genres.html.tera",
    };
    Failure { status: 500, message: String::from_str(message) }
}

/// The failure of a request whose change the store refused: a server error,
/// whichever the store's reason.
pub fn store_failure(entity: Entity, change: Change, error: StoreError) -> (failure: Failure)
    ensures
        failure.status == 500,
        failure.message@ == store_failure_text(entity, change),
{
    let message: &str = match (entity, change) {
        (Entity::Person, Change::Added) => "could not insert person",
        (Entity::Person, Change::Updated) => "could not edit person",
        (Entity::Person, Change::Deleted) => "could not delete person",
        (Entity::Genre, Change::Added) => "could not insert genre",
        (Entity::Genre, Change::Updated) => "could not edit genre",
        (Entity::Genre, Change::Deleted) => "could not delete genre",
    };
    Failure { status: 500, message: String::from_str(message) }
}

/// The failure of a request whose records the store could not give: a
/// server error.
pub fn read_failure(entity: Entity) -> (failure: Failure)
    ensures
        failure.status == 500,
        failure.message@ == read_failure_text(entity),
{
    let message: &str = match entity {
        Entity::Person => "could not read persons",
        Entity::Genre => "could not read genres",
    };
    Failure { status: 500, message: String::from_str(message) }
}

/// The answer to a request for `screen`, given what the renderer made of its
/// template: the page with the screen's status, or the failure that names
/// the template.
pub fn respond(screen: Screen, rendered: Option<String>) -> (r: Result<(u16, String), Failure>)
    ensures
        match r {
            Ok(answer) => rendered == Some(answer.1) && answer.0 == status_of(screen),
            Err(failure) => rendered is None && failure.status == 500 && failure.message@
                == render_failure_text(screen),
        },
{
    match rendered {
        Some(body) => {
            let status: u16 = match screen {
                Screen::Missing => 404,
                _ => 200,
            };
            Ok((status, body))
        },
        None => Err(render_failure(screen)),
    }
}

impl Catalog {
    /// Both stores keep their invariant.
    pub open spec fn wf(&self) -> bool {
        self.persons.wf() && self.genres.wf()
    }

    /// The rows of `entity`, in the order of their creation.
    pub open spec fn rows(&self, entity: Entity) -> Seq<Row> {
        match entity {
            Entity::Person => self.persons@,
            Entity::Genre => self.genres@,
        }
    }

    /// The identifier that the next record of `entity` gets.
    pub open spec fn fresh_id(&self, entity: Entity) -> int {
        match entity {
            Entity::Person => self.persons.fresh_id(),
            Entity::Genre => self.genres.fresh_id(),
        }
    }

    /// A catalog without records.
    pub fn new() -> (catalog: Catalog)
        ensures
            catalog.wf(),
            forall|entity: Entity| #[trigger] catalog.rows(entity) == Seq::<Row>::empty(),
            forall|entity: Entity| #[trigger] catalog.fresh_id(entity) == 1,
    {
        Catalog { persons: Store::new(), genres: Store::new() }
    }

    /// The store of `entity`.
    pub fn store(&self, entity: Entity) -> (store: &Store)
        ensures
            store@ == self.rows(entity),
            store.fresh_id() == self.fresh_id(entity),
    {
        match entity {
            Entity::Person => &self.persons,
            Entity::Genre => &self.genres,
        }
    }
}

/// The start page.
pub fn root() -> (page: Page)
    ensures
        page.screen == Screen::Start,
        page.records@.len() == 0,
        page.flash is None,
        page.uri is None,
{
    Page { screen: Screen::Start, records: Vec::new(), flash: None, uri: None }
}

/// The page about the application.
pub fn about() -> (page: Page)
    ensures
        page.screen == Screen::About,
        page.records@.len() == 0,
        page.flash is None,
        page.uri is None,
{
    Page { screen: Screen::About, records: Vec::new(), flash: None, uri: None }
}

/// The page for a path that no route serves; it shows the path.
pub fn handler_404(path: String) -> (page: Page)
    ensures
        page.screen == Screen::Missing,
        page.records@.len() == 0,
        page.flash is None,
        page.uri == Some(path),
{
    Page { screen: Screen::Missing, records: Vec::new(), flash: None, uri: Some(path) }
}

/// The page that lists `records` of `entity`, with the flash message that
/// the request's cookie carried; a message that is shown leaves the jar.
pub fn list_page(entity: Entity, records: Vec<Record>, cookies: &mut tower_cookies::Cookies) -> (page:
    Page)
    ensures
        page.screen == Screen::List(entity),
        page.records == records,
        flash_of(page.flash) == shown(cookies_of(*old(cookies))),
        cookies_of(*final(cookies)) == after_take(cookies_of(*old(cookies))),
        page.uri is None,
{
    let flash = crate::flash::take(cookies);
    Page { screen: Screen::List(entity), records, flash, uri: None }
}

/// What follows a change that the store has made: the jar holds the message
/// that reports it, and the browser is sent to the list of `entity`.
pub fn changed(cookies: &mut tower_cookies::Cookies, entity: Entity, change: Change) -> (next: Screen)
    ensures
        next == Screen::List(entity),
        cookies_of(*final(cookies)) == after_set(cookies_of(*old(cookies)), success(entity, change)),
{
    let data = success_flash(entity, change);
    crate::flash::set(cookies, &data);
    Screen::List(entity)
}

/// What follows a change that was asked of the store. Where the store made
/// it, the jar holds the message that reports it and the browser is sent to
/// the list of `entity`; where the store refused, whatever its reason, the
/// request fails with a server error and the jar stays as it was.
pub fn settle(
    cookies: &mut tower_cookies::Cookies,
    entity: Entity,
    change: Change,
    done: Result<(), StoreError>,
) -> (r: Result<Screen, Failure>)
    ensures
        match r {
            Ok(next) => {
                &&& done is Ok
                &&& next == Screen::List(entity)
                &&& cookies_of(*final(cookies)) == after_set(
                    cookies_of(*old(cookies)),
                    success(entity, change),
                )
            },
            Err(failure) => {
                &&& done is Err
                &&& failure.status == 500
                &&& failure.message@ == store_failure_text(entity, change)
                &&& cookies_of(*final(cookies)) == cookies_of(*old(cookies))
            },
        },
{
    match done {
        Ok(_) => Ok(changed(cookies, entity, change)),
        Err(error) => Err(store_failure(entity, change, error)),
    }
}

/// The page that lists `records` of `entity` for printing, without flash
/// message.
pub fn print_page(entity: Entity, records: Vec<Record>) -> (page: Page)
    ensures
        page.screen == Screen::Print(entity),
        page.records == records,
        page.flash is None,
        page.uri is None,
{
    Page { screen: Screen::Print(entity), records, flash: None, uri: None }
}

/// The page that shows the `records` of `entity` that a search found,
/// without flash message.
pub fn found_page(entity: Entity, records: Vec<Record>) -> (page: Page)
    ensures
        page.screen == Screen::Found(entity),
        page.records == records,
        page.flash is None,
        page.uri is None,
{
    Page { screen: Screen::Found(entity), records, flash: None, uri: None }
}

/// The list of `entity`, sorted by name, with the flash message that the
/// request's cookie carried; a message that is shown leaves the jar.
pub fn list(catalog: &Catalog, cookies: &mut tower_cookies::Cookies, entity: Entity) -> (page: Page)
    requires
        catalog.wf(),
    ensures
        page.screen == Screen::List(entity),
        sorted_by_name(rows_of(page.records@)),
        same_rows(rows_of(page.records@), catalog.rows(entity)),
        flash_of(page.flash) == shown(cookies_of(*old(cookies))),
        cookies_of(*final(cookies)) == after_take(cookies_of(*old(cookies))),
        page.uri is None,
{
    let records = catalog.store(entity).list_all();
    list_page(entity, records, cookies)
}

/// The list of `entity` for printing, sorted by name, without flash message.
pub fn print_list(catalog: &Catalog, entity: Entity) -> (page: Page)
    requires
        catalog.wf(),
    ensures
        page.screen == Screen::Print(entity),
        sorted_by_name(rows_of(page.records@)),
        same_rows(rows_of(page.records@), catalog.rows(entity)),
        page.flash is None,
        page.uri is None,
{
    let records = catalog.store(entity).list_all();
    print_page(entity, records)
}

/// The records of `entity` whose name holds the text of the search form, in
/// the order of the store.
pub fn find_by_name(catalog: &Catalog, entity: Entity, demande: &Demande) -> (page: Page)
    ensures
        page.screen == Screen::Found(entity),
        rows_of(page.records@) == found(catalog.rows(entity), demande.name@),
        page.flash is None,
        page.uri is None,
{
    let records = catalog.store(entity).find_by_substring(demande.name.as_str());
    found_page(entity, records)
}

/// Adds a record of `entity` with the name `name`. On success the jar holds
/// the message that reports it and the browser is sent to the list; when the
/// store refuses, nothing changes.
pub fn create(catalog: &mut Catalog, cookies: &mut tower_cookies::Cookies, entity: Entity, name: String) -> (r:
    Result<Screen, StoreError>)
    requires
        old(catalog).wf(),
    ensures
        final(catalog).wf(),
        final(catalog).rows(other(entity)) == old(catalog).rows(other(entity)),
        final(catalog).fresh_id(other(entity)) == old(catalog).fresh_id(other(entity)),
        match r {
            Ok(next) => {
                &&& next == Screen::List(entity)
                &&& old(catalog).fresh_id(entity) < i32::MAX
                &&& final(catalog).rows(entity) == old(catalog).rows(entity).push(
                    Row { id: old(catalog).fresh_id(entity), name: name@ },
                )
                &&& final(catalog).fresh_id(entity) == old(catalog).fresh_id(entity) + 1
                &&& cookies_of(*final(cookies)) == after_set(
                    cookies_of(*old(cookies)),
                    success(entity, Change::Added),
                )
            },
            Err(e) => {
                &&& e == StoreError::PersistenceError
                &&& old(catalog).fresh_id(entity) == i32::MAX
                &&& final(catalog).rows(entity) == old(catalog).rows(entity)
                &&& final(catalog).fresh_id(entity) == old(catalog).fresh_id(entity)
                &&& cookies_of(*final(cookies)) == cookies_of(*old(cookies))
            },
        },
{
    let done = match entity {
        Entity::Person => catalog.persons.create(name),
        Entity::Genre => catalog.genres.create(name),
    };
    match done {
        Ok(_) => Ok(changed(cookies, entity, Change::Added)),
        Err(e) => Err(e),
    }
}

/// Gives the record of `entity` with the identifier `id` the name `name`. On
/// success the jar holds the message that reports it and the browser is sent
/// to the list; when no record has the identifier, nothing changes.
pub fn update(
    catalog: &mut Catalog,
    cookies: &mut tower_cookies::Cookies,
    entity: Entity,
    id: i32,
    name: String,
) -> (r: Result<Screen, StoreError>)
    requires
        old(catalog).wf(),
    ensures
        final(catalog).wf(),
        final(catalog).rows(other(entity)) == old(catalog).rows(other(entity)),
        final(catalog).fresh_id(other(entity)) == old(catalog).fresh_id(other(entity)),
        final(catalog).fresh_id(entity) == old(catalog).fresh_id(entity),
        match r {
            Ok(next) => {
                &&& next == Screen::List(entity)
                &&& has_id(old(catalog).rows(entity), id as int)
                &&& final(catalog).rows(entity) == old(catalog).rows(entity).update(
                    position_of(old(catalog).rows(entity), id as int),
                    Row { id: id as int, name: name@ },
                )
                &&& cookies_of(*final(cookies)) == after_set(
                    cookies_of(*old(cookies)),
                    success(entity, Change::Updated),
                )
            },
            Err(e) => {
                &&& e == StoreError::NotFound
                &&& !has_id(old(catalog).rows(entity), id as int)
                &&& final(catalog).rows(entity) == old(catalog).rows(entity)
                &&& cookies_of(*final(cookies)) == cookies_of(*old(cookies))
            },
        },
{
    let done = match entity {
        Entity::Person => catalog.persons.update(id, name),
        Entity::Genre => catalog.genres.update(id, name),
    };
    match done {
        Ok(_) => Ok(changed(cookies, entity, Change::Updated)),
        Err(e) => Err(e),
    }
}

/// Removes the record of `entity` with the identifier `id`. On success the
/// jar holds the message that reports it and the browser is sent to the
/// list; when no record has the identifier, nothing changes.
pub fn delete(catalog: &mut Catalog, cookies: &mut tower_cookies::Cookies, entity: Entity, id: i32) -> (r: Result<
    Screen,
    StoreError,
>)
    requires
        old(catalog).wf(),
    ensures
        final(catalog).wf(),
        final(catalog).rows(other(entity)) == old(catalog).rows(other(entity)),
        final(catalog).fresh_id(other(entity)) == old(catalog).fresh_id(other(entity)),
        final(catalog).fresh_id(entity) == old(catalog).fresh_id(entity),
        match r {
            Ok(next) => {
                &&& next == Screen::List(entity)
                &&& has_id(old(catalog).rows(entity), id as int)
                &&& final(catalog).rows(entity) == old(catalog).rows(entity).remove(
                    position_of(old(catalog).rows(entity), id as int),
                )
                &&& cookies_of(*final(cookies)) == after_set(
                    cookies_of(*old(cookies)),
                    success(entity, Change::Deleted),
                )
            },
            Err(e) => {
                &&& e == StoreError::NotFound
                &&& !has_id(old(catalog).rows(entity), id as int)
                &&& final(catalog).rows(entity) == old(catalog).rows(entity)
                &&& cookies_of(*final(cookies)) == cookies_of(*old(cookies))
            },
        },
{
    let done = match entity {
        Entity::Person => catalog.persons.delete(id),
        Entity::Genre => catalog.genres.delete(id),
    };
    match done {
        Ok(_) => Ok(changed(cookies, entity, Change::Deleted)),
        Err(e) => Err(e),
    }
}

} // verus!

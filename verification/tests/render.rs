use catalog::flash::FlashData;
use catalog::handlers::{
    create, find_by_name, handler_404, list, print_list, root, Catalog, Demande, Entity, Failure,
    Page, Screen,
};
use catalog::render::{listed_entity, page_context, render};
use catalog::store::Record;
use tera::{Tera, Value};
use tower_cookies::Cookies;

fn engine(templates: &[(&str, &str)]) -> Tera {
    let mut tera = Tera::default();
    for (name, text) in templates {
        tera.add_raw_template(name, text).unwrap();
    }
    tera
}

fn text(s: &str) -> Value {
    Value::String(s.to_string())
}

fn object(fields: Vec<(&str, Value)>) -> Value {
    let mut map = tera::Map::new();
    for (key, value) in fields {
        map.insert(key.to_string(), value);
    }
    Value::Object(map)
}

#[test]
fn context_of_a_list_page_holds_title_records_and_flash() {
    let page = Page {
        screen: Screen::List(Entity::Genre),
        records: vec![
            Record { id: 2, name: "Blues".to_string() },
            Record { id: 1, name: "Jazz".to_string() },
        ],
        flash: Some(FlashData { kind: "success".to_string(), message: "Genre successfully added".to_string() }),
        uri: None,
    };
    let context = page_context(&page);
    assert_eq!(context.get("title"), Some(&text("Gestion des Genres")));
    assert_eq!(
        context.get("genres"),
        Some(&Value::Array(vec![
            object(vec![("id", Value::from(2)), ("name", text("Blues"))]),
            object(vec![("id", Value::from(1)), ("name", text("Jazz"))]),
        ]))
    );
    assert_eq!(
        context.get("flash"),
        Some(&object(vec![("kind", text("success")), ("message", text("Genre successfully added"))]))
    );
    assert_eq!(context.get("uri"), None);
    assert_eq!(context.get("persons"), None);
}

#[test]
fn context_of_a_person_page_uses_the_person_keys() {
    let page = Page {
        screen: Screen::Print(Entity::Person),
        records: vec![Record { id: 7, name: "Ada Lovelace".to_string() }],
        flash: None,
        uri: None,
    };
    let context = page_context(&page);
    assert_eq!(context.get("title"), Some(&text("Liste des Personnes")));
    assert_eq!(
        context.get("persons"),
        Some(&Value::Array(vec![object(vec![("id", Value::from(7)), ("full_name", text("Ada Lovelace"))])]))
    );
    assert_eq!(context.get("flash"), None);
    assert_eq!(context.get("genres"), None);
}

#[test]
fn context_of_plain_pages() {
    let start = page_context(&root());
    assert_eq!(start.get("title"), Some(&text("Start")));
    assert_eq!(start.get("persons"), None);
    assert_eq!(start.get("genres"), None);
    let missing = page_context(&handler_404("/nowhere".to_string()));
    assert_eq!(missing.get("uri"), Some(&text("/nowhere")));
    assert_eq!(missing.get("title"), None);
}

#[test]
fn context_of_an_empty_list_holds_an_empty_list() {
    let catalog = Catalog::new();
    let context = page_context(&print_list(&catalog, Entity::Genre));
    assert_eq!(context.get("genres"), Some(&Value::Array(vec![])));
}

#[test]
fn render_list_with_flash_then_without() {
    let tera = engine(&[(
        "persons.html.tera",
        "{{ title }}|{% for p in persons %}{{ p.id }}={{ p.full_name }};{% endfor %}|{% if flash %}{{ flash.kind }}:{{ flash.message }}{% endif %}",
    )]);
    let mut catalog = Catalog::new();
    let mut jar = Cookies::default();
    create(&mut catalog, &mut jar, Entity::Person, "Grace Hopper".to_string()).unwrap();
    create(&mut catalog, &mut jar, Entity::Person, "Ada Lovelace".to_string()).unwrap();
    let first = render(&tera, &list(&catalog, &mut jar, Entity::Person));
    assert_eq!(
        first,
        Ok((
            200,
            "Gestion des Musiciens|2=Ada Lovelace;1=Grace Hopper;|success:Person successfully added".to_string()
        ))
    );
    let second = render(&tera, &list(&catalog, &mut jar, Entity::Person));
    assert_eq!(second, Ok((200, "Gestion des Musiciens|2=Ada Lovelace;1=Grace Hopper;|".to_string())));
}

#[test]
fn render_found_uses_the_list_template() {
    let tera = engine(&[(
        "genres.html.tera",
        "{{ title }}:{% for g in genres %}{{ g.name }},{% endfor %}",
    )]);
    let mut catalog = Catalog::new();
    let mut jar = Cookies::default();
    for name in ["Jazz", "Blues", "Acid Jazz"] {
        create(&mut catalog, &mut jar, Entity::Genre, name.to_string()).unwrap();
    }
    let page = find_by_name(&catalog, Entity::Genre, &Demande { name: "Jazz".to_string() });
    assert_eq!(render(&tera, &page), Ok((200, "Genre(s) trouvé(s):Jazz,Acid Jazz,".to_string())));
}

#[test]
fn render_missing_page_has_status_404() {
    let tera = engine(&[("error/404.html.tera", "no {{ uri }}")]);
    assert_eq!(
        render(&tera, &handler_404("/nowhere".to_string())),
        Ok((404, "no /nowhere".to_string()))
    );
}

#[test]
fn render_without_the_template_is_a_server_error() {
    let tera = Tera::default();
    let catalog = Catalog::new();
    assert_eq!(
        render(&tera, &print_list(&catalog, Entity::Genre)),
        Err(Failure { status: 500, message: "Template error in list_genres.html.tera".to_string() })
    );
    assert_eq!(
        render(&tera, &root()),
        Err(Failure { status: 500, message: "Template error in start.html.tera".to_string() })
    );
}

#[test]
fn render_with_a_template_that_asks_for_more_is_a_server_error() {
    let tera = engine(&[("about.html.tera", "{{ nothing_of_the_kind }}")]);
    assert_eq!(
        render(&tera, &catalog::handlers::about()),
        Err(Failure { status: 500, message: "Template error in about.html.tera".to_string() })
    );
}

#[test]
fn listed_entity_of_each_screen() {
    assert_eq!(listed_entity(Screen::Start), None);
    assert_eq!(listed_entity(Screen::About), None);
    assert_eq!(listed_entity(Screen::Missing), None);
    assert_eq!(listed_entity(Screen::List(Entity::Person)), Some(Entity::Person));
    assert_eq!(listed_entity(Screen::Print(Entity::Genre)), Some(Entity::Genre));
    assert_eq!(listed_entity(Screen::Found(Entity::Genre)), Some(Entity::Genre));
}

use ebook_metadata::epub;
use ebook_metadata::mobi;
use ebook_metadata::normalize::RawField;
use ebook_metadata::pdf;

fn field(name: &str, values: &[&str]) -> RawField {
    RawField {
        name: name.to_string(),
        values: values.iter().map(|v| v.to_string()).collect(),
    }
}

#[test]
fn test_epub_all_fields_present() {
    let bag = vec![
        field("title", &["The Title"]),
        field("author", &["The Author"]),
        field("description", &["The Description"]),
        field("publisher", &["The Publisher"]),
        field("date", &["2021-01-01"]),
        field("language", &["en"]),
        field("identifier", &["urn:isbn:978-3-16-148410-0"]),
    ];
    let r = epub::get_metadata(&bag);
    assert_eq!(r.title, Some("The Title".to_string()));
    assert_eq!(r.author, Some("The Author".to_string()));
    assert_eq!(r.description, Some("The Description".to_string()));
    assert_eq!(r.publisher, Some("The Publisher".to_string()));
    assert_eq!(r.date, Some("2021-01-01".to_string()));
    assert_eq!(r.language, Some("en".to_string()));
    assert_eq!(r.identifier, Some("urn:isbn:978-3-16-148410-0".to_string()));
    assert_eq!(r.year, None);
}

#[test]
fn test_epub_missing_fields_default_to_unknown() {
    let bag = vec![field("title", &["Only a Title"])];
    let r = epub::get_metadata(&bag);
    assert_eq!(r.title, Some("Only a Title".to_string()));
    assert_eq!(r.author, Some("Unknown".to_string()));
    assert_eq!(r.description, Some("Unknown".to_string()));
    assert_eq!(r.publisher, Some("Unknown".to_string()));
    assert_eq!(r.date, Some("Unknown".to_string()));
    assert_eq!(r.language, Some("Unknown".to_string()));
    assert_eq!(r.identifier, Some("Unknown".to_string()));
}

#[test]
fn test_epub_empty_value_list_defaults() {
    let bag = vec![field("title", &[])];
    let r = epub::get_metadata(&bag);
    assert_eq!(r.title, Some("Unknown".to_string()));
}

#[test]
fn test_epub_takes_first_value_and_strips_quotes() {
    let bag = vec![field("author", &["\"First\" Author", "Second Author"])];
    let r = epub::get_metadata(&bag);
    assert_eq!(r.author, Some("First Author".to_string()));
}

#[test]
fn test_mobi_missing_fields_default_to_empty() {
    let bag = vec![field("title", &["A Mobi Book"])];
    let r = mobi::get_metadata(&bag);
    assert_eq!(r.title, Some("A Mobi Book".to_string()));
    assert_eq!(r.author, Some(String::new()));
    assert_eq!(r.description, Some(String::new()));
    assert_eq!(r.publisher, Some(String::new()));
    assert_eq!(r.identifier, Some(String::new()));
    assert_eq!(r.date, Some(String::new()));
    assert_eq!(r.language, None);
    assert_eq!(r.year, None);
}

#[test]
fn test_mobi_field_names() {
    let bag = vec![
        field("title", &["A Mobi Book"]),
        field("author", &["An Author"]),
        field("isbn", &["9783161484100"]),
        field("publish_date", &["2020-02-07"]),
    ];
    let r = mobi::get_metadata(&bag);
    assert_eq!(r.identifier, Some("9783161484100".to_string()));
    assert_eq!(r.date, Some("2020-02-07".to_string()));
}

#[test]
fn test_pdf_fields_and_structured_year() {
    let bag = vec![
        field("title", &["A Paper"]),
        field("author", &["Someone"]),
        field("subject", &["On Things"]),
        field("producer", &["/Acme#20Press/"]),
    ];
    let r = pdf::get_metadata(&bag, Some(2020));
    assert_eq!(r.title, Some("A Paper".to_string()));
    assert_eq!(r.author, Some("Someone".to_string()));
    assert_eq!(r.description, Some("On Things".to_string()));
    assert_eq!(r.publisher, Some("Acme Press".to_string()));
    assert_eq!(r.year, Some("2020".to_string()));
    assert_eq!(r.date, None);
    assert_eq!(r.language, None);
    assert_eq!(r.identifier, None);
}

#[test]
fn test_pdf_missing_fields_default_to_unknown() {
    let bag = vec![];
    let r = pdf::get_metadata(&bag, None);
    assert_eq!(r.title, Some("Unknown".to_string()));
    assert_eq!(r.author, Some("Unknown".to_string()));
    assert_eq!(r.description, Some("Unknown".to_string()));
    assert_eq!(r.publisher, Some("Unknown".to_string()));
    assert_eq!(r.year, Some("Unknown".to_string()));
}

#[test]
fn test_pdf_strips_quotes() {
    let bag = vec![field("title", &["\"Quoted\""])];
    let r = pdf::get_metadata(&bag, None);
    assert_eq!(r.title, Some("Quoted".to_string()));
}

#[test]
fn test_epub_author_falls_back_to_creator() {
    let bag = vec![field("creator", &["The Creator"])];
    let r = epub::get_metadata(&bag);
    assert_eq!(r.author, Some("The Creator".to_string()));
}

#[test]
fn test_epub_author_outranks_creator() {
    let bag = vec![
        field("creator", &["The Creator"]),
        field("author", &["The Author"]),
    ];
    let r = epub::get_metadata(&bag);
    assert_eq!(r.author, Some("The Author".to_string()));
}

use ebook_metadata::record::Record;
use ebook_metadata::utils::{get_extension, get_year, new_hashmap, resolve_year};

#[test]
/// Test the get_year function
fn test_get_year() {
    assert_eq!(get_year("2020-01-01"), "2020");
    assert_eq!(get_year("2011-03-15T04:00:00+00:00"), "2011");
    assert_eq!(get_year("2020-02-07"), "2020");
}

#[test]
fn test_get_year_structured_date() {
    assert_eq!(get_year("D:20200207120000"), "2020");
    assert_eq!(get_year("D:2020:06"), "2020");
    assert_eq!(get_year("D:20"), "20");
    assert_eq!(get_year("D:"), "");
}

#[test]
fn test_get_year_already_a_year() {
    assert_eq!(get_year("2020"), "2020");
    assert_eq!(get_year("1965"), "1965");
}

#[test]
fn test_get_year_empty_and_passthrough() {
    assert_eq!(get_year(""), "");
    assert_eq!(get_year("sometime"), "sometime");
    assert_eq!(get_year("  1999  "), "1999");
}

#[test]
fn test_get_extension() {
    assert_eq!(get_extension("books/book.pdf"), "pdf");
    assert_eq!(get_extension("book.EPUB"), "epub");
    assert_eq!(get_extension("archive.tar.GZ"), "gz");
    assert_eq!(get_extension("noextension"), "unknown");
    assert_eq!(get_extension(".hidden"), "unknown");
    assert_eq!(get_extension("dir.d/file"), "unknown");
}

#[test]
fn test_new_hashmap_is_empty() {
    let m = new_hashmap();
    assert!(m.is_empty());
}

#[test]
fn test_resolve_year_derives_from_date() {
    let mut tags = Record::new();
    tags.date = Some("2011-03-15T04:00:00+00:00".to_string());
    resolve_year(&mut tags);
    assert_eq!(tags.year, Some("2011".to_string()));
    assert_eq!(tags.date, Some("2011-03-15T04:00:00+00:00".to_string()));
}

#[test]
fn test_resolve_year_provider_year_wins() {
    let mut tags = Record::new();
    tags.date = Some("2011-03-15".to_string());
    tags.year = Some("1999".to_string());
    resolve_year(&mut tags);
    assert_eq!(tags.year, Some("1999".to_string()));
}

#[test]
fn test_resolve_year_nothing_to_derive() {
    let mut tags = Record::new();
    resolve_year(&mut tags);
    assert_eq!(tags.year, None);
}

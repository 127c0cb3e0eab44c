use ebook_metadata::record::Record;
use ebook_metadata::rename_file::{
    candidate_path, finish_plan, get_unique_value, rename_file, render_filename, RenameError,
};

fn dune_record() -> Record {
    let mut r = Record::new();
    r.title = Some("Dune".to_string());
    r.author = Some("Herbert".to_string());
    r.year = Some("1965".to_string());
    r
}

#[test]
fn test_render_filename_end_to_end() {
    let r = dune_record();
    let stem = render_filename("%t - %a (%y)", &r).unwrap();
    assert_eq!(stem, "Dune - Herbert (1965)");
}

#[test]
fn test_render_filename_sanitizes_colon_and_dot() {
    let mut r = Record::new();
    r.title = Some("Vol.1: Intro".to_string());
    let stem = render_filename("%t", &r).unwrap();
    assert_eq!(stem, "Vol1 - Intro");
}

#[test]
fn test_render_filename_sanitization_is_idempotent() {
    let mut r = Record::new();
    r.title = Some("Vol.1: Intro".to_string());
    let once = render_filename("%t", &r).unwrap();
    let mut again = Record::new();
    again.title = Some(once.clone());
    let twice = render_filename("%t", &again).unwrap();
    assert_eq!(once, twice);
}

#[test]
fn test_render_filename_absent_keys_leave_tokens() {
    let r = Record::new();
    let stem = render_filename("%t - %a", &r).unwrap();
    assert_eq!(stem, "%t - %a");
}

#[test]
fn test_render_filename_normalized_default_is_substituted() {
    let mut r = Record::new();
    r.title = Some("Unknown".to_string());
    let stem = render_filename("%t", &r).unwrap();
    assert_eq!(stem, "Unknown");
}

#[test]
fn test_render_filename_slash_becomes_dash() {
    let mut r = Record::new();
    r.title = Some("AC/DC".to_string());
    let stem = render_filename("%t", &r).unwrap();
    assert_eq!(stem, "AC-DC");
}

#[test]
fn test_render_filename_empty_pattern_is_refused() {
    let r = dune_record();
    assert_eq!(render_filename("", &r), Err(RenameError::EmptyPattern));
}

#[test]
fn test_render_filename_empty_result_is_refused() {
    let r = dune_record();
    assert_eq!(render_filename("...", &r), Err(RenameError::EmptyRenderedName));
}

#[test]
fn test_rename_plan_end_to_end() {
    let r = dune_record();
    let plan = rename_file("books/old.epub", &r, "%t - %a (%y)", false, 42, false).unwrap();
    assert_eq!(plan.source, "books/old.epub");
    assert_eq!(plan.destination, "books/Dune - Herbert (1965).epub");
    assert!(plan.perform);
    assert!(!plan.disambiguated);
}

#[test]
fn test_rename_plan_unchanged_path_is_left_alone() {
    let r = dune_record();
    let plan = rename_file("Dune - Herbert (1965).epub", &r, "%t - %a (%y)", false, 42, false)
        .unwrap();
    assert_eq!(plan.destination, "Dune - Herbert (1965).epub");
    assert!(!plan.perform);
    assert!(!plan.disambiguated);
}

#[test]
fn test_rename_plan_dry_run_never_performs() {
    let r = dune_record();
    let quiet = rename_file("books/old.epub", &r, "%t - %a (%y)", false, 42, true).unwrap();
    assert!(!quiet.perform);
    assert_eq!(quiet.destination, "books/Dune - Herbert (1965).epub");
    let collided = rename_file("books/old.epub", &r, "%t - %a (%y)", true, 42, true).unwrap();
    assert!(!collided.perform);
    assert!(collided.disambiguated);
    assert_eq!(collided.destination, "books/Dune - Herbert (1965) (0042).epub");
}

#[test]
fn test_rename_plan_collision_is_disambiguated() {
    let r = dune_record();
    let naive = rename_file("books/old.epub", &r, "%t - %a (%y)", false, 42, false).unwrap();
    let plan = rename_file("books/old.epub", &r, "%t - %a (%y)", true, 42, false).unwrap();
    assert!(plan.disambiguated);
    assert_ne!(plan.destination, naive.destination);
    assert_eq!(plan.destination, "books/Dune - Herbert (1965) (0042).epub");
}

#[test]
fn test_rename_plan_wide_unique_token_is_kept_whole() {
    let r = dune_record();
    let plan = rename_file("books/old.epub", &r, "%t", true, 1234567, false).unwrap();
    assert_eq!(plan.destination, "books/Dune (1234567).epub");
}

#[test]
fn test_candidate_path_pieces() {
    let r = dune_record();
    let c = candidate_path("books/old.epub", &r, "%t").unwrap();
    assert_eq!(c.original, "books/old.epub");
    assert_eq!(c.stem, "Dune");
    assert_eq!(c.ext, "epub");
    assert_eq!(c.parent, "books");
    assert_eq!(c.dest, "books/Dune.epub");
    assert!(!c.unchanged);
    let plan = finish_plan(&c, false, 0, false);
    assert_eq!(plan.destination, "books/Dune.epub");
    assert!(plan.perform);
}

#[test]
fn test_candidate_path_no_parent_directory() {
    let r = dune_record();
    let c = candidate_path("old.pdf", &r, "%t").unwrap();
    assert_eq!(c.parent, "");
    assert_eq!(c.dest, "Dune.pdf");
}

#[test]
fn test_get_unique_value_is_bounded() {
    let v = get_unique_value();
    assert!(v < 10_000_000);
}

#[test]
fn test_candidate_path_in_root_directory() {
    let r = dune_record();
    let c = candidate_path("/old.epub", &r, "%t").unwrap();
    assert_eq!(c.parent, "/");
    assert_eq!(c.dest, "/Dune.epub");
}

use mod_preset_compiler::format::{format_mods, join};
use mod_preset_compiler::ignore::{contains_id, parse_ignore_list};
use mod_preset_compiler::require::check_required;
use mod_preset_compiler::resolve::{lookup, resolve_all};
use mod_preset_compiler::sort::sort_mods;

fn strings(items: &[&str]) -> Vec<String> {
    items.iter().map(|s| s.to_string()).collect()
}

#[test]
fn sort_is_case_insensitive_and_stable() {
    let input = strings(&["@banana", "@Apple", "@apple"]);
    let sorted = sort_mods(&input);
    assert_eq!(sorted, strings(&["@Apple", "@apple", "@banana"]));
}

#[test]
fn sort_orders_by_lowercase_form_not_byte_value() {
    let input = strings(&["@Banana", "@apple"]);
    let sorted = sort_mods(&input);
    assert_eq!(sorted, strings(&["@apple", "@Banana"]));
}

#[test]
fn sort_keeps_duplicates() {
    let input = strings(&["@b", "@a", "@b"]);
    let sorted = sort_mods(&input);
    assert_eq!(sorted, strings(&["@a", "@b", "@b"]));
}

#[test]
fn lookup_returns_first_hit_and_none_on_miss() {
    let table = vec![
        ("Contact".to_string(), "@contact".to_string()),
        ("Contact".to_string(), "@other".to_string()),
    ];
    assert_eq!(lookup(&table, &"Contact".to_string()), Some("@contact".to_string()));
    assert_eq!(lookup(&table, &"Unknown".to_string()), None);
}

#[test]
fn resolve_all_drops_misses_and_empty_table_drops_all() {
    let table = vec![("Contact".to_string(), "@contact".to_string())];
    let names = strings(&["Contact", "Unknown"]);
    assert_eq!(resolve_all(&table, &names), strings(&["@contact"]));
    let empty: Vec<(String, String)> = Vec::new();
    assert_eq!(resolve_all(&empty, &names), Vec::<String>::new());
}

#[test]
fn parse_ignore_list_skips_blank_lines() {
    let entries = parse_ignore_list("@alpha\n\n@beta\n");
    assert_eq!(entries, strings(&["@alpha", "@beta"]));
}

#[test]
fn parse_ignore_list_handles_crlf_and_missing_final_newline() {
    let entries = parse_ignore_list("@alpha\r\n\r\n@beta");
    assert_eq!(entries, strings(&["@alpha", "@beta"]));
}

#[test]
fn parse_ignore_list_of_empty_text_is_empty() {
    assert_eq!(parse_ignore_list(""), Vec::<String>::new());
}

#[test]
fn contains_id_matches_exactly_and_case_sensitively() {
    let list = strings(&["@Apple"]);
    assert!(contains_id(&list, &"@Apple".to_string()));
    assert!(!contains_id(&list, &"@apple".to_string()));
}

#[test]
fn check_required_reports_the_absent_identifiers_in_order() {
    let required = strings(&["@A", "@B", "@C"]);
    let mods = strings(&["@A", "@C"]);
    assert_eq!(
        check_required(&required, &mods),
        Some("Required mods missing: @B".to_string())
    );
}

#[test]
fn check_required_is_silent_when_all_are_present() {
    let required = strings(&["@A", "@B", "@C"]);
    let mods = strings(&["@C", "@A", "@B"]);
    assert_eq!(check_required(&required, &mods), None);
}

#[test]
fn check_required_joins_several_missing_with_commas() {
    let required = strings(&["@A", "@B", "@C"]);
    let mods = strings(&["@B"]);
    assert_eq!(
        check_required(&required, &mods),
        Some("Required mods missing: @A, @C".to_string())
    );
}

#[test]
fn join_and_format_plain_and_fenced() {
    let ids = strings(&["@a", "@b"]);
    assert_eq!(join(&ids, ";"), "@a;@b".to_string());
    assert_eq!(format_mods(&ids, false), "@a;@b".to_string());
    assert_eq!(format_mods(&ids, true), "```\n@a;@b\n```".to_string());
}

#[test]
fn format_of_empty_sequence_is_empty() {
    let ids: Vec<String> = Vec::new();
    assert_eq!(format_mods(&ids, false), "".to_string());
    assert_eq!(format_mods(&ids, true), "```\n\n```".to_string());
}

#[test]
fn unfencing_the_fenced_output_gives_the_plain_output() {
    let ids = strings(&["@CBAA3", "@ace"]);
    let fenced = format_mods(&ids, true);
    let plain = format_mods(&ids, false);
    let stripped = fenced
        .strip_prefix("```\n")
        .and_then(|s| s.strip_suffix("\n```"))
        .unwrap();
    assert_eq!(stripped, plain);
}

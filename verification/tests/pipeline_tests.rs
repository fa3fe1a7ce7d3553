use mod_preset_compiler::extract::{extract_dlc_names, extract_mod_names};
use mod_preset_compiler::pipeline::{compile, filter_community, ModListInfo, MyDelegate};

fn strings(items: &[&str]) -> Vec<String> {
    items.iter().map(|s| s.to_string()).collect()
}

fn preset_document(dlc_rows: &[&str], mod_rows: &[&str]) -> String {
    let mut body = String::new();
    body.push_str("<div class=\"dlc-list\"><table><tbody>");
    for name in dlc_rows {
        body.push_str(&format!(
            "<tr><td data-type=\"DisplayName\">{}</td></tr>",
            name
        ));
    }
    body.push_str("</tbody></table></div>");
    body.push_str("<div class=\"mod-list\"><table><tbody>");
    for name in mod_rows {
        body.push_str(&format!(
            "<tr><td data-type=\"DisplayName\">{}</td></tr>",
            name
        ));
    }
    body.push_str("</tbody></table></div>");
    format!("<html><body>{}</body></html>", body)
}

#[test]
fn extraction_finds_the_display_name_cells_in_order() {
    let doc = preset_document(&["Contact"], &["Task Force Radio", "ACE"]);
    assert_eq!(extract_dlc_names(&doc), strings(&["Contact"]));
    assert_eq!(extract_mod_names(&doc), strings(&["Task Force Radio", "ACE"]));
}

#[test]
fn extraction_skips_rows_without_text_and_missing_sections() {
    let doc = "<html><body><div class=\"mod-list\"><table><tbody>\
               <tr><td data-type=\"DisplayName\"></td></tr>\
               <tr><td data-type=\"DisplayName\">ACE</td></tr>\
               </tbody></table></div></body></html>";
    assert_eq!(extract_mod_names(doc), strings(&["ACE"]));
    assert_eq!(extract_dlc_names(doc), Vec::<String>::new());
}

#[test]
fn filter_community_drops_every_occurrence_of_an_ignored_identifier() {
    let names = strings(&["Foo!", "F.o.o", "Bar"]);
    let ignore = strings(&["@Foo"]);
    assert_eq!(filter_community(&names, &ignore), strings(&["@Bar"]));
}

#[test]
fn names_that_strip_to_nothing_never_reach_the_result() {
    let doc = preset_document(&[], &["!!!", "ACE"]);
    let out = compile(&doc, &Vec::new(), &Vec::new(), &Vec::new(), false);
    assert_eq!(out.mods, "@ACE".to_string());
    assert!(out.mods.split(';').all(|m| m != "@"));
}

#[test]
fn end_to_end_community_only() {
    let doc = preset_document(&[], &["Task Force Radio", "ACE"]);
    let required = strings(&["@ACE", "@TaskForceRadio"]);
    let out = compile(&doc, &Vec::new(), &Vec::new(), &required, false);
    assert_eq!(out.mods, "@ACE;@TaskForceRadio".to_string());
    assert_eq!(out.missing, None);
}

#[test]
fn end_to_end_with_lookup_table_and_ignore_set() {
    let doc = preset_document(&["Contact", "Unknown DLC"], &["zulu mod", "Alpha!", "Noise Mod"]);
    let table = vec![("Contact".to_string(), "@contact".to_string())];
    let ignore = strings(&["@NoiseMod"]);
    let required = strings(&["@Alpha", "@missing"]);
    let out = compile(&doc, &table, &ignore, &required, true);
    assert_eq!(out.mods, "```\n@Alpha;@contact;@zulumod\n```".to_string());
    assert_eq!(out.missing, Some("Required mods missing: @missing".to_string()));
}

#[test]
fn pipeline_is_idempotent_on_identical_inputs() {
    let doc = preset_document(&["Contact"], &["Task Force Radio", "ACE"]);
    let table = vec![("Contact".to_string(), "@contact".to_string())];
    let ignore = strings(&["@ACE"]);
    let required = strings(&["@TaskForceRadio"]);
    let first = compile(&doc, &table, &ignore, &required, true);
    let second = compile(&doc, &table, &ignore, &required, true);
    assert_eq!(first.mods, second.mods);
    assert_eq!(first.missing, second.missing);
}

#[test]
fn command_publishes_the_output_into_the_state() {
    let delegate = MyDelegate {
        dlc_prefixes: Vec::new(),
        ignored_mods: strings(&["@Skipme"]),
    };
    let doc = preset_document(&[], &["Skip me!", "ACE"]);
    let required = strings(&["@ACE"]);
    let mut data = ModListInfo {
        mods: String::new(),
        backticks: false,
        missing_mods: "stale diagnostic".to_string(),
    };
    delegate.command(&doc, &required, &mut data);
    assert_eq!(data.mods, "@ACE".to_string());
    assert!(!data.backticks);
    assert_eq!(data.missing_mods, "".to_string());

    let mut fenced_data = ModListInfo {
        mods: String::new(),
        backticks: true,
        missing_mods: String::new(),
    };
    delegate.command(&doc, &strings(&["@ACE", "@CBAA3"]), &mut fenced_data);
    assert_eq!(fenced_data.mods, "```\n@ACE\n```".to_string());
    assert_eq!(fenced_data.missing_mods, "Required mods missing: @CBAA3".to_string());
}

//! DocumentParser: pulls the raw display-name strings out of the preset
//! markup document, one sequence for the official-content section and one
//! for the community-mods section.

use vstd::prelude::*;

verus! {

/// What the display-name extraction returns for a document and a CSS
/// selector: parsing is deterministic, so the sequence of cell texts is a
/// function of the two strings alone and is given a name here.
pub uninterp spec fn display_names_in(doc: Seq<char>, selector: Seq<char>) -> Seq<Seq<char>>;

/// The selector for the display-name cells of the community-mods table.
pub open spec fn mod_rows_selector() -> Seq<char> {
    "div.mod-list > table > tbody > tr > td[data-type='DisplayName']"@
}

/// The selector for the display-name cells of the official-content table.
pub open spec fn dlc_rows_selector() -> Seq<char> {
    "div.dlc-list > table > tbody > tr > td[data-type='DisplayName']"@
}

/// Relies on scraper's Html::parse_document, Selector::parse, Html::select
/// and ElementRef::text: parses the document and collects, in document
/// order, the first text of each element the selector matches. A row with
/// no text is skipped; an unparsable selector matches nothing. The result
/// is named `display_names_in`.
#[verifier::external_body]
fn extract_display_names(document: &str, selector_text: &str) -> (r: Vec<String>)
    ensures
        r.deep_view() == display_names_in(document@, selector_text@),
{
    let markup = scraper::Html::parse_document(document);
    let mut out = Vec::new();
    if let Ok(selector) = scraper::Selector::parse(selector_text) {
        for element in markup.select(&selector) {
            if let Some(text) = element.text().next() {
                out.push(text.to_string());
            }
        }
    }
    out
}

/// The raw community display names of the document, in document order.
pub fn extract_mod_names(document: &str) -> (r: Vec<String>)
    ensures
        r.deep_view() == display_names_in(document@, mod_rows_selector()),
{
    extract_display_names(
        document,
        "div.mod-list > table > tbody > tr > td[data-type='DisplayName']",
    )
}

/// The raw official-content display names of the document, in document
/// order.
pub fn extract_dlc_names(document: &str) -> (r: Vec<String>)
    ensures
        r.deep_view() == display_names_in(document@, dlc_rows_selector()),
{
    extract_display_names(
        document,
        "div.dlc-list > table > tbody > tr > td[data-type='DisplayName']",
    )
}

} // verus!

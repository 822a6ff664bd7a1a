//! The texts of the documentation links shown beside each gallery widget.
use vstd::prelude::*;
use vstd::string::StringExecFns;

verus! {

/// The label text and the search URL of the documentation link for a widget
/// of the given crate: the title with a colon, and the crate's documentation
/// page with the search term filled in.
pub fn doc_link_label_with_crate(crate_name: &str, title: &str, search_term: &str) -> (r: (
    String,
    String,
))
    ensures
        r.0@ == title@ + ":"@,
        r.1@ == "https://docs.rs/"@ + crate_name@ + "?search="@ + search_term@,
{
    let mut label = String::from_str(title);
    label.append(":");
    let mut url = String::from_str("https://docs.rs/");
    url.append(crate_name);
    url.append("?search=");
    url.append(search_term);
    (label, url)
}

/// The documentation link for a widget of the GUI crate itself.
pub fn doc_link_label(title: &str, search_term: &str) -> (r: (String, String))
    ensures
        r.0@ == title@ + ":"@,
        r.1@ == "https://docs.rs/"@ + "egui"@ + "?search="@ + search_term@,
{
    doc_link_label_with_crate("egui", title, search_term)
}

} // verus!

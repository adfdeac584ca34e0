//! An ini document as plain data: sections in the order of the text, and in
//! each its items in the order of the text.

use vstd::prelude::*;

verus! {

/// The error of the `tini` crate.
#[verifier::external_type_specification]
#[verifier::external_body]
pub struct ExIniError(tini::Error);

/// One section of a document: its name, and its items as pairs of key and value.
#[derive(Clone, Debug, PartialEq, Eq)]
pub struct IniSection {
    pub name: String,
    pub items: Vec<(String, String)>,
}

/// The items of a section as contracts see them.
pub open spec fn items_view(items: Seq<(String, String)>) -> Seq<(Seq<char>, Seq<char>)> {
    items.map_values(|item: (String, String)| (item.0@, item.1@))
}

impl View for IniSection {
    type V = (Seq<char>, Seq<(Seq<char>, Seq<char>)>);

    open spec fn view(&self) -> Self::V {
        (self.name@, items_view(self.items@))
    }
}

/// A document as contracts see it.
pub open spec fn document_view(sections: Seq<IniSection>) -> Seq<
    (Seq<char>, Seq<(Seq<char>, Seq<char>)>),
> {
    sections.map_values(|section: IniSection| section@)
}

/// Whether the `tini` crate reads the text as an ini document.
pub uninterp spec fn ini_parses(text: Seq<char>) -> bool;

/// The sections that the `tini` crate reads from the text.
pub uninterp spec fn ini_document(text: Seq<char>) -> Seq<(Seq<char>, Seq<(Seq<char>, Seq<char>)>)>;

/// Calls `tini::Ini::from_string` on the text and walks the result with
/// `Ini::iter` and `Section::iter`, copying each name, key and value.
///
/// Trusted: that the same text gives the same sections, and an error exactly
/// where `tini` does not read the text.
#[verifier::external_body]
pub(crate) fn parse_ini(text: &str) -> (document: Result<Vec<IniSection>, tini::Error>)
    ensures
        document is Ok <==> ini_parses(text@),
        document matches Ok(sections) ==> document_view(sections@) == ini_document(text@),
{
    let ini = tini::Ini::from_string(text)?;
    Ok(
        ini.iter().map(
            |(name, section)|
                IniSection {
                    name: name.clone(),
                    items: section.iter().map(|(key, value)| (key.clone(), value.clone())).collect(),
                },
        ).collect(),
    )
}

} // verus!

//! Display strings that exist either once or per language.

use vstd::prelude::*;

verus! {

/// A string that is either shared by every language or given per language.
#[derive(Debug)]
pub enum TranslatedString {
    One(String),
    Multiple { de: String, en: String, fr: String, it: String },
}

/// The mathematical value of a [`TranslatedString`].
#[verifier::ext_equal]
pub ghost enum TranslatedStringView {
    One(Seq<char>),
    Multiple { de: Seq<char>, en: Seq<char>, fr: Seq<char>, it: Seq<char> },
}

impl View for TranslatedString {
    type V = TranslatedStringView;

    open spec fn view(&self) -> TranslatedStringView {
        match self {
            TranslatedString::One(s) => TranslatedStringView::One(s@),
            TranslatedString::Multiple { de, en, fr, it } => TranslatedStringView::Multiple {
                de: de@,
                en: en@,
                fr: fr@,
                it: it@,
            },
        }
    }
}

impl Clone for TranslatedString {
    fn clone(&self) -> (r: Self)
        ensures
            r@ == self@,
    {
        match self {
            TranslatedString::One(s) => TranslatedString::One(s.clone()),
            TranslatedString::Multiple { de, en, fr, it } => TranslatedString::Multiple {
                de: de.clone(),
                en: en.clone(),
                fr: fr.clone(),
                it: it.clone(),
            },
        }
    }
}

} // verus!

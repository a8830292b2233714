//! Typed errors and the lookup of their display texts.
//!
//! The engine raises errors by message key. A key only becomes a sentence
//! when a caller asks for it, against the catalogue of its locale.

use crate::json::{as_text, json_at, json_model, lookup, Json};
use crate::rewrite::{join, replace_all, texts};
use crate::text::{joined, lower_text, occurs_at, owned, replaced, starts_with_lowered};
use vstd::prelude::*;
use vstd::string::*;

verus! {

/// An error of a command: a message key with the values to fill in, or a
/// ready text from outside.
#[derive(Debug)]
pub enum CommandError {
    Localized { key: String, vars: Vec<(String, String)> },
    Raw(String),
}

/// The mathematical value of a `CommandError`.
pub enum ErrorView {
    Localized { key: Seq<char>, vars: Seq<(Seq<char>, Seq<char>)> },
    Raw(Seq<char>),
}

/// The views of a list of named values.
pub open spec fn pairs(vars: Seq<(String, String)>) -> Seq<(Seq<char>, Seq<char>)> {
    Seq::new(vars.len(), |i: int| (vars[i].0@, vars[i].1@))
}

/// The views of a list of named values whose names are borrowed.
pub open spec fn borrowed_pairs(vars: Seq<(&str, String)>) -> Seq<(Seq<char>, Seq<char>)> {
    Seq::new(vars.len(), |i: int| (vars[i].0@, vars[i].1@))
}

impl View for CommandError {
    type V = ErrorView;

    open spec fn view(&self) -> ErrorView {
        match self {
            CommandError::Localized { key, vars } => ErrorView::Localized {
                key: key@,
                vars: pairs(vars@),
            },
            CommandError::Raw(message) => ErrorView::Raw(message@),
        }
    }
}

/// The message catalogues, one document per language.
pub struct Catalogs {
    pub zh: serde_json::Value,
    pub en: serde_json::Value,
}

/// Whether a locale selects the Chinese texts: no locale does, and so does
/// one whose name begins with `zh`, in any case.
pub open spec fn zh_locale(locale: Option<Seq<char>>) -> bool {
    match locale {
        Some(name) => occurs_at(lower_text(name), seq!['z', 'h'], 0),
        None => true,
    }
}

/// The JSON Pointer under which a dotted key is looked up.
pub open spec fn pointer_for(key: Seq<char>) -> Seq<char> {
    seq!['/'] + replaced(key, seq!['.'], seq!['/'])
}

/// The text that a catalogue holds for a key; the key itself where it holds
/// no text for it.
pub open spec fn template_for(catalog: Json, key: Seq<char>) -> Seq<char> {
    match json_at(catalog, pointer_for(key)) {
        Some(Json::Text(t)) => t,
        _ => key,
    }
}

/// The placeholder of a name: the name in braces.
pub open spec fn placeholder(name: Seq<char>) -> Seq<char> {
    seq!['{'] + name + seq!['}']
}

/// A template with the placeholder of each name replaced by its value, one
/// name after the other.
pub open spec fn filled(template: Seq<char>, vars: Seq<(Seq<char>, Seq<char>)>) -> Seq<char>
    decreases vars.len(),
{
    if vars.len() == 0 {
        template
    } else {
        replaced(filled(template, vars.drop_last()), placeholder(vars.last().0), vars.last().1)
    }
}

/// The values of a list of named values, in order.
pub open spec fn values_of(vars: Seq<(Seq<char>, Seq<char>)>) -> Seq<Seq<char>> {
    Seq::new(vars.len(), |i: int| vars[i].1)
}

/// The catalogue that a locale selects.
pub open spec fn catalog_for(catalogs: Catalogs, locale: Option<Seq<char>>) -> Json {
    if zh_locale(locale) {
        json_model(catalogs.zh)
    } else {
        json_model(catalogs.en)
    }
}

/// The sentence that an error displays in a locale.
pub open spec fn message_of(e: ErrorView, catalog: Json) -> Seq<char> {
    match e {
        ErrorView::Localized { key, vars } => filled(template_for(catalog, key), vars),
        ErrorView::Raw(message) => message,
    }
}

/// What the error classifier reads: the values joined by line breaks, or the
/// ready text.
pub open spec fn details_of(e: ErrorView) -> Seq<char> {
    match e {
        ErrorView::Localized { key, vars } => joined(values_of(vars), seq!['\n']),
        ErrorView::Raw(message) => message,
    }
}

/// An error that is its key alone.
pub open spec fn keyed(key: Seq<char>) -> ErrorView {
    ErrorView::Localized { key, vars: Seq::empty() }
}

/// The error of a key with one detail.
pub open spec fn detailed(key: Seq<char>, detail: Seq<char>) -> ErrorView {
    ErrorView::Localized { key, vars: seq![("detail"@, detail)] }
}

/// The view of an optional locale name.
pub open spec fn locale_view(locale: Option<&str>) -> Option<Seq<char>> {
    match locale {
        Some(name) => Some(name@),
        None => None,
    }
}

/// Whether a locale selects the Chinese texts.
pub fn is_zh_locale(locale: Option<&str>) -> (r: bool)
    ensures
        r == zh_locale(locale_view(locale)),
{
    match locale {
        Some(value) => {
            proof {
                reveal_strlit("zh");
                assert("zh"@ =~= seq!['z', 'h']);
            }
            starts_with_lowered(value, "zh")
        },
        None => true,
    }
}

/// Looks a key up in the catalogue of a locale.
pub fn text(locale: Option<&str>, key: &str, catalogs: &Catalogs) -> (r: String)
    ensures
        r@ == template_for(catalog_for(*catalogs, locale_view(locale)), key@),
{
    let mut pointer = owned("/");
    let path = replace_all(key, ".", "/");
    pointer.append(path.as_str());
    proof {
        reveal_strlit("/");
        reveal_strlit(".");
        assert("/"@ =~= seq!['/']);
        assert("."@ =~= seq!['.']);
        assert(pointer@ =~= pointer_for(key@));
    }
    let catalog = if is_zh_locale(locale) {
        &catalogs.zh
    } else {
        &catalogs.en
    };
    match lookup(catalog, pointer.as_str()) {
        Some(found) => match as_text(found) {
            Some(t) => owned(t),
            None => owned(key),
        },
        None => owned(key),
    }
}

/// Fills the placeholders of a template.
pub fn fill(template: String, vars: &Vec<(String, String)>) -> (r: String)
    ensures
        r@ == filled(template@, pairs(vars@)),
{
    let mut message = template;
    let mut i: usize = 0;
    assert(pairs(vars@).take(0) =~= Seq::empty());
    while i < vars.len()
        invariant
            i <= vars.len(),
            message@ == filled(template@, pairs(vars@).take(i as int)),
        decreases vars.len() - i,
    {
        let mut hole = owned("{");
        hole.append(vars[i].0.as_str());
        hole.append("}");
        proof {
            reveal_strlit("{");
            reveal_strlit("}");
            assert("{"@ =~= seq!['{']);
            assert("}"@ =~= seq!['}']);
            assert(hole@ =~= placeholder(vars@[i as int].0@));
            assert(pairs(vars@).take(i + 1).drop_last() =~= pairs(vars@).take(i as int));
            assert(pairs(vars@).take(i + 1).last() == (vars@[i as int].0@, vars@[i as int].1@));
        }
        message = replace_all(message.as_str(), hole.as_str(), vars[i].1.as_str());
        i += 1;
    }
    assert(pairs(vars@).take(i as int) =~= pairs(vars@));
    message
}

/// Fills the placeholders of a template with values whose names are
/// borrowed.
pub fn apply_vars(template: String, vars: &[(&str, String)]) -> (r: String)
    ensures
        r@ == filled(template@, borrowed_pairs(vars@)),
{
    let owned_vars = own_pairs(vars);
    fill(template, &owned_vars)
}

/// Copies named values whose names are borrowed.
fn own_pairs(vars: &[(&str, String)]) -> (r: Vec<(String, String)>)
    ensures
        pairs(r@) == borrowed_pairs(vars@),
{
    let mut out: Vec<(String, String)> = Vec::new();
    let mut i: usize = 0;
    while i < vars.len()
        invariant
            i <= vars.len(),
            out@.len() == i,
            pairs(out@) == borrowed_pairs(vars@).take(i as int),
        decreases vars.len() - i,
    {
        let ghost before = out@;
        out.push((owned(vars[i].0), vars[i].1.clone()));
        i += 1;
        assert forall|j: int| 0 <= j < i implies pairs(out@)[j] == borrowed_pairs(vars@)[j] by {
            if j < i - 1 {
                assert(pairs(before)[j] == borrowed_pairs(vars@).take(i - 1)[j]);
            }
        }
        assert(pairs(out@) =~= borrowed_pairs(vars@).take(i as int));
    }
    assert(borrowed_pairs(vars@).take(i as int) =~= borrowed_pairs(vars@));
    out
}

/// Looks a key up and fills its placeholders.
pub fn text_with(locale: Option<&str>, key: &str, vars: &[(&str, String)], catalogs: &Catalogs)
    -> (r: String)
    ensures
        r@ == filled(
            template_for(catalog_for(*catalogs, locale_view(locale)), key@),
            borrowed_pairs(vars@),
        ),
{
    let owned_vars = own_pairs(vars);
    fill(text(locale, key, catalogs), &owned_vars)
}

impl CommandError {
    /// An error that is its key alone.
    pub fn key(key: &str) -> (r: Self)
        ensures
            r@ == (ErrorView::Localized { key: key@, vars: Seq::empty() }),
    {
        let r = CommandError::Localized { key: owned(key), vars: Vec::new() };
        assert(pairs(Seq::<(String, String)>::empty()) =~= Seq::empty());
        r
    }

    /// An error with values for the placeholders of its message.
    pub fn key_with(key: &str, vars: &[(&str, String)]) -> (r: Self)
        ensures
            r@ == (ErrorView::Localized { key: key@, vars: borrowed_pairs(vars@) }),
    {
        CommandError::Localized { key: owned(key), vars: own_pairs(vars) }
    }

    /// The sentence that this error displays in a locale.
    pub fn to_message(&self, locale: Option<&str>, catalogs: &Catalogs) -> (r: String)
        ensures
            r@ == message_of(self@, catalog_for(*catalogs, locale_view(locale))),
    {
        match self {
            CommandError::Localized { key, vars } => fill(
                text(locale, key.as_str(), catalogs),
                vars,
            ),
            CommandError::Raw(message) => message.clone(),
        }
    }

    /// The text that the error classifier searches.
    pub fn details_for_match(&self) -> (r: String)
        ensures
            r@ == details_of(self@),
    {
        match self {
            CommandError::Localized { key, vars } => {
                let mut values: Vec<String> = Vec::new();
                let mut i: usize = 0;
                while i < vars.len()
                    invariant
                        i <= vars.len(),
                        values@.len() == i,
                        texts(values@) == values_of(pairs(vars@)).take(i as int),
                    decreases vars.len() - i,
                {
                    let ghost before = values@;
                    values.push(vars[i].1.clone());
                    i += 1;
                    assert forall|j: int| 0 <= j < i implies texts(values@)[j] == values_of(
                        pairs(vars@),
                    )[j] by {
                        if j < i - 1 {
                            assert(texts(before)[j] == values_of(pairs(vars@)).take(i - 1)[j]);
                        }
                    }
                    assert(texts(values@) =~= values_of(pairs(vars@)).take(i as int));
                }
                assert(values_of(pairs(vars@)).take(i as int) =~= values_of(pairs(vars@)));
                proof {
                    reveal_strlit("\n");
                    assert("\n"@ =~= seq!['\n']);
                }
                join(&values, "\n")
            },
            CommandError::Raw(message) => message.clone(),
        }
    }
}

impl From<String> for CommandError {
    fn from(value: String) -> (r: Self) {
        CommandError::Raw(value)
    }
}

impl vstd::std_specs::convert::FromSpecImpl<String> for CommandError {
    open spec fn obeys_from_spec() -> bool {
        true
    }

    open spec fn from_spec(value: String) -> Self {
        CommandError::Raw(value)
    }
}

} // verus!

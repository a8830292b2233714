//! The target's manifest: its table of file checksums.
//!
//! The target refuses to start when a file's checksum in the manifest does
//! not fit the file. So the entries of the patched files are taken out.

use crate::i18n::{borrowed_pairs, detailed, CommandError, ErrorView};
use crate::json::{error_text, has_object, is_object, json_model, member, member_names, member_of,
    parse_failure, parse_json, parsed_value, pretty_text, print_pretty, remove_member,
    value_without, without_member, Json};
use vstd::prelude::*;
use vstd::string::*;

verus! {

/// The member of the manifest that holds the checksums.
pub open spec fn checksums_field() -> Seq<char> {
    "checksums"@
}

/// The entries that are taken out: the three patched entry files.
pub open spec fn patched_entries() -> Seq<Seq<char>> {
    seq![
        "extensions/antigravity/cascade-panel.html"@,
        "vs/code/electron-browser/workbench/workbench.html"@,
        "vs/code/electron-browser/workbench/workbench-jetski-agent.html"@,
    ]
}

/// A document with each of `keys` taken out of its checksums, one after the
/// other. It is spoken of only where the document has checksums.
pub open spec fn without_entries(doc: serde_json::Value, keys: Seq<Seq<char>>)
    -> serde_json::Value
    decreases keys.len(),
{
    if keys.len() == 0 {
        doc
    } else {
        value_without(without_entries(doc, keys.drop_last()), checksums_field(), keys.last())
    }
}

/// What a document holds once each of `keys` is taken out of its checksums,
/// one after the other.
pub open spec fn model_without(doc: Json, keys: Seq<Seq<char>>) -> Json
    decreases keys.len(),
{
    if keys.len() == 0 {
        doc
    } else {
        without_member(model_without(doc, keys.drop_last()), checksums_field(), keys.last())
    }
}

/// A manifest with its checksums cut down to those whose names are not
/// among `gone`: every other member of the manifest, and every other
/// checksum, is as it was. A document without checksums is left as it is.
pub open spec fn trimmed_manifest(doc: Json, gone: Set<Seq<char>>) -> Json {
    match doc {
        Json::Object(m) => match member_of(doc, checksums_field()) {
            Some(Json::Object(sums)) => Json::Object(
                m.insert(checksums_field(), Json::Object(sums.remove_keys(gone))),
            ),
            _ => doc,
        },
        _ => doc,
    }
}

/// Whether a document has checksums: a member of that name that is an
/// object.
pub open spec fn has_checksums(doc: serde_json::Value) -> bool {
    has_object(json_model(doc), checksums_field())
}

/// The names of the checksums of a document.
pub open spec fn checksum_names(doc: serde_json::Value) -> Set<Seq<char>> {
    member_names(json_model(doc), checksums_field())
}

/// Whether the checksums of a document hold one of `keys`.
pub open spec fn holds_any(doc: serde_json::Value, keys: Seq<Seq<char>>) -> bool {
    exists|i: int| 0 <= i < keys.len() && checksum_names(doc).contains(#[trigger] keys[i])
}

/// What sanitizing makes of a manifest: the new text where an entry had to
/// go, `None` where none was there, and the error where the text is no
/// JSON.
pub open spec fn sanitized(content: Seq<char>) -> Result<Option<Seq<char>>, ErrorView> {
    match parsed_value(content) {
        None => Err(
            detailed("patchBackend.errors.parseProductJsonFailed"@, parse_failure(content)),
        ),
        Some(doc) => {
            if holds_any(doc, patched_entries()) {
                Ok(Some(pretty_text(without_entries(doc, patched_entries()))))
            } else {
                Ok(None)
            }
        },
    }
}

/// The view of what sanitizing returns.
pub open spec fn sanitize_view(r: Result<Option<String>, CommandError>) -> Result<
    Option<Seq<char>>,
    ErrorView,
> {
    match r {
        Ok(Some(text)) => Ok(Some(text@)),
        Ok(None) => Ok(None),
        Err(e) => Err(e@),
    }
}

/// Taking a member out of the checksums takes its name out of their names.
pub proof fn lemma_names_without(doc: Json, field: Seq<char>, key: Seq<char>)
    ensures
        member_names(without_member(doc, field, key), field) == member_names(doc, field).remove(
            key,
        ),
        has_object(doc, field) ==> has_object(without_member(doc, field, key), field),
{
    assert(member_names(without_member(doc, field, key), field) =~= member_names(doc, field).remove(
        key,
    ));
}

/// Taking entries out one after the other leaves the manifest with its
/// checksums cut down to the rest.
pub proof fn lemma_model_without(doc: Json, keys: Seq<Seq<char>>)
    ensures
        model_without(doc, keys) == trimmed_manifest(doc, keys.to_set()),
    decreases keys.len(),
{
    let field = checksums_field();
    if keys.len() == 0 {
        assert(keys.to_set() =~= Set::<Seq<char>>::empty());
        match doc {
            Json::Object(m) => match member_of(doc, field) {
                Some(Json::Object(sums)) => {
                    assert(sums.remove_keys(keys.to_set()) =~= sums);
                    assert(m.insert(field, Json::Object(sums)) =~= m);
                },
                _ => {},
            },
            _ => {},
        }
    } else {
        let init = keys.drop_last();
        lemma_model_without(doc, init);
        assert(keys.to_set() =~= init.to_set().insert(keys.last())) by {
            assert forall|k: Seq<char>| keys.to_set().contains(k) <==> init.to_set().insert(
                keys.last(),
            ).contains(k) by {
                if keys.contains(k) {
                    let i = choose|i: int| 0 <= i < keys.len() && keys[i] == k;
                    if i < init.len() {
                        assert(init[i] == k);
                    }
                }
                if init.contains(k) {
                    let i = choose|i: int| 0 <= i < init.len() && init[i] == k;
                    assert(keys[i] == k);
                }
                if k == keys.last() {
                    assert(keys[keys.len() - 1] == k);
                }
            }
        }
        match doc {
            Json::Object(m) => match member_of(doc, field) {
                Some(Json::Object(sums)) => {
                    let cut = sums.remove_keys(init.to_set());
                    assert(cut.remove(keys.last()) =~= sums.remove_keys(keys.to_set()));
                    assert(m.insert(field, Json::Object(cut)).insert(
                        field,
                        Json::Object(cut.remove(keys.last())),
                    ) =~= m.insert(field, Json::Object(sums.remove_keys(keys.to_set()))));
                },
                _ => {},
            },
            _ => {},
        }
    }
}

/// Sanitizing leaves every other member of the manifest as it was.
pub proof fn lemma_other_members_stay(doc: Json, gone: Set<Seq<char>>, name: Seq<char>)
    requires
        name != checksums_field(),
    ensures
        member_of(trimmed_manifest(doc, gone), name) == member_of(doc, name),
{
}

/// Sanitizing leaves every other checksum as it was: a checksum whose name
/// is not among those taken out is there afterwards just when it was there
/// before, with the same value.
pub proof fn lemma_other_checksums_stay(doc: Json, gone: Set<Seq<char>>, name: Seq<char>)
    requires
        has_object(doc, checksums_field()),
        !gone.contains(name),
    ensures
        has_object(trimmed_manifest(doc, gone), checksums_field()),
        member_of(member_of(trimmed_manifest(doc, gone), checksums_field())->0, name) == member_of(
            member_of(doc, checksums_field())->0,
            name,
        ),
{
}

/// Sanitizing takes out what it is to take out: no checksum whose name is
/// among those taken out is there afterwards.
pub proof fn lemma_entries_are_gone(doc: Json, gone: Set<Seq<char>>, name: Seq<char>)
    requires
        gone.contains(name),
    ensures
        !member_names(trimmed_manifest(doc, gone), checksums_field()).contains(name),
{
}

/// The three entries are three different texts.
pub proof fn lemma_entries_differ()
    ensures
        forall|i: int, j: int|
            0 <= i < 3 && 0 <= j < 3 && i != j ==> patched_entries()[i] != patched_entries()[j],
        patched_entries().len() == 3,
{
    reveal_strlit("extensions/antigravity/cascade-panel.html");
    reveal_strlit("vs/code/electron-browser/workbench/workbench.html");
    reveal_strlit("vs/code/electron-browser/workbench/workbench-jetski-agent.html");
    assert("extensions/antigravity/cascade-panel.html"@.len() == 41);
    assert("vs/code/electron-browser/workbench/workbench.html"@.len() == 49);
    assert("vs/code/electron-browser/workbench/workbench-jetski-agent.html"@.len() == 62);
}

/// The entry at a position of the list.
fn patched_entry(at: usize) -> (r: &'static str)
    requires
        at < 3,
    ensures
        r@ == patched_entries()[at as int],
{
    if at == 0 {
        "extensions/antigravity/cascade-panel.html"
    } else if at == 1 {
        "vs/code/electron-browser/workbench/workbench.html"
    } else {
        "vs/code/electron-browser/workbench/workbench-jetski-agent.html"
    }
}

/// Takes the entries of the patched files out of a manifest's checksums.
/// Returns the text to write back, or `None` where no entry was there.
pub fn clean_checksums(content: &str) -> (r: Result<Option<String>, CommandError>)
    ensures
        sanitize_view(r) == sanitized(content@),
        parsed_value(content@) is Some && has_checksums(parsed_value(content@)->0) ==> ({
            let parsed = parsed_value(content@)->0;
            let clean = without_entries(parsed, patched_entries());
            &&& json_model(clean) == model_without(json_model(parsed), patched_entries())
            &&& json_model(clean) == trimmed_manifest(
                json_model(parsed),
                patched_entries().to_set(),
            )
            &&& checksum_names(clean) == checksum_names(parsed).difference(
                patched_entries().to_set(),
            )
        }),
        r matches Ok(Some(_)) ==> has_checksums(parsed_value(content@)->0) && forall|i: int|
            0 <= i < patched_entries().len() ==> !checksum_names(
                without_entries(parsed_value(content@)->0, patched_entries()),
            ).contains(#[trigger] patched_entries()[i]),
{
    let mut doc = match parse_json(content) {
        Ok(doc) => doc,
        Err(e) => {
            let vars = [("detail", error_text(&e))];
            assert(borrowed_pairs(vars@) =~= seq![("detail"@, parse_failure(content@))]);
            return Err(
                CommandError::key_with("patchBackend.errors.parseProductJsonFailed", &vars),
            );
        },
    };
    let found = match member(&doc, "checksums") {
        Some(sums) => is_object(sums),
        None => false,
    };
    if !found {
        return Ok(None);
    }
    let ghost first = doc;
    let ghost keys = patched_entries();
    let mut removed = false;
    let mut i: usize = 0;
    proof {
        lemma_entries_differ();
        assert(keys.take(0) =~= Seq::<Seq<char>>::empty());
    }
    while i < 3
        invariant
            i <= 3,
            keys == patched_entries(),
            keys.len() == 3,
            forall|a: int, b: int| 0 <= a < 3 && 0 <= b < 3 && a != b ==> keys[a] != keys[b],
            has_checksums(doc),
            doc == without_entries(first, keys.take(i as int)),
            json_model(doc) == model_without(json_model(first), keys.take(i as int)),
            removed == holds_any(first, keys.take(i as int)),
            forall|name: Seq<char>|
                checksum_names(doc).contains(name) <==> checksum_names(first).contains(name) && (
                forall|j: int| 0 <= j < i ==> keys[j] != name),
        decreases 3 - i,
    {
        let ghost before = doc;
        let gone = remove_member(&mut doc, "checksums", patched_entry(i));
        proof {
            lemma_names_without(json_model(before), checksums_field(), keys[i as int]);
            assert(keys.take(i + 1).drop_last() =~= keys.take(i as int));
            assert(keys.take(i + 1).last() == keys[i as int]);
            assert(gone == checksum_names(first).contains(keys[i as int]));
            let now = keys.take(i + 1);
            let was = keys.take(i as int);
            if holds_any(first, was) {
                let j = choose|j: int| 0 <= j < was.len() && checksum_names(first).contains(
                    #[trigger] was[j],
                );
                assert(now[j] == was[j]);
            }
            if gone {
                assert(checksum_names(first).contains(now[i as int]));
            }
            if holds_any(first, now) {
                let j = choose|j: int| 0 <= j < now.len() && checksum_names(first).contains(
                    #[trigger] now[j],
                );
                if j < i {
                    assert(was[j] == now[j]);
                }
            }
        }
        if gone {
            removed = true;
        }
        i += 1;
    }
    proof {
        assert(keys.take(3) =~= keys);
        lemma_model_without(json_model(first), keys);
        assert(checksum_names(doc) =~= checksum_names(first).difference(keys.to_set())) by {
            assert forall|name: Seq<char>| checksum_names(doc).contains(name) <==> checksum_names(
                first,
            ).difference(keys.to_set()).contains(name) by {
                if keys.contains(name) {
                    let j = choose|j: int| 0 <= j < keys.len() && keys[j] == name;
                    assert(keys[j] == name);
                }
                if !keys.contains(name) {
                    assert forall|j: int| 0 <= j < 3 implies keys[j] != name by {
                        if keys[j] == name {
                            assert(keys.contains(name));
                        }
                    }
                }
            }
        }
    }
    if !removed {
        return Ok(None);
    }
    match print_pretty(&doc) {
        Ok(text) => Ok(Some(text)),
        // never taken: the printer gives no error for a document
        Err(e) => {
            let vars = [("detail", error_text(&e))];
            Err(CommandError::key_with("patchBackend.errors.serializeProductJsonFailed", &vars))
        },
    }
}

} // verus!

//! Laws that relate the operations of the library to each other.

use crate::archive::{payload_named, EntryModel, Payload};
use crate::guidebook::{ends_escaped, field_of_match, field_pairs};
use crate::identity::{
    fabric_path, forge_path, identity_of, toml_first_of, toml_of, toml_strings, IdentityFailure,
    IdentityModel,
};
use crate::json::{
    is_dropped_line, json_of, json_strings, kept_lines, relaxed_json, stripped,
};
use crate::lang::{
    is_lang_path, lang_scan, lang_step, language_code, legacy_entries, LangFileModel,
    LangScanModel, LanguageFormat, ScanFailure,
};
use crate::rewrite::{copied, rewritten, Written};
use crate::sanitize::{
    cleaned, is_control_char, sanitized, scrubbed_text, without_leading_marks,
};
use crate::text::{has_suffix, lowercase, slashed};
use vstd::prelude::*;

verus! {

/// An archive whose `fabric.mod.json` holds the strings `id`, `name` and
/// `version`, the id not empty, has the identity that they state.
pub proof fn law_fabric_identity(
    entries: Seq<EntryModel>,
    data: Seq<u8>,
    doc: serde_json::Value,
    id: Seq<char>,
    name: Seq<char>,
    version: Seq<char>,
)
    requires
        payload_named(entries, fabric_path()) == Some(Payload::Bytes(data)),
        relaxed_json(sanitized(data)) == Some(doc),
        json_strings(doc).contains_pair("id"@, id),
        json_strings(doc).contains_pair("name"@, name),
        json_strings(doc).contains_pair("version"@, version),
        id.len() > 0,
    ensures
        identity_of(entries) == Ok::<IdentityModel, IdentityFailure>(
            IdentityModel { id, display_name: name, version },
        ),
{
}

/// An archive without `fabric.mod.json` whose `META-INF/mods.toml` states a
/// `modId` that is not empty, but neither `displayName` nor `version`, has
/// that id, the id as its name, and the version `unknown`.
pub proof fn law_forge_identity_defaults(
    entries: Seq<EntryModel>,
    data: Seq<u8>,
    doc: toml::Value,
    first: toml::Value,
    id: Seq<char>,
)
    requires
        payload_named(entries, fabric_path()) is None,
        payload_named(entries, forge_path()) == Some(Payload::Bytes(data)),
        toml_of(sanitized(data)) == Some(doc),
        toml_first_of(doc, "mods"@) == Some(first),
        toml_strings(first).contains_pair("modId"@, id),
        !toml_strings(first).dom().contains("displayName"@),
        !toml_strings(first).dom().contains("version"@),
        id.len() > 0,
    ensures
        identity_of(entries) == Ok::<IdentityModel, IdentityFailure>(
            IdentityModel { id, display_name: id, version: "unknown"@ },
        ),
{
}

/// The language is matched without regard to case: two requests whose
/// language codes agree in lower case find the same.
pub proof fn law_language_case(entries: Seq<EntryModel>, first: Seq<char>, second: Seq<char>)
    requires
        lowercase(first) == lowercase(second),
    ensures
        lang_scan(entries, first) == lang_scan(entries, second),
    decreases entries.len(),
{
    if entries.len() > 0 {
        law_language_case(entries.drop_last(), first, second);
    }
}

/// Every file that a scan finds has the requested language code, in lower
/// case.
pub proof fn law_language_of_files(entries: Seq<EntryModel>, target: Seq<char>, i: int)
    requires
        lang_scan(entries, target) is Ok,
        0 <= i < lang_scan(entries, target)->Ok_0.files.len(),
    ensures
        lang_scan(entries, target)->Ok_0.files[i].language == lowercase(target),
    decreases entries.len(),
{
    if entries.len() > 0 {
        let before = lang_scan(entries.drop_last(), target);
        if i < before->Ok_0.files.len() {
            law_language_of_files(entries.drop_last(), target, i);
        }
    }
}

/// An archive of two language files, of which the second alone has the
/// requested language and can be parsed, yields exactly one file, with the
/// requested language code in lower case.
pub proof fn law_one_file_of_two(
    other: EntryModel,
    wanted: EntryModel,
    data: Seq<u8>,
    target: Seq<char>,
)
    requires
        !(other.payload is Sealed),
        is_lang_path(slashed(other.name)),
        language_code(slashed(other.name)) != lowercase(target),
        wanted.payload == Payload::Bytes(data),
        is_lang_path(slashed(wanted.name)),
        language_code(slashed(wanted.name)) == lowercase(target),
        crate::lang::lang_content(slashed(wanted.name), data) is Some,
    ensures
        lang_scan(seq![other, wanted], target) is Ok,
        lang_scan(seq![other, wanted], target)->Ok_0.files.len() == 1,
        lang_scan(seq![other, wanted], target)->Ok_0.files[0].language == lowercase(target),
        lang_scan(seq![other, wanted], target)->Ok_0.files[0].path == wanted.name,
        lang_scan(seq![other, wanted], target)->Ok_0.skipped.len() == 0,
{
    let both = seq![other, wanted];
    let first = seq![other];
    assert(both.drop_last() =~= first);
    assert(first.drop_last() =~= Seq::<EntryModel>::empty());
    assert(both.last() == wanted);
    assert(first.last() == other);
    let start = LangScanModel { files: Seq::empty(), skipped: Seq::empty(), format: None };
    assert(lang_scan(first.drop_last(), target) == Ok::<LangScanModel, ScanFailure>(start));
    assert(lang_scan(first, target) == lang_step(start, other, 0, target));
}

/// The format of the reference locale is that of its first language file:
/// once observed, no later entry changes it.
pub proof fn law_first_format_stays(entries: Seq<EntryModel>, target: Seq<char>, upto: int)
    requires
        0 <= upto <= entries.len(),
        lang_scan(entries, target) is Ok,
        lang_scan(entries.take(upto), target) is Ok,
        lang_scan(entries.take(upto), target)->Ok_0.format is Some,
    ensures
        lang_scan(entries, target)->Ok_0.format == lang_scan(
            entries.take(upto),
            target,
        )->Ok_0.format,
    decreases entries.len() - upto,
{
    if upto < entries.len() {
        assert(entries.take(upto + 1).drop_last() == entries.take(upto));
        if lang_scan(entries.take(upto + 1), target) is Err {
            crate::lang::lemma_scan_stops(entries, target, upto + 1);
        } else {
            law_first_format_stays(entries, target, upto + 1);
        }
    } else {
        assert(entries.take(upto) == entries);
    }
}

/// An archive whose only entry is a legacy language file of the reference
/// locale yields, on a request for that locale, that file with the mapping
/// of its lines, and the legacy format.
pub proof fn law_legacy_reference_file(entry: EntryModel, data: Seq<u8>, target: Seq<char>)
    requires
        entry.payload == Payload::Bytes(data),
        is_lang_path(slashed(entry.name)),
        has_suffix(slashed(entry.name), ".lang"@),
        !has_suffix(slashed(entry.name), ".json"@),
        language_code(slashed(entry.name)) == "en_us"@,
        lowercase(target) == "en_us"@,
    ensures
        lang_scan(seq![entry], target) == Ok::<LangScanModel, ScanFailure>(
            LangScanModel {
                files: seq![
                    LangFileModel {
                        language: "en_us"@,
                        path: entry.name,
                        content: legacy_entries(sanitized(data)),
                    },
                ],
                skipped: Seq::empty(),
                format: Some(LanguageFormat::LegacyKeyValue),
            },
        ),
{
    let entries = seq![entry];
    assert(entries.drop_last() =~= Seq::<EntryModel>::empty());
    assert(entries.last() == entry);
    let start = LangScanModel { files: Seq::empty(), skipped: Seq::empty(), format: None };
    assert(lang_scan(entries.drop_last(), target) == Ok::<LangScanModel, ScanFailure>(start));
    assert(lang_scan(entries, target) == lang_step(start, entry, 0, target));
    assert(Seq::<LangFileModel>::empty().push(
        LangFileModel {
            language: "en_us"@,
            path: entry.name,
            content: legacy_entries(sanitized(data)),
        },
    ) =~= seq![
        LangFileModel {
            language: "en_us"@,
            path: entry.name,
            content: legacy_entries(sanitized(data)),
        },
    ]);
}

/// Index of the last written entry of that name; -1 if there is none.
pub open spec fn last_written(list: Seq<Written>, name: Seq<char>) -> int
    decreases list.len(),
{
    if list.len() == 0 {
        -1
    } else if list.last().0 == name {
        list.len() - 1
    } else {
        last_written(list.drop_last(), name)
    }
}

/// Number of written entries of that name.
pub open spec fn count_written(list: Seq<Written>, name: Seq<char>) -> nat
    decreases list.len(),
{
    if list.len() == 0 {
        0
    } else if list.last().0 == name {
        1 + count_written(list.drop_last(), name)
    } else {
        count_written(list.drop_last(), name)
    }
}

/// What is copied holds no entry of the replaced name, and under every other
/// name the bytes that a lookup by that name finds in the source.
pub proof fn lemma_copied(entries: Seq<EntryModel>, path: Seq<char>, name: Seq<char>)
    requires
        copied(entries, path) is Ok,
    ensures
        count_written(copied(entries, path)->Ok_0, path) == 0,
        name != path ==> match payload_named(entries, name) {
            Some(Payload::Bytes(data)) => {
                let list = copied(entries, path)->Ok_0;
                0 <= last_written(list, name) < list.len() && list[last_written(list, name)].1
                    == data
            },
            Some(_) => false,
            None => last_written(copied(entries, path)->Ok_0, name) == -1,
        },
        copied(entries, path)->Ok_0.len() <= entries.len(),
    decreases entries.len(),
{
    if entries.len() > 0 {
        let front = entries.drop_last();
        lemma_copied(front, path, name);
        let done = copied(front, path)->Ok_0;
        let entry = entries.last();
        crate::archive::lemma_last_named(front, name);
        crate::archive::lemma_last_named(entries, name);
        if entry.name != path {
            let list = done.push((entry.name, entry.payload->Bytes_0));
            assert(list.drop_last() == done);
            assert(copied(entries, path)->Ok_0 == list);
            if name != path && entry.name != name {
                assert(last_written(list, name) == last_written(done, name));
                if payload_named(front, name) is Some {
                    assert(list[last_written(done, name)] == done[last_written(done, name)]);
                    assert(entries[crate::archive::last_named(front, name)]
                        == front[crate::archive::last_named(front, name)]);
                }
            }
        } else {
            assert(copied(entries, path)->Ok_0 == done);
            if name != path && payload_named(front, name) is Some {
                assert(entries[crate::archive::last_named(front, name)]
                    == front[crate::archive::last_named(front, name)]);
            }
        }
    }
}

/// Replacing an entry, as far as the written entries go: the new archive
/// holds the new bytes, as they were given, under the replaced name, and
/// holds that name once; under every other name it holds the bytes that the
/// source held; and it holds no entry more than the source and the new one.
pub proof fn law_rewrite_round_trip(
    entries: Seq<EntryModel>,
    path: Seq<char>,
    content: Seq<u8>,
    name: Seq<char>,
)
    requires
        rewritten(entries, path, content) is Ok,
    ensures
        ({
            let list = rewritten(entries, path, content)->Ok_0;
            &&& list.len() > 0
            &&& last_written(list, path) == list.len() - 1
            &&& list[last_written(list, path)].1 == content
            &&& count_written(list, path) == 1
            &&& list.len() <= entries.len() + 1
            &&& name != path ==> match payload_named(entries, name) {
                Some(Payload::Bytes(data)) => 0 <= last_written(list, name) < list.len()
                    && list[last_written(list, name)].1 == data,
                Some(_) => false,
                None => last_written(list, name) == -1,
            }
        }),
{
    lemma_copied(entries, path, name);
    let done = copied(entries, path)->Ok_0;
    let list = done.push((path, content));
    assert(list.drop_last() == done);
}

/// A text that parses strictly is parsed as it stands: the recovery ladder
/// stops at its first step.
pub proof fn law_valid_json_short_circuits(text: Seq<char>)
    requires
        json_of(text) is Some,
    ensures
        relaxed_json(text) == json_of(text),
{
}

/// A text without control characters and without a byte order mark at its
/// start is left as it is by cleaning.
pub proof fn lemma_clean_text_unchanged(text: Seq<char>)
    requires
        forall|i: int| 0 <= i < text.len() ==> !is_control_char(#[trigger] text[i]),
        text.len() > 0 ==> text[0] != '\u{feff}',
    ensures
        cleaned(text) == text,
{
    assert(without_leading_marks(text) == text);
    lemma_scrub_keeps_clean_text(text);
}

/// A cleaned text holds no control character but tab, line feed and
/// carriage return; in particular it holds no U+0000.
pub proof fn law_cleaned_has_no_control(text: Seq<char>, i: int)
    requires
        0 <= i < cleaned(text).len(),
    ensures
        !is_control_char(cleaned(text)[i]),
        cleaned(text)[i] != '\0',
{
    lemma_scrubbed_has_no_control(without_leading_marks(text), i);
}

/// A scrubbed text holds no control character but tab, line feed and
/// carriage return.
pub proof fn lemma_scrubbed_has_no_control(text: Seq<char>, i: int)
    requires
        0 <= i < scrubbed_text(text).len(),
    ensures
        !is_control_char(scrubbed_text(text)[i]),
        scrubbed_text(text)[i] != '\0',
    decreases text.len(),
{
    if text.len() > 0 {
        let front = scrubbed_text(text.drop_last());
        if i < front.len() {
            lemma_scrubbed_has_no_control(text.drop_last(), i);
        }
    }
}

/// Scrubbing leaves a text without control characters as it is.
pub proof fn lemma_scrub_keeps_clean_text(text: Seq<char>)
    requires
        forall|i: int| 0 <= i < text.len() ==> !is_control_char(#[trigger] text[i]),
    ensures
        scrubbed_text(text) == text,
    decreases text.len(),
{
    if text.len() > 0 {
        let front = text.drop_last();
        assert forall|i: int| 0 <= i < front.len() implies !is_control_char(
            #[trigger] front[i],
        ) by {
            assert(front[i] == text[i]);
        }
        lemma_scrub_keeps_clean_text(front);
        assert(!is_control_char(text[text.len() - 1]));
        assert(front.push(text.last()) =~= text);
    } else {
        assert(text =~= Seq::<char>::empty());
    }
}

/// Comment stripping alters no text that is valid JSON after cleaning; and
/// a valid JSON text without control characters and byte order mark is not
/// altered at all.
pub proof fn law_valid_json_not_altered(text: Seq<char>)
    requires
        json_of(cleaned(text)) is Some,
    ensures
        stripped(text) == cleaned(text),
        (forall|i: int| 0 <= i < text.len() ==> !is_control_char(#[trigger] text[i])) && (text.len()
            > 0 ==> text[0] != '\u{feff}') ==> stripped(text) == text,
{
    if (forall|i: int| 0 <= i < text.len() ==> !is_control_char(#[trigger] text[i])) && (text.len()
        > 0 ==> text[0] != '\u{feff}') {
        lemma_clean_text_unchanged(text);
    }
}

/// The line repair keeps no comment line and no blank line.
pub proof fn law_repair_drops_comments(lines: Seq<Seq<char>>, i: int)
    requires
        0 <= i < kept_lines(lines).len(),
    ensures
        !is_dropped_line(kept_lines(lines)[i]),
    decreases lines.len(),
{
    if lines.len() > 0 {
        let front = kept_lines(lines.drop_last());
        if i < front.len() {
            law_repair_drops_comments(lines.drop_last(), i);
        }
    }
}

/// No field is taken from a match that ends on an escaped quote: every
/// field of a page comes from a match whose closing quote is not escaped.
pub proof fn law_no_field_from_escaped_quote(matches: Seq<Seq<Option<Seq<char>>>>, i: int)
    requires
        0 <= i < field_pairs(matches).len(),
    ensures
        exists|k: int|
            0 <= k < matches.len() && #[trigger] field_of_match(matches[k]) == Some(
                field_pairs(matches)[i],
            ) && !ends_escaped(matches[k][0]->0),
    decreases matches.len(),
{
    if matches.len() > 0 {
        let front = matches.drop_last();
        if i < field_pairs(front).len() {
            law_no_field_from_escaped_quote(front, i);
            let k = choose|k: int|
                0 <= k < front.len() && #[trigger] field_of_match(front[k]) == Some(
                    field_pairs(front)[i],
                ) && !ends_escaped(front[k][0]->0);
            assert(matches[k] == front[k]);
        } else {
            let k = matches.len() - 1;
            assert(field_of_match(matches[k]) == Some(field_pairs(matches)[i]));
        }
    }
}

} // verus!

//! Records of backups and of translation sessions.

use crate::numbers::push_decimal;
use crate::sorting::{by_text_down, sort_texts_descending};
use crate::text::{chars_of, string_of, texts_of};
use vstd::prelude::*;
use vstd::relations::sorted_by;

verus! {

/// Metadata of one backup.
#[derive(Debug, Clone)]
pub struct BackupMetadata {
    /// Unique backup identifier.
    pub id: String,
    /// Backup creation timestamp.
    pub timestamp: String,
    /// Type of content backed up.
    pub backup_type: String,
    /// Name of the source file or mod.
    pub source_name: String,
    /// Target language code.
    pub target_language: String,
    /// Session that this backup belongs to.
    pub session_id: String,
    /// Translation statistics.
    pub statistics: BackupStatistics,
    /// Paths of the files that were backed up.
    pub original_paths: Vec<String>,
}

/// Statistics of one backup.
#[derive(Debug, Clone)]
pub struct BackupStatistics {
    pub total_keys: u32,
    pub successful_translations: u32,
    pub file_size: u64,
}

/// A backup and where it lies.
#[derive(Debug, Clone)]
pub struct BackupInfo {
    /// Backup metadata.
    pub metadata: BackupMetadata,
    /// Full path of the backup directory.
    pub backup_path: String,
    /// Whether this backup can be restored.
    pub can_restore: bool,
}

/// Summary of the translations of one session.
#[derive(Debug, Clone)]
pub struct TranslationSummary {
    pub lang: String,
    pub translations: Vec<TranslationEntry>,
}

/// One translation of a session.
#[derive(Debug, Clone)]
pub struct TranslationEntry {
    /// `mod`, `quest`, `patchouli` or `custom`.
    pub translation_type: String,
    pub name: String,
    /// `completed` or `failed`.
    pub status: String,
    /// Translated and total keys, as in `234/234`.
    pub keys: String,
}

/// A decimal digit.
pub open spec fn is_digit(c: char) -> bool {
    '0' <= c <= '9'
}

/// A session id has the form `YYYY-MM-DD_HH-MM-SS`.
pub open spec fn is_session_id(s: Seq<char>) -> bool {
    &&& s.len() == 19
    &&& s[4] == '-'
    &&& s[7] == '-'
    &&& s[10] == '_'
    &&& s[13] == '-'
    &&& s[16] == '-'
    &&& forall|i: int|
        0 <= i < 19 && i != 4 && i != 7 && i != 10 && i != 13 && i != 16 ==> is_digit(#[trigger] s[i])
}

/// Whether `session_id` has the form `YYYY-MM-DD_HH-MM-SS`.
pub fn validate_session_id_format(session_id: &str) -> (ok: bool)
    ensures
        ok == is_session_id(session_id@),
{
    let chars = chars_of(session_id);
    if chars.len() != 19 {
        return false;
    }
    let mut i: usize = 0;
    while i < 19
        invariant
            i <= 19,
            chars.len() == 19,
            chars@ == session_id@,
            forall|j: int|
                0 <= j < i ==> if j == 4 || j == 7 || j == 13 || j == 16 {
                    chars[j] == '-'
                } else if j == 10 {
                    chars[j] == '_'
                } else {
                    is_digit(chars[j])
                },
        decreases 19 - i,
    {
        let c = chars[i];
        let good = if i == 4 || i == 7 || i == 13 || i == 16 {
            c == '-'
        } else if i == 10 {
            c == '_'
        } else {
            '0' <= c && c <= '9'
        };
        if !good {
            assert(chars@[i as int] == c);
            return false;
        }
        i += 1;
    }
    true
}

/// The names that are session ids, in their order.
pub open spec fn session_ids(names: Seq<Seq<char>>) -> Seq<Seq<char>>
    decreases names.len(),
{
    if names.len() == 0 {
        Seq::empty()
    } else if is_session_id(names.last()) {
        session_ids(names.drop_last()).push(names.last())
    } else {
        session_ids(names.drop_last())
    }
}

/// The session ids among the names of the session directories, newest
/// first: the ids are time stamps, so a later one comes first.
pub fn session_ids_newest_first(names: &Vec<String>) -> (r: Vec<String>)
    ensures
        sorted_by(texts_of(r@), by_text_down()),
        texts_of(r@).to_multiset() == session_ids(texts_of(names@)).to_multiset(),
{
    let mut valid: Vec<String> = Vec::new();
    let mut i: usize = 0;
    proof {
        assert(texts_of(names@).take(0) =~= Seq::<Seq<char>>::empty());
        assert(texts_of(valid@) =~= Seq::<Seq<char>>::empty());
    }
    while i < names.len()
        invariant
            i <= names.len(),
            texts_of(valid@) == session_ids(texts_of(names@).take(i as int)),
        decreases names.len() - i,
    {
        proof {
            let all = texts_of(names@);
            assert(all.take(i + 1).drop_last() == all.take(i as int));
            assert(all.take(i + 1).last() == names[i as int]@);
        }
        if validate_session_id_format(names[i].as_str()) {
            let ghost before = texts_of(valid@);
            valid.push(names[i].clone());
            proof {
                assert(texts_of(valid@) =~= before.push(names[i as int]@));
            }
        }
        i += 1;
    }
    proof {
        assert(texts_of(names@).take(names@.len() as int) == texts_of(names@));
    }
    sort_texts_descending(&valid)
}

/// The keys of a translation entry: translated and total, as in `12/34`.
pub open spec fn keys_text(translated: int, total: int) -> Seq<char> {
    crate::numbers::decimal(translated) + seq!['/'] + crate::numbers::decimal(total)
}

impl TranslationSummary {
    /// An empty summary for a language.
    pub fn new(lang: String) -> (s: TranslationSummary)
        ensures
            s.lang == lang,
            s.translations@.len() == 0,
    {
        TranslationSummary { lang, translations: Vec::new() }
    }

    /// Appends the record of one translation.
    pub fn record(
        &mut self,
        translation_type: String,
        name: String,
        status: String,
        translated_keys: i32,
        total_keys: i32,
    )
        ensures
            final(self).lang == old(self).lang,
            final(self).translations@.len() == old(self).translations@.len() + 1,
            final(self).translations@.drop_last() == old(self).translations@,
            final(self).translations@.last().translation_type == translation_type,
            final(self).translations@.last().name == name,
            final(self).translations@.last().status == status,
            final(self).translations@.last().keys@ == keys_text(
                translated_keys as int,
                total_keys as int,
            ),
    {
        let mut keys: Vec<char> = Vec::new();
        push_decimal(&mut keys, translated_keys as i64);
        keys.push('/');
        push_decimal(&mut keys, total_keys as i64);
        assert(keys@ =~= keys_text(translated_keys as int, total_keys as int));
        let entry = TranslationEntry { translation_type, name, status, keys: string_of(&keys) };
        self.translations.push(entry);
        assert(self.translations@.drop_last() =~= old(self).translations@);
    }
}

} // verus!

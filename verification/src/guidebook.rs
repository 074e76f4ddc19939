//! Guidebook extractor: finds the pages of Patchouli books in a mod archive
//! by the shape of their paths, and takes the translatable fields out of the
//! page texts by pattern, since the pages are often not valid JSON.

use crate::archive::{Archive, EntryModel, Payload};
use crate::error::MinecraftError;
use crate::lang::{lang_models, LangFile, LangFileModel};
use crate::sanitize::{sanitize, sanitized};
use crate::text::{chars_of, slashed, string_of, texts_of, to_slashes};
use crate::text_map::{map_of, Pair, TextMap};
use regex::Regex;
use vstd::prelude::*;

verus! {

/// `regex::Regex`, a compiled pattern.
#[verifier::external_type_specification]
#[verifier::external_body]
pub struct ExRegex(Regex);

/// The pattern is a valid regular expression within the size limits.
pub uninterp spec fn regex_compiles(pattern: Seq<char>) -> bool;

/// The pattern that a compiled regular expression was made from.
pub uninterp spec fn regex_pattern(re: Regex) -> Seq<char>;

/// The capture groups of the leftmost match of a pattern in a text, group 0
/// being the whole match; `None` if the pattern matches nowhere.  A group
/// that took no part in the match is `None`.
pub uninterp spec fn regex_first(pattern: Seq<char>, text: Seq<char>) -> Option<
    Seq<Option<Seq<char>>>,
>;

/// The capture groups of all successive non-overlapping matches of a pattern
/// in a text, in the order of the matches.
pub uninterp spec fn regex_all(pattern: Seq<char>, text: Seq<char>) -> Seq<Seq<Option<Seq<char>>>>;

/// The capture groups as texts.
pub open spec fn group_views(groups: Seq<Option<String>>) -> Seq<Option<Seq<char>>> {
    groups.map_values(
        |g: Option<String>|
            match g {
                Some(s) => Some(s@),
                None => None,
            },
    )
}

/// The matches, each as the texts of its capture groups.
pub open spec fn match_views(matches: Seq<Vec<Option<String>>>) -> Seq<Seq<Option<Seq<char>>>> {
    matches.map_values(|m: Vec<Option<String>>| group_views(m@))
}

/// `Regex::new`: compiles a pattern.  Whether it compiles depends on the
/// pattern alone; `Regex::as_str` gives the pattern back.
#[verifier::external_body]
fn regex_compile(pattern: &str) -> (r: Option<Regex>)
    ensures
        r is Some <==> regex_compiles(pattern@),
        r matches Some(re) ==> regex_pattern(re) == pattern@,
{
    Regex::new(pattern).ok()
}

/// `Regex::captures`: the groups of the leftmost match, each as its text.
#[verifier::external_body]
fn regex_captures(re: &Regex, text: &str) -> (r: Option<Vec<Option<String>>>)
    ensures
        r is Some <==> regex_first(regex_pattern(*re), text@) is Some,
        r matches Some(groups) ==> regex_first(regex_pattern(*re), text@) == Some(
            group_views(groups@),
        ),
{
    re.captures(text).map(|c| c.iter().map(|g| g.map(|m| m.as_str().to_string())).collect())
}

/// `Regex::captures_iter`: the groups of every successive match.
#[verifier::external_body]
fn regex_captures_all(re: &Regex, text: &str) -> (r: Vec<Vec<Option<String>>>)
    ensures
        match_views(r@) == regex_all(regex_pattern(*re), text@),
{
    re.captures_iter(text).map(
        |c| c.iter().map(|g| g.map(|m| m.as_str().to_string())).collect(),
    ).collect()
}

/// Shape of the path of a book page: the mod id, the book id, and the page's
/// path below the directory of the reference locale.
pub open spec fn page_path_pattern() -> Seq<char> {
    r"^assets/([^/]+)/patchouli_books/([^/]+)/en_us/(.+\.json)$"@
}

/// Shape of a translatable field in a page: one of four keys, a colon, and a
/// quoted value on one line.  The value runs to its closing quote: a
/// backslash and the character behind it are stepped over together, so an
/// escaped quote is part of the value.
pub open spec fn field_pattern() -> Seq<char> {
    r#""(name|description|title|text)"\s*:\s*"((?:[^"\\\n]|\\.)*)""#@
}

/// The mod id and the book id that a path names, if it has the shape of a
/// book page.
pub open spec fn book_of_path(path: Seq<char>) -> Option<(Seq<char>, Seq<char>)> {
    match regex_first(page_path_pattern(), path) {
        Some(groups) => if groups.len() > 2 && groups[1] is Some && groups[2] is Some {
            Some((groups[1]->0, groups[2]->0))
        } else {
            None
        },
        None => None,
    }
}

/// Number of backslashes at the end of `s`.
pub open spec fn trailing_backslashes(s: Seq<char>) -> nat
    decreases s.len(),
{
    if s.len() > 0 && s.last() == '\\' {
        1 + trailing_backslashes(s.drop_last())
    } else {
        0
    }
}

/// Index of the last quote in `s` before `upto`; -1 if there is none.
pub open spec fn quote_before(s: Seq<char>, upto: int) -> int
    decreases upto,
{
    if upto <= 0 || upto > s.len() {
        -1
    } else if s[upto - 1] == '"' {
        upto - 1
    } else {
        quote_before(s, upto - 1)
    }
}

/// Index of the last quote in `s`; the last index of `s` if it has none.
pub open spec fn closing_quote(s: Seq<char>) -> int {
    if quote_before(s, s.len() as int) >= 0 {
        quote_before(s, s.len() as int)
    } else {
        s.len() - 1
    }
}

/// The match ends on an escaped quote: an odd number of backslashes stands
/// directly before its closing quote.  Such a match is spurious.
pub open spec fn ends_escaped(whole: Seq<char>) -> bool {
    whole.len() > 0 && trailing_backslashes(whole.take(closing_quote(whole))) % 2 == 1
}

/// The key and the value that one match gives, if it is not spurious.
pub open spec fn field_of_match(groups: Seq<Option<Seq<char>>>) -> Option<Pair> {
    if groups.len() > 2 && groups[0] is Some && groups[1] is Some && groups[2] is Some
        && !ends_escaped(groups[0]->0) {
        Some((groups[1]->0, groups[2]->0))
    } else {
        None
    }
}

/// The keys and values of the matches that are not spurious, in order.
pub open spec fn field_pairs(matches: Seq<Seq<Option<Seq<char>>>>) -> Seq<Pair>
    decreases matches.len(),
{
    if matches.len() == 0 {
        Seq::empty()
    } else {
        match field_of_match(matches.last()) {
            Some(pair) => field_pairs(matches.drop_last()).push(pair),
            None => field_pairs(matches.drop_last()),
        }
    }
}

/// The fields of a page text, a later one overriding an earlier one of the
/// same key.
pub open spec fn page_fields(text: Seq<char>) -> Map<Seq<char>, Seq<char>> {
    map_of(field_pairs(regex_all(field_pattern(), text)))
}

/// Whether a match ends on an escaped quote.
pub fn is_escaped_match(whole: &Vec<char>) -> (b: bool)
    ensures
        b == ends_escaped(whole@),
{
    if whole.len() == 0 {
        return false;
    }
    let mut j: usize = whole.len();
    while j > 0 && whole[j - 1] != '"'
        invariant
            j <= whole.len(),
            quote_before(whole@, whole@.len() as int) == quote_before(whole@, j as int),
        decreases j,
    {
        j -= 1;
    }
    let quote: usize = if j > 0 {
        j - 1
    } else {
        whole.len() - 1
    };
    assert(quote == closing_quote(whole@));
    let mut count: usize = 0;
    let mut k: usize = quote;
    let ghost head = whole@.take(quote as int);
    assert(head.take(k as int) == head);
    while k > 0 && whole[k - 1] == '\\'
        invariant
            k <= quote < whole.len(),
            head == whole@.take(quote as int),
            count + k <= quote,
            trailing_backslashes(head) == count + trailing_backslashes(head.take(k as int)),
        decreases k,
    {
        assert(head.take(k as int).drop_last() == head.take(k - 1));
        assert(head.take(k as int).last() == whole[k - 1]);
        count += 1;
        k -= 1;
    }
    proof {
        if k > 0 {
            assert(head.take(k as int).last() == whole[k - 1]);
        }
    }
    count % 2 == 1
}

/// Collects the fields of the matches that are not spurious.
pub fn collect_fields(matches: &Vec<Vec<Option<String>>>) -> (m: TextMap)
    ensures
        m@ == map_of(field_pairs(match_views(matches@))),
{
    let mut m = TextMap::new();
    let mut i: usize = 0;
    assert(match_views(matches@).take(0) =~= Seq::<Seq<Option<Seq<char>>>>::empty());
    while i < matches.len()
        invariant
            i <= matches.len(),
            m@ == map_of(field_pairs(match_views(matches@).take(i as int))),
        decreases matches.len() - i,
    {
        let groups = &matches[i];
        proof {
            let all = match_views(matches@);
            assert(all.take(i + 1).drop_last() == all.take(i as int));
            assert(all.take(i + 1).last() == group_views(groups@));
        }
        if groups.len() > 2 {
            match (&groups[0], &groups[1], &groups[2]) {
                (Some(whole), Some(key), Some(value)) => {
                    let whole_chars = chars_of(whole.as_str());
                    if !is_escaped_match(&whole_chars) {
                        proof {
                            crate::text_map::lemma_map_of_push(
                                field_pairs(match_views(matches@).take(i as int)),
                                key@,
                                value@,
                            );
                        }
                        m.insert(key.clone(), value.clone());
                    }
                },
                _ => {},
            }
        }
        i += 1;
    }
    assert(match_views(matches@).take(matches@.len() as int) == match_views(matches@));
    m
}

/// A Patchouli book with the pages found for it.
#[derive(Debug)]
pub struct PatchouliBook {
    /// Book id.
    pub id: String,
    /// Id of the mod that the book belongs to.
    pub mod_id: String,
    /// Name of the book: its id.
    pub name: String,
    /// Path of the first page found.
    pub path: String,
    /// The pages, in the order in which the archive holds them.
    pub lang_files: Vec<LangFile>,
}

/// What a `PatchouliBook` stands for.
pub struct BookModel {
    pub id: Seq<char>,
    pub mod_id: Seq<char>,
    pub name: Seq<char>,
    pub path: Seq<char>,
    pub lang_files: Seq<LangFileModel>,
}

impl PatchouliBook {
    /// The book as plain values.
    pub open spec fn model(&self) -> BookModel {
        BookModel {
            id: self.id@,
            mod_id: self.mod_id@,
            name: self.name@,
            path: self.path@,
            lang_files: lang_models(self.lang_files@),
        }
    }
}

/// The books as plain values.
pub open spec fn book_models(books: Seq<PatchouliBook>) -> Seq<BookModel> {
    books.map_values(|b: PatchouliBook| b.model())
}

/// Index of the first book of that mod and id; `books.len()` if none.
pub open spec fn book_index(books: Seq<BookModel>, mod_id: Seq<char>, id: Seq<char>, from: int) -> int
    decreases books.len() - from,
{
    if from < 0 || from >= books.len() {
        books.len() as int
    } else if books[from].mod_id == mod_id && books[from].id == id {
        from
    } else {
        book_index(books, mod_id, id, from + 1)
    }
}

/// The books after one more page: the page joins the book of its mod and
/// id, or opens a new book at the end.
pub open spec fn with_page(
    books: Seq<BookModel>,
    mod_id: Seq<char>,
    id: Seq<char>,
    page: LangFileModel,
) -> Seq<BookModel> {
    let at = book_index(books, mod_id, id, 0);
    if 0 <= at < books.len() {
        books.update(at, BookModel { lang_files: books[at].lang_files.push(page), ..books[at] })
    } else {
        books.push(BookModel { id, mod_id, name: id, path: page.path, lang_files: seq![page] })
    }
}

/// What a scan for book pages has found.
pub struct BookScanModel {
    /// The books, in the order in which their first pages were found.
    pub books: Seq<BookModel>,
    /// Names of the pages whose bytes could not be read.
    pub skipped: Seq<Seq<char>>,
    /// Indices of the entries that could not be opened.
    pub unopened: Seq<int>,
}

/// The locale in which the pages of a book are written.
pub open spec fn reference_locale() -> Seq<char> {
    "en_us"@
}

/// The scan after one more entry.  An entry that cannot be opened, and a
/// page whose bytes cannot be read, are left out and noted.
pub open spec fn book_step(found: BookScanModel, entry: EntryModel, index: int) -> BookScanModel {
    if entry.payload is Sealed {
        BookScanModel { unopened: found.unopened.push(index), ..found }
    } else {
        match book_of_path(slashed(entry.name)) {
            None => found,
            Some(key) => match entry.payload {
                Payload::Bytes(data) => BookScanModel {
                    books: with_page(
                        found.books,
                        key.0,
                        key.1,
                        LangFileModel {
                            language: reference_locale(),
                            path: entry.name,
                            content: page_fields(sanitized(data)),
                        },
                    ),
                    ..found
                },
                _ => BookScanModel { skipped: found.skipped.push(entry.name), ..found },
            },
        }
    }
}

/// The scan of a sequence of entries for book pages.
pub open spec fn book_scan(entries: Seq<EntryModel>) -> BookScanModel
    decreases entries.len(),
{
    if entries.len() == 0 {
        BookScanModel { books: Seq::empty(), skipped: Seq::empty(), unopened: Seq::empty() }
    } else {
        book_step(book_scan(entries.drop_last()), entries.last(), entries.len() - 1)
    }
}

/// The indices as integers.
pub open spec fn indices_of(v: Seq<usize>) -> Seq<int> {
    v.map_values(|i: usize| i as int)
}

/// The result of a scan for book pages.
#[derive(Debug)]
pub struct BookScan {
    pub books: Vec<PatchouliBook>,
    /// Names of the pages that could not be read and were left out.
    pub skipped: Vec<String>,
    /// Indices of the entries that could not be opened and were left out.
    pub unopened: Vec<usize>,
}

impl BookScan {
    /// The scan agrees with a model of it.
    pub open spec fn shows(&self, found: BookScanModel) -> bool {
        &&& book_models(self.books@) == found.books
        &&& texts_of(self.skipped@) == found.skipped
        &&& indices_of(self.unopened@) == found.unopened
    }
}

/// Adds a page to the book of its mod and id, or opens a new book for it.
pub fn add_page(books: &mut Vec<PatchouliBook>, mod_id: String, id: String, page: LangFile)
    ensures
        book_models(final(books)@) == with_page(
            book_models(old(books)@),
            mod_id@,
            id@,
            page.model(),
        ),
{
    let ghost before = book_models(books@);
    let mut at: usize = 0;
    while at < books.len() && !(books[at].mod_id == mod_id && books[at].id == id)
        invariant
            at <= books.len(),
            books@ == old(books)@,
            book_index(before, mod_id@, id@, 0) == book_index(before, mod_id@, id@, at as int),
            before == book_models(books@),
        decreases books.len() - at,
    {
        at += 1;
    }
    if at < books.len() {
        let mut book = books.remove(at);
        let ghost pages = lang_models(book.lang_files@);
        book.lang_files.push(page);
        proof {
            assert(lang_models(book.lang_files@) =~= pages.push(page.model()));
        }
        books.insert(at, book);
        proof {
            assert(book_models(books@) =~= before.update(
                at as int,
                BookModel { lang_files: before[at as int].lang_files.push(page.model()), ..before[at as int] },
            ));
        }
    } else {
        let name = id.clone();
        let path = page.path.clone();
        let mut pages: Vec<LangFile> = Vec::new();
        pages.push(page);
        proof {
            assert(lang_models(pages@) =~= seq![page.model()]);
        }
        let book = PatchouliBook { id, mod_id, name, path, lang_files: pages };
        books.push(book);
        proof {
            assert(book_models(books@) =~= before.push(book.model()));
        }
    }
}

/// The mod id and the book id of a page path, by the compiled path pattern.
fn page_key(pattern: &Regex, path: &str) -> (r: Option<(String, String)>)
    requires
        regex_pattern(*pattern) == page_path_pattern(),
    ensures
        match r {
            Some(key) => book_of_path(path@) == Some((key.0@, key.1@)),
            None => book_of_path(path@) is None,
        },
{
    match regex_captures(pattern, path) {
        None => None,
        Some(groups) => {
            if groups.len() > 2 {
                match (&groups[1], &groups[2]) {
                    (Some(mod_id), Some(id)) => Some((mod_id.clone(), id.clone())),
                    _ => None,
                }
            } else {
                None
            }
        },
    }
}

/// Scans the archive for the pages of Patchouli books in the reference
/// locale and groups them by mod and book.  A page whose bytes cannot be read
/// is left out and named in `skipped`; an entry that cannot be opened is left
/// out and noted in `unopened`.  The error `Pattern` tells that the pattern
/// engine refuses one of the two patterns.
pub fn scan_books(archive: &mut Archive) -> (r: Result<BookScan, MinecraftError>)
    ensures
        final(archive).entries() == old(archive).entries(),
        match r {
            Ok(scan) => {
                &&& regex_compiles(page_path_pattern())
                &&& regex_compiles(field_pattern())
                &&& scan.shows(book_scan(old(archive).entries()))
            },
            Err(MinecraftError::Pattern) => !(regex_compiles(page_path_pattern())
                && regex_compiles(field_pattern())),
            Err(_) => false,
        },
{
    let page_re = match regex_compile(
        r"^assets/([^/]+)/patchouli_books/([^/]+)/en_us/(.+\.json)$",
    ) {
        Some(re) => re,
        None => {
            return Err(MinecraftError::Pattern);
        },
    };
    let field_re = match regex_compile(
        r#""(name|description|title|text)"\s*:\s*"((?:[^"\\\n]|\\.)*)""#,
    ) {
        Some(re) => re,
        None => {
            return Err(MinecraftError::Pattern);
        },
    };
    let mut books: Vec<PatchouliBook> = Vec::new();
    let mut skipped: Vec<String> = Vec::new();
    let mut unopened: Vec<usize> = Vec::new();
    let n = archive.len();
    let mut i: usize = 0;
    let ghost entries = archive.entries();
    proof {
        assert(entries.take(0) =~= Seq::<EntryModel>::empty());
        assert(book_models(books@) =~= Seq::<BookModel>::empty());
        assert(texts_of(skipped@) =~= Seq::<Seq<char>>::empty());
        assert(indices_of(unopened@) =~= Seq::<int>::empty());
    }
    while i < n
        invariant
            i <= n,
            n == entries.len(),
            archive.entries() == entries,
            entries == old(archive).entries(),
            regex_pattern(page_re) == page_path_pattern(),
            regex_pattern(field_re) == field_pattern(),
            regex_compiles(page_path_pattern()),
            regex_compiles(field_pattern()),
            book_scan(entries.take(i as int)) == (BookScanModel {
                books: book_models(books@),
                skipped: texts_of(skipped@),
                unopened: indices_of(unopened@),
            }),
        decreases n - i,
    {
        proof {
            assert(entries.take(i + 1).drop_last() == entries.take(i as int));
            assert(entries.take(i + 1).last() == entries[i as int]);
        }
        match archive.entry_name(i) {
            None => {
                let ghost before = indices_of(unopened@);
                unopened.push(i);
                proof {
                    assert(indices_of(unopened@) =~= before.push(i as int));
                }
            },
            Some(name) => {
                let path = string_of(&to_slashes(&chars_of(name.as_str())));
                match page_key(&page_re, path.as_str()) {
                    None => {},
                    Some(key) => {
                        match archive.entry_bytes(i) {
                            None => {
                                let ghost before = texts_of(skipped@);
                                skipped.push(name);
                                proof {
                                    assert(texts_of(skipped@) =~= before.push(name@));
                                }
                            },
                            Some(data) => {
                                let text = sanitize(data.as_slice());
                                let matches = regex_captures_all(&field_re, text.as_str());
                                let content = collect_fields(&matches);
                                let page = LangFile {
                                    language: "en_us".to_owned(),
                                    path: name,
                                    content,
                                };
                                add_page(&mut books, key.0, key.1, page);
                            },
                        }
                    },
                }
            },
        }
        i += 1;
    }
    proof {
        assert(entries.take(n as int) == entries);
    }
    Ok(BookScan { books, skipped, unopened })
}

/// The Patchouli books of the archive, each with its pages.
pub fn extract_patchouli_books_from_archive(archive: &mut Archive) -> (r: Result<
    Vec<PatchouliBook>,
    MinecraftError,
>)
    ensures
        final(archive).entries() == old(archive).entries(),
        match r {
            Ok(books) => {
                &&& regex_compiles(page_path_pattern())
                &&& regex_compiles(field_pattern())
                &&& book_models(books@) == book_scan(old(archive).entries()).books
            },
            Err(MinecraftError::Pattern) => !(regex_compiles(page_path_pattern())
                && regex_compiles(field_pattern())),
            Err(_) => false,
        },
{
    match scan_books(archive) {
        Ok(scan) => Ok(scan.books),
        Err(e) => Err(e),
    }
}

} // verus!

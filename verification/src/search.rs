//! Search request rules: which structured queries are accepted, how a
//! semantic search is validated, and which semantic results a query admits.

use vstd::prelude::*;

use crate::error::ApplicationError;
use crate::operation_planner::{EntryKind, Location};
use crate::semantic::{SemanticError, semantic_error_text};
use crate::text::{is_blank, same_text, str_is_blank};

verus! {

/// Whether `s` starts with `p`.
pub open spec fn has_prefix(s: Seq<char>, p: Seq<char>) -> bool {
    p.len() <= s.len() && s.take(p.len() as int) == p
}

/// Whether a MIME type an entry has matches one a query expects: the same
/// type, or a `type/*` pattern whose type is followed by `/` in the actual one.
pub open spec fn mime_match(expected: Seq<char>, actual: Seq<char>) -> bool {
    ||| expected == actual
    ||| (expected.len() >= 2 && expected.skip(expected.len() - 2) == "/*"@ && {
        let prefix = expected.take(expected.len() - 2);
        has_prefix(actual, prefix) && actual.len() > prefix.len() && actual[prefix.len() as int]
            == '/'
    })
}

/// Whether `actual` matches the expected MIME type `expected`.
pub fn mime_matches(expected: &str, actual: &str) -> (r: bool)
    ensures
        r == mime_match(expected@, actual@),
{
    proof {
        reveal_strlit("/*");
    }
    if same_text(expected, actual) {
        return true;
    }
    let n = expected.unicode_len();
    if n < 2 {
        return false;
    }
    if expected.get_char(n - 2) != '/' || expected.get_char(n - 1) != '*' {
        assert(expected@.skip(n - 2)[0] == expected@[n - 2]);
        assert(expected@.skip(n - 2)[1] == expected@[n - 1]);
        return false;
    }
    assert(expected@.skip(n - 2) =~= "/*"@);
    let prefix = expected.substring_char(0, n - 2);
    let m = actual.unicode_len();
    if m <= n - 2 {
        return false;
    }
    let head = actual.substring_char(0, n - 2);
    if !same_text(head, prefix) {
        return false;
    }
    actual.get_char(n - 2) == '/'
}

/// Whether an entry's MIME type passes a query's list: an empty list admits
/// everything, and otherwise the entry needs a type matching one listed.
pub open spec fn mime_admitted(expected: Seq<String>, actual: Option<Seq<char>>) -> bool {
    expected.len() == 0 || match actual {
        Some(a) => exists|i: int| 0 <= i < expected.len() && mime_match(#[trigger] expected[i]@, a),
        None => false,
    }
}

/// Whether an entry's MIME type passes a query's list.
pub fn mime_admits(expected: &Vec<String>, actual: Option<&str>) -> (r: bool)
    ensures
        r == mime_admitted(expected@, match actual {
            Some(a) => Some(a@),
            None => None,
        }),
{
    if expected.len() == 0 {
        return true;
    }
    match actual {
        None => false,
        Some(a) => {
            let mut i: usize = 0;
            while i < expected.len()
                invariant
                    i <= expected.len(),
                    expected.len() > 0,
                    actual == Some(a),
                    forall|j: int| 0 <= j < i ==> !mime_match(#[trigger] expected@[j]@, a@),
                decreases expected.len() - i,
            {
                if mime_matches(expected[i].as_str(), a) {
                    assert(mime_match(expected@[i as int]@, a@));
                    return true;
                }
                i = i + 1;
            }
            false
        },
    }
}

/// A point in time: whole seconds since the Unix epoch and nanoseconds within the second.
#[derive(Debug, Clone, Copy, PartialEq, Eq, Structural)]
pub struct Timestamp {
    /// Seconds since the epoch.
    pub seconds: i64,
    /// Nanoseconds within the second.
    pub nanos: u32,
}

/// Whether `a` is strictly earlier than `b`.
pub open spec fn earlier(a: Timestamp, b: Timestamp) -> bool {
    a.seconds < b.seconds || (a.seconds == b.seconds && a.nanos < b.nanos)
}

/// Whether a modification time passes a query's window: a bound that is
/// set excludes entries without a time and entries outside it.
pub open spec fn in_modified_window(
    modified: Option<Timestamp>,
    after: Option<Timestamp>,
    before: Option<Timestamp>,
) -> bool {
    &&& (after matches Some(minimum) ==> (modified matches Some(actual) && !earlier(actual, minimum)))
    &&& (before matches Some(maximum) ==> (modified matches Some(actual) && !earlier(maximum, actual)))
}

fn is_earlier(a: Timestamp, b: Timestamp) -> (r: bool)
    ensures
        r == earlier(a, b),
{
    a.seconds < b.seconds || (a.seconds == b.seconds && a.nanos < b.nanos)
}

/// Whether a modification time passes a query's window.
pub fn within_modified_window(
    modified: Option<Timestamp>,
    after: Option<Timestamp>,
    before: Option<Timestamp>,
) -> (r: bool)
    ensures
        r == in_modified_window(modified, after, before),
{
    if let Some(minimum) = after {
        match modified {
            None => {
                return false;
            },
            Some(actual) => {
                if is_earlier(actual, minimum) {
                    return false;
                }
            },
        }
    }
    if let Some(maximum) = before {
        match modified {
            None => {
                return false;
            },
            Some(actual) => {
                if is_earlier(maximum, actual) {
                    return false;
                }
            },
        }
    }
    true
}

/// What a semantic result says of the entry it found, as the admission
/// rules read it.
#[derive(Debug)]
pub struct SemanticResultFacts {
    /// The entry lies within one of the search roots.
    pub within_roots: bool,
    /// The entry's MIME type, if the result reports one.
    pub media_type: Option<String>,
    /// The entry's modification time, if the result reports one.
    pub modified_at: Option<Timestamp>,
}

/// The filters of a semantic query that results must pass.
#[derive(Debug)]
pub struct SemanticResultFilter {
    /// Only entries within the search roots are wanted.
    pub current_folder_only: bool,
    /// Accepted MIME types; none means all.
    pub mime_types: Vec<String>,
    /// Earliest accepted modification time.
    pub modified_after: Option<Timestamp>,
    /// Latest accepted modification time.
    pub modified_before: Option<Timestamp>,
}

/// Whether a semantic result passes a query's filters.
pub open spec fn result_admitted(facts: SemanticResultFacts, filter: SemanticResultFilter) -> bool {
    &&& (filter.current_folder_only ==> facts.within_roots)
    &&& mime_admitted(filter.mime_types@, match facts.media_type {
        Some(m) => Some(m@),
        None => None,
    })
    &&& in_modified_window(facts.modified_at, filter.modified_after, filter.modified_before)
}

/// Whether a semantic result passes a query's folder scope, MIME types and
/// modification window.
pub fn admits_semantic_result(facts: &SemanticResultFacts, filter: &SemanticResultFilter) -> (r: bool)
    ensures
        r == result_admitted(*facts, *filter),
{
    if filter.current_folder_only && !facts.within_roots {
        return false;
    }
    let media = match &facts.media_type {
        Some(m) => Some(m.as_str()),
        None => None,
    };
    if !mime_admits(&filter.mime_types, media) {
        return false;
    }
    within_modified_window(facts.modified_at, filter.modified_after, filter.modified_before)
}

/// Whether a structured query's schema version is supported: the first
/// version, or the current one.
pub fn search_schema_supported(version: u32, current: u32) -> (r: Result<(), ApplicationError>)
    ensures
        (version == 1 || version == current) ==> r is Ok,
        !(version == 1 || version == current) ==> (r matches Err(ApplicationError::InvalidRequest(
            m,
        )) && m@ == "unsupported search query schema version"@),
{
    if version == 1 || version == current {
        Ok(())
    } else {
        Err(
            ApplicationError::InvalidRequest(
                String::from_str("unsupported search query schema version"),
            ),
        )
    }
}

/// Why a semantic search request is refused, if it is.
pub open spec fn semantic_search_rejection(
    semantic_query: Option<Seq<char>>,
    has_name: bool,
    has_content: bool,
) -> Option<Seq<char>> {
    match semantic_query {
        None => Some("semantic mode requires a semantic predicate"@),
        Some(q) => if is_blank(q) {
            Some("semantic query must not be empty"@)
        } else if has_name || has_content {
            Some("semantic mode cannot be combined with name or content predicates"@)
        } else {
            None
        },
    }
}

/// Validates a semantic search: it needs a semantic predicate whose query is
/// not blank, and no name or content predicate beside it.
pub fn validate_semantic_search(semantic_query: Option<&str>, has_name: bool, has_content: bool) -> (r:
    Result<(), ApplicationError>)
    ensures
        match semantic_search_rejection(
            match semantic_query {
                Some(q) => Some(q@),
                None => None,
            },
            has_name,
            has_content,
        ) {
            Some(m) => r matches Err(ApplicationError::InvalidRequest(t)) && t@ == m,
            None => r is Ok,
        },
{
    let q = match semantic_query {
        None => {
            return Err(
                ApplicationError::InvalidRequest(
                    String::from_str("semantic mode requires a semantic predicate"),
                ),
            );
        },
        Some(q) => q,
    };
    if str_is_blank(q) {
        return Err(
            ApplicationError::InvalidRequest(String::from_str("semantic query must not be empty")),
        );
    }
    if has_name || has_content {
        return Err(
            ApplicationError::InvalidRequest(
                String::from_str("semantic mode cannot be combined with name or content predicates"),
            ),
        );
    }
    Ok(())
}

/// Maps a failed semantic query to the application error a search reports:
/// an unavailable capability is an unavailable provider, and every other
/// failure is an invalid request carrying the failure's text.
pub fn semantic_search_error(e: SemanticError) -> (r: ApplicationError)
    ensures
        e == SemanticError::Unavailable ==> r == ApplicationError::ProviderUnavailable,
        e != SemanticError::Unavailable ==> (r matches ApplicationError::InvalidRequest(m) && m@
            == semantic_error_text(e)),
{
    match e {
        SemanticError::Unavailable => ApplicationError::ProviderUnavailable,
        _ => ApplicationError::InvalidRequest(e.message()),
    }
}

/// How a file-name pattern matches.
#[derive(Debug, Clone, Copy, PartialEq, Eq, Structural)]
pub enum NameMatchMode {
    /// The name contains the pattern.
    Substring,
    /// The name matches the glob pattern.
    Glob,
}

/// A structured file-name predicate.
#[derive(Debug, PartialEq, Eq)]
pub struct NamePredicate {
    /// The pattern.
    pub pattern: String,
    /// How it matches.
    pub mode: NameMatchMode,
    /// Whether case matters.
    pub case_sensitive: bool,
}

/// A content predicate: the text or expression to look for in files.
#[derive(Debug, PartialEq, Eq)]
pub struct ContentPredicate {
    /// The text or regular expression.
    pub query: String,
    /// Whether the query is a regular expression.
    pub regex: bool,
    /// Whether case matters.
    pub case_sensitive: bool,
    /// Whether only whole words match.
    pub whole_word: bool,
}

/// The structured part of a search request.
#[derive(Debug, PartialEq, Eq)]
pub struct StructuredSearch {
    /// Locations searched.
    pub locations: Vec<Location>,
    /// Whether subdirectories are searched.
    pub recurse: bool,
    /// Whether hidden entries are searched.
    pub show_hidden: bool,
    /// The file-name predicate, if any.
    pub name: Option<NamePredicate>,
    /// The content predicate, if any.
    pub content: Option<ContentPredicate>,
    /// Entry kinds searched.
    pub entry_kinds: Vec<EntryKind>,
    /// Accepted MIME types; empty accepts every type.
    pub mime_types: Vec<String>,
    /// Smallest accepted size.
    pub min_size_bytes: Option<u64>,
    /// Largest accepted size.
    pub max_size_bytes: Option<u64>,
    /// Earliest accepted modification time.
    pub modified_after: Option<Timestamp>,
    /// Latest accepted modification time.
    pub modified_before: Option<Timestamp>,
}

/// A non-semantic search request: its plain fields, and a structured query
/// that takes their place where it has one.
#[derive(Debug, PartialEq, Eq)]
pub struct SearchRequest {
    /// File-name text of a plain request.
    pub query: String,
    /// Locations of a plain request.
    pub roots: Vec<Location>,
    /// Whether a plain request searches subdirectories.
    pub recurse: bool,
    /// Whether a plain request searches hidden entries.
    pub show_hidden: bool,
    /// Content text of a plain request.
    pub content_query: Option<String>,
    /// Whether that content text is a regular expression.
    pub content_regex: bool,
    /// Whether case matters in that content text.
    pub content_case_sensitive: bool,
    /// Whether that content text matches whole words only.
    pub content_whole_word: bool,
    /// The structured query, if the request has one.
    pub structured: Option<StructuredSearch>,
}

/// What a search runs with.
#[derive(Debug, PartialEq, Eq)]
pub struct SearchOptions {
    /// Locations searched.
    pub roots: Vec<Location>,
    /// File-name pattern.
    pub filename_query: String,
    /// How the pattern matches, when a structured name predicate says.
    pub filename_mode: Option<NameMatchMode>,
    /// Whether case matters in the pattern.
    pub filename_case_sensitive: bool,
    /// The content predicate, if any.
    pub content: Option<ContentPredicate>,
    /// Whether subdirectories are searched.
    pub recurse: bool,
    /// Whether hidden entries are searched.
    pub show_hidden: bool,
    /// Entry kinds searched.
    pub entry_kinds: Vec<EntryKind>,
    /// Accepted MIME types; empty accepts every type.
    pub mime_types: Vec<String>,
    /// Smallest accepted size.
    pub min_size_bytes: Option<u64>,
    /// Largest accepted size.
    pub max_size_bytes: Option<u64>,
    /// Earliest accepted modification time.
    pub modified_after: Option<Timestamp>,
    /// Latest accepted modification time.
    pub modified_before: Option<Timestamp>,
}

/// The options of a plain request: its own fields, only files, every MIME
/// type, no size or time bounds, and its content text, if any.
pub open spec fn plain_options(req: SearchRequest, r: SearchOptions) -> bool {
    &&& r.roots == req.roots
    &&& r.filename_query == req.query
    &&& r.filename_mode is None
    &&& !r.filename_case_sensitive
    &&& r.recurse == req.recurse
    &&& r.show_hidden == req.show_hidden
    &&& r.entry_kinds@ == seq![EntryKind::File]
    &&& r.mime_types@.len() == 0
    &&& r.min_size_bytes is None && r.max_size_bytes is None
    &&& r.modified_after is None && r.modified_before is None
    &&& match req.content_query {
        Some(q) => r.content == Some(
            ContentPredicate {
                query: q,
                regex: req.content_regex,
                case_sensitive: req.content_case_sensitive,
                whole_word: req.content_whole_word,
            },
        ),
        None => r.content is None,
    }
}

/// The options of a structured request: its scope, filters and predicates;
/// the plain file-name text where it has no name predicate, and the plain
/// content text where it has no content predicate.
pub open spec fn structured_options(req: SearchRequest, st: StructuredSearch, r: SearchOptions) -> bool {
    &&& r.roots == st.locations
    &&& match st.name {
        Some(n) => r.filename_query == n.pattern && r.filename_mode == Some(n.mode)
            && r.filename_case_sensitive == n.case_sensitive,
        None => r.filename_query == req.query && r.filename_mode is None
            && !r.filename_case_sensitive,
    }
    &&& r.recurse == st.recurse
    &&& r.show_hidden == st.show_hidden
    &&& r.entry_kinds == st.entry_kinds
    &&& r.mime_types == st.mime_types
    &&& r.min_size_bytes == st.min_size_bytes && r.max_size_bytes == st.max_size_bytes
    &&& r.modified_after == st.modified_after && r.modified_before == st.modified_before
    &&& match st.content {
        Some(c) => r.content == Some(c),
        None => match req.content_query {
            Some(q) => r.content == Some(
                ContentPredicate {
                    query: q,
                    regex: req.content_regex,
                    case_sensitive: req.content_case_sensitive,
                    whole_word: req.content_whole_word,
                },
            ),
            None => r.content is None,
        },
    }
}

/// The options a non-semantic search runs with: a structured query takes
/// the place of the plain fields where it has one.
pub fn search_options(request: SearchRequest) -> (r: SearchOptions)
    ensures
        match request.structured {
            Some(st) => structured_options(request, st, r),
            None => plain_options(request, r),
        },
{
    let SearchRequest {
        query,
        roots,
        recurse,
        show_hidden,
        content_query,
        content_regex,
        content_case_sensitive,
        content_whole_word,
        structured,
    } = request;
    let plain_content = match content_query {
        Some(q) => Some(
            ContentPredicate {
                query: q,
                regex: content_regex,
                case_sensitive: content_case_sensitive,
                whole_word: content_whole_word,
            },
        ),
        None => None,
    };
    match structured {
        None => {
            let mut entry_kinds: Vec<EntryKind> = Vec::new();
            entry_kinds.push(EntryKind::File);
            assert(entry_kinds@ =~= seq![EntryKind::File]);
            SearchOptions {
                roots,
                filename_query: query,
                filename_mode: None,
                filename_case_sensitive: false,
                content: plain_content,
                recurse,
                show_hidden,
                entry_kinds,
                mime_types: Vec::new(),
                min_size_bytes: None,
                max_size_bytes: None,
                modified_after: None,
                modified_before: None,
            }
        },
        Some(st) => {
            let (filename_query, filename_mode, filename_case_sensitive) = match st.name {
                Some(n) => (n.pattern, Some(n.mode), n.case_sensitive),
                None => (query, None, false),
            };
            let content = match st.content {
                Some(c) => Some(c),
                None => plain_content,
            };
            SearchOptions {
                roots: st.locations,
                filename_query,
                filename_mode,
                filename_case_sensitive,
                content,
                recurse: st.recurse,
                show_hidden: st.show_hidden,
                entry_kinds: st.entry_kinds,
                mime_types: st.mime_types,
                min_size_bytes: st.min_size_bytes,
                max_size_bytes: st.max_size_bytes,
                modified_after: st.modified_after,
                modified_before: st.modified_before,
            }
        },
    }
}

/// A non-empty MIME list admits a type as soon as any one of its entries
/// matches it, wherever that entry stands in the list.
pub proof fn law_any_matching_mime_entry_admits(expected: Seq<String>, actual: Seq<char>, i: int)
    requires
        0 <= i < expected.len(),
        mime_match(expected[i]@, actual),
    ensures
        mime_admitted(expected, Some(actual)),
{
}

/// A non-empty MIME list refuses a type that none of its entries matches,
/// and refuses an entry of unknown type.
pub proof fn law_unmatched_mime_is_refused(expected: Seq<String>, actual: Seq<char>)
    requires
        expected.len() > 0,
        forall|i: int| 0 <= i < expected.len() ==> !mime_match(#[trigger] expected[i]@, actual),
    ensures
        !mime_admitted(expected, Some(actual)),
        !mime_admitted(expected, None),
{
}

/// Whether a MIME list admits a type does not depend on the order or
/// repetition of its entries: two lists with the same entries agree.
pub proof fn law_mime_list_order_is_irrelevant(
    first: Seq<String>,
    second: Seq<String>,
    actual: Option<Seq<char>>,
)
    requires
        forall|i: int|
            #![trigger first[i]]
            0 <= i < first.len() ==> exists|j: int|
                0 <= j < second.len() && first[i]@ == #[trigger] second[j]@,
        forall|j: int|
            #![trigger second[j]]
            0 <= j < second.len() ==> exists|i: int|
                0 <= i < first.len() && #[trigger] first[i]@ == second[j]@,
    ensures
        mime_admitted(first, actual) == mime_admitted(second, actual),
{
    if first.len() > 0 && second.len() == 0 {
        let x = first[0];
    }
    if second.len() > 0 && first.len() == 0 {
        let y = second[0];
    }
    if let Some(a) = actual {
        if mime_admitted(first, actual) && first.len() > 0 {
            let i = choose|i: int| 0 <= i < first.len() && mime_match(#[trigger] first[i]@, a);
            let j = choose|j: int| 0 <= j < second.len() && first[i]@ == #[trigger] second[j]@;
            assert(mime_match(second[j]@, a));
        }
        if mime_admitted(second, actual) && second.len() > 0 {
            let j = choose|j: int| 0 <= j < second.len() && mime_match(#[trigger] second[j]@, a);
            let i = choose|i: int| 0 <= i < first.len() && #[trigger] first[i]@ == second[j]@;
            assert(mime_match(first[i]@, a));
        }
    }
}

} // verus!

use fm_application::error::ApplicationError;
use fm_application::search::{
    SemanticResultFacts, SemanticResultFilter, Timestamp, admits_semantic_result, mime_admits,
    mime_matches, search_schema_supported, semantic_search_error, validate_semantic_search,
    within_modified_window,
};
use fm_application::operation_planner::{EntryKind, Location};
use fm_application::search::{
    search_options, ContentPredicate, NameMatchMode, NamePredicate, SearchRequest, StructuredSearch,
};
use fm_application::semantic::SemanticError;

#[test]
fn mime_wildcards_match_whole_top_level_types() {
    assert!(mime_matches("image/png", "image/png"));
    assert!(mime_matches("image/*", "image/png"));
    assert!(!mime_matches("image/*", "imagery/png"));
    assert!(!mime_matches("image/*", "image"));
    assert!(!mime_matches("image/png", "image/jpeg"));
    assert!(mime_matches("*", "*"));
    assert!(!mime_matches("text/*", "application/text"));
}

#[test]
fn an_empty_mime_list_admits_everything() {
    assert!(mime_admits(&Vec::new(), None));
    assert!(!mime_admits(&vec!["text/*".to_owned()], None));
    assert!(mime_admits(
        &vec!["image/*".to_owned(), "text/*".to_owned()],
        Some("text/markdown")
    ));
}

#[test]
fn modification_windows_exclude_unknown_times_only_when_bounded() {
    let t = |seconds: i64| Timestamp { seconds, nanos: 0 };
    assert!(within_modified_window(None, None, None));
    assert!(!within_modified_window(None, Some(t(1)), None));
    assert!(within_modified_window(Some(t(5)), Some(t(5)), Some(t(5))));
    assert!(!within_modified_window(Some(t(4)), Some(t(5)), None));
    assert!(!within_modified_window(
        Some(Timestamp { seconds: 5, nanos: 1 }),
        None,
        Some(t(5))
    ));
}

#[test]
fn semantic_results_pass_folder_mime_and_time_filters() {
    let filter = SemanticResultFilter {
        current_folder_only: true,
        mime_types: vec!["text/*".to_owned()],
        modified_after: None,
        modified_before: None,
    };
    let inside = SemanticResultFacts {
        within_roots: true,
        media_type: Some("text/plain".to_owned()),
        modified_at: None,
    };
    let outside = SemanticResultFacts {
        within_roots: false,
        media_type: Some("text/plain".to_owned()),
        modified_at: None,
    };
    assert!(admits_semantic_result(&inside, &filter));
    assert!(!admits_semantic_result(&outside, &filter));
}

#[test]
fn semantic_search_requests_are_validated() {
    assert_eq!(
        validate_semantic_search(None, false, false),
        Err(ApplicationError::InvalidRequest(
            "semantic mode requires a semantic predicate".to_owned()
        ))
    );
    assert_eq!(
        validate_semantic_search(Some("  "), false, false),
        Err(ApplicationError::InvalidRequest("semantic query must not be empty".to_owned()))
    );
    assert_eq!(
        validate_semantic_search(Some("invoices"), true, false),
        Err(ApplicationError::InvalidRequest(
            "semantic mode cannot be combined with name or content predicates".to_owned()
        ))
    );
    assert_eq!(validate_semantic_search(Some("invoices"), false, false), Ok(()));
    assert!(search_schema_supported(1, 3).is_ok());
    assert!(search_schema_supported(3, 3).is_ok());
    assert_eq!(
        search_schema_supported(2, 3),
        Err(ApplicationError::InvalidRequest(
            "unsupported search query schema version".to_owned()
        ))
    );
}

#[test]
fn semantic_failures_become_search_errors() {
    assert_eq!(
        semantic_search_error(SemanticError::Unavailable),
        ApplicationError::ProviderUnavailable
    );
    assert_eq!(
        semantic_search_error(SemanticError::Cancelled),
        ApplicationError::InvalidRequest("semantic operation was cancelled".to_owned())
    );
}

fn place(uri: &str) -> Location {
    Location { provider_id: "local".to_owned(), uri: uri.to_owned() }
}

fn plain_request() -> SearchRequest {
    SearchRequest {
        query: "report".to_owned(),
        roots: vec![place("file:///home")],
        recurse: true,
        show_hidden: false,
        content_query: Some("budget".to_owned()),
        content_regex: false,
        content_case_sensitive: true,
        content_whole_word: false,
        structured: None,
    }
}

#[test]
fn plain_searches_look_for_files_with_their_own_fields() {
    let options = search_options(plain_request());
    assert_eq!(options.roots, vec![place("file:///home")]);
    assert_eq!(options.filename_query, "report");
    assert_eq!(options.filename_mode, None);
    assert_eq!(options.entry_kinds, vec![EntryKind::File]);
    assert!(options.mime_types.is_empty());
    assert!(options.recurse && !options.show_hidden);
    assert_eq!(
        options.content,
        Some(ContentPredicate {
            query: "budget".to_owned(),
            regex: false,
            case_sensitive: true,
            whole_word: false,
        })
    );
}

#[test]
fn structured_queries_take_the_place_of_the_plain_fields() {
    let mut request = plain_request();
    request.structured = Some(StructuredSearch {
        locations: vec![place("file:///srv")],
        recurse: false,
        show_hidden: true,
        name: Some(NamePredicate {
            pattern: "*.pdf".to_owned(),
            mode: NameMatchMode::Glob,
            case_sensitive: true,
        }),
        content: None,
        entry_kinds: vec![EntryKind::File, EntryKind::Directory],
        mime_types: vec!["application/pdf".to_owned()],
        min_size_bytes: Some(10),
        max_size_bytes: None,
        modified_after: None,
        modified_before: Some(Timestamp { seconds: 100, nanos: 0 }),
    });
    let options = search_options(request);
    assert_eq!(options.roots, vec![place("file:///srv")]);
    assert_eq!(options.filename_query, "*.pdf");
    assert_eq!(options.filename_mode, Some(NameMatchMode::Glob));
    assert!(options.filename_case_sensitive);
    assert!(!options.recurse && options.show_hidden);
    assert_eq!(options.entry_kinds, vec![EntryKind::File, EntryKind::Directory]);
    assert_eq!(options.min_size_bytes, Some(10));
    assert_eq!(options.modified_before, Some(Timestamp { seconds: 100, nanos: 0 }));
    assert_eq!(options.content.map(|c| c.query), Some("budget".to_owned()));
}

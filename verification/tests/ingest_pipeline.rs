use know::cli::{default_clean_collection, default_extensions, default_port, Cli, Commands};
use know::error::KnowError;
use know::ingest::{
    content_or_empty, docling_reply, extension_of, file_matches, keep_embedded, make_chunks,
    parse_extensions, route_extraction, ExtractionRoute, IngestRun,
};
use know::qdrant::Store;
use know::query::{after_search, SearchVerdict};
use know::registry::image_name_has_repository;
use know::text::{join_words, str_eq, trim_str, u64_to_string};

fn sample_text(len: usize) -> String {
    let sentence = "Retrieval finds the passage that answers the question. ";
    let mut s = String::new();
    while s.chars().count() < len {
        s.push_str(sentence);
    }
    s.chars().take(len).collect()
}

#[test]
fn routing_uses_the_converter_only_for_layout_formats() {
    assert!(matches!(route_extraction("pdf", true), ExtractionRoute::LayoutService));
    assert!(matches!(route_extraction("docx", true), ExtractionRoute::LayoutService));
    assert!(matches!(route_extraction("pdf", false), ExtractionRoute::DirectRead));
    assert!(matches!(route_extraction("txt", true), ExtractionRoute::DirectRead));
    assert!(matches!(route_extraction("md", true), ExtractionRoute::DirectRead));
}

#[test]
fn converter_replies_are_classified() {
    let ok = docling_reply(200, Some("# Title".to_string()), String::new());
    assert_eq!(ok.unwrap(), "# Title");
    match docling_reply(500, None, "boom".to_string()) {
        Err(e @ KnowError::ServiceHttp { .. }) => {
            assert_eq!(e.message(), "Docling returned error 500: boom");
        }
        _ => panic!("expected the service's error"),
    }
    match docling_reply(200, None, String::new()) {
        Err(e @ KnowError::MalformedReply { .. }) => {
            assert_eq!(e.message(), "Failed to parse conversion response from Docling");
        }
        _ => panic!("expected a malformed-reply error"),
    }
}

#[test]
fn failed_reads_degrade_to_empty_content() {
    assert_eq!(content_or_empty(Some("text".to_string())), "text");
    assert_eq!(content_or_empty(None), "");
}

#[test]
fn failed_embeddings_are_skipped() {
    let source = "docs/notes.txt".to_string();
    let chunks = make_chunks(&source, &sample_text(1500));
    assert!(chunks.len() >= 3);
    let mut flags = vec![true; chunks.len()];
    flags[1] = false;
    let kept = keep_embedded(&chunks, &flags);
    assert_eq!(kept.len(), chunks.len() - 1);
    assert_eq!(kept[0].id, chunks[0].id);
    assert_eq!(kept[1].id, chunks[2].id);
}

#[test]
fn tally_and_report() {
    let mut run = IngestRun::new();
    run.record_file(4);
    run.record_file(0);
    run.record_file(3);
    assert_eq!(run.files_seen, 3);
    assert_eq!(run.chunks_stored, 7);
    assert_eq!(run.report(&"know".to_string()), "Ingested 7 chunks into collection 'know'");
    let empty = IngestRun::new();
    assert_eq!(empty.report(&"know".to_string()), "Ingested 0 chunks into collection 'know'");
}

#[test]
fn decimal_rendering() {
    assert_eq!(u64_to_string(0), "0");
    assert_eq!(u64_to_string(42), "42");
    assert_eq!(u64_to_string(10203), "10203");
}

#[test]
fn text_helpers() {
    assert_eq!(trim_str("  a b \t\n"), "a b");
    assert_eq!(trim_str("   "), "");
    assert_eq!(
        join_words(&vec!["what".to_string(), "is".to_string(), "it".to_string()]),
        "what is it"
    );
    assert_eq!(join_words(&vec![]), "");
    assert!(str_eq("abc", "abc"));
    assert!(!str_eq("abc", "abd"));
}

#[test]
fn empty_allow_list_text_yields_one_empty_entry() {
    assert_eq!(parse_extensions(""), vec!["".to_string()]);
}

#[test]
fn image_names_need_a_repository() {
    assert!(image_name_has_repository("myuser/company-docs:v1"));
    assert!(!image_name_has_repository("company-docs:v1"));
}

#[test]
fn configuration_defaults() {
    let cli = Cli::with_defaults(Commands::Status);
    assert!(cli.backend.is_none());
    assert!(cli.base_url.is_none());
    assert!(cli.model.is_none());
    assert!(cli.embed_model.is_none());
    assert_eq!(cli.qdrant_url, "http://localhost:6333");
    assert_eq!(cli.docling_url, "http://localhost:5001");
    assert_eq!(cli.collection, "know");
    assert_eq!(default_extensions(), "md,txt,pdf,docx,html");
    assert_eq!(default_port(), 8080);
    assert_eq!(default_clean_collection(), "know");
}

#[test]
fn ingest_then_query_a_text_file() {
    // Ingest a single 2000-character text file under the allow-list `txt`.
    let allow = parse_extensions("txt");
    let path = "docs/notes.txt".to_string();
    let ext = extension_of(&path);
    assert_eq!(ext, "txt");
    assert!(file_matches(&ext, &allow));
    assert!(matches!(route_extraction(&ext, false), ExtractionRoute::DirectRead));

    let content = sample_text(2000);
    let chunks = make_chunks(&path, &content);
    assert!(chunks.len() >= 1);

    // The collection takes its dimension from the probe embedding.
    let test_embedding_len = 4;
    let mut store = Store::new();
    let collection = "know".to_string();
    store.ensure_collection(&collection, test_embedding_len);
    assert_eq!(store.collections[0].dim, test_embedding_len);

    let dims = vec![test_embedding_len; chunks.len()];
    store.upsert_batch(&collection, &chunks, &dims);
    let info = store.collection_info(&collection).expect("collection exists");
    assert!(info.points_count >= 1);
    assert_eq!(info.points_count, chunks.len());

    let mut run = IngestRun::new();
    run.record_file(chunks.len());
    assert_eq!(run.chunks_stored, chunks.len());

    // A question whose answer is verbatim in the file retrieves chunks of
    // that file alone; the source list is exactly the file's path.
    match after_search(&chunks) {
        SearchVerdict::Generate { context, sources } => {
            assert_eq!(sources, vec![path.clone()]);
            assert!(context.contains("[Source: docs/notes.txt]"));
        }
        SearchVerdict::NoRelevantDocuments => panic!("expected retrieved chunks"),
    }
}

use rag_agent::chunker::{route, split, ChunkError, SourceKind, MAX_CHUNK_SIZE};
use rag_agent::config::{get_bind_address, Config};
use rag_agent::store::{RAGBuilder, UniswapChunk};

fn config() -> Config {
    Config::new(
        "127.0.0.1",
        "3000",
        String::from("anthropic"),
        String::from("openai"),
        String::from("be brief"),
        vec![String::from("docs"), String::from("src")],
    )
}

fn no_space(s: &str) -> String {
    s.chars().filter(|c| !c.is_whitespace()).collect()
}

fn long_markdown() -> String {
    let mut text = String::new();
    for section in 0..12 {
        text.push_str(&format!("# Section {section}\n\n"));
        for para in 0..4 {
            text.push_str(&format!(
                "Paragraph {para} of section {section} explains how liquidity pools price swaps and fees. "
            ));
            text.push_str("It is long enough that several of them fill a chunk.\n\n");
        }
    }
    text
}

fn long_solidity() -> String {
    let mut text = String::from("pragma solidity ^0.8.0;\n\ncontract Pool {\n");
    for i in 0..40 {
        text.push_str(&format!(
            "    function quote{i}(uint256 amountIn, uint256 reserveIn) public pure returns (uint256) {{\n        return amountIn * {i} / (reserveIn + 1);\n    }}\n\n"
        ));
    }
    text.push_str("}\n");
    text
}

#[test]
fn bind_address_joins_host_and_port() {
    assert_eq!(get_bind_address("localhost", "8080"), "localhost:8080");
    assert_eq!(config().server_bind_address, "127.0.0.1:3000");
}

#[test]
fn config_keeps_its_values() {
    let cfg = config();
    assert_eq!(cfg.api_key, "anthropic");
    assert_eq!(cfg.openai_api_key, "openai");
    assert_eq!(cfg.preamble, "be brief");
    assert_eq!(cfg.rag_directories, vec![String::from("docs"), String::from("src")]);
}

#[test]
fn routes_by_extension() {
    assert_eq!(route("x.md"), Some(SourceKind::Markdown));
    assert_eq!(route("Pair.sol"), Some(SourceKind::Solidity));
    assert_eq!(route("notes.txt"), None);
    assert_eq!(route("x.md.bak"), None);
    assert_eq!(route(".md"), None);
    assert_eq!(route("md"), None);
    assert_eq!(route("x.MD"), None);
    assert_eq!(route("x.sold"), None);
}

#[test]
fn zero_chunk_size_is_a_configuration_error() {
    assert_eq!(split("text", SourceKind::Markdown, 0).err(), Some(ChunkError::InvalidChunkSize));
    assert_eq!(split("text", SourceKind::Solidity, 0).err(), Some(ChunkError::InvalidChunkSize));
}

#[test]
fn markdown_chunks_are_bounded_and_cover_the_text() {
    let text = long_markdown();
    assert!(text.chars().count() > 3 * MAX_CHUNK_SIZE);
    let chunks = split(&text, SourceKind::Markdown, MAX_CHUNK_SIZE).unwrap();
    assert!(chunks.len() > 3);
    for c in &chunks {
        assert!(!c.is_empty());
        assert!(c.chars().count() <= MAX_CHUNK_SIZE);
    }
    assert_eq!(no_space(&chunks.concat()), no_space(&text));
}

#[test]
fn small_capacity_force_splits_a_long_construct() {
    let text = "a".repeat(25);
    let chunks = split(&text, SourceKind::Markdown, 10).unwrap();
    assert_eq!(chunks, vec!["a".repeat(10), "a".repeat(10), "a".repeat(5)]);
}

#[test]
fn solidity_chunks_are_bounded_and_cover_the_text() {
    let text = long_solidity();
    let chunks = split(&text, SourceKind::Solidity, MAX_CHUNK_SIZE).unwrap();
    assert!(chunks.len() > 3);
    for c in &chunks {
        assert!(!c.is_empty());
        assert!(c.chars().count() <= MAX_CHUNK_SIZE);
    }
    assert_eq!(no_space(&chunks.concat()), no_space(&text));
}

#[test]
fn splitting_is_deterministic() {
    let text = long_markdown();
    assert_eq!(
        split(&text, SourceKind::Markdown, MAX_CHUNK_SIZE).unwrap(),
        split(&text, SourceKind::Markdown, MAX_CHUNK_SIZE).unwrap()
    );
}

#[test]
fn new_chunk_is_empty() {
    let c = UniswapChunk::new("Pair.sol");
    assert_eq!(c.file_name, "Pair.sol");
    assert_eq!(c.content, "");
}

#[test]
fn new_builder_has_no_docs() {
    let b = RAGBuilder::new(config());
    assert!(b.docs().is_empty());
    assert_eq!(b.config().preamble, "be brief");
}

#[test]
fn unrecognized_extension_yields_nothing() {
    let mut b = RAGBuilder::new(config());
    assert_eq!(b.ingest_file("notes.txt", "# Title\n\nbody"), Ok(()));
    assert!(b.docs().is_empty());
}

#[test]
fn markdown_file_is_tagged_with_its_name() {
    let mut b = RAGBuilder::new(config());
    b.ingest_md_file("# Title\n\nSome body text.", "guide.md");
    let docs = b.into_docs();
    assert_eq!(docs.len(), 1);
    assert_eq!(docs[0].file_name, "guide.md");
    assert_eq!(docs[0].content, "# Title\n\nSome body text.");
}

#[test]
fn solidity_file_is_split_by_the_code_splitter() {
    let mut b = RAGBuilder::new(config());
    let text = long_solidity();
    assert_eq!(b.ingest_solidity_file(&text, "Pool.sol"), Ok(()));
    let expected = split(&text, SourceKind::Solidity, MAX_CHUNK_SIZE).unwrap();
    let docs = b.into_docs();
    assert_eq!(docs.len(), expected.len());
    for (d, e) in docs.iter().zip(expected.iter()) {
        assert_eq!(d.file_name, "Pool.sol");
        assert_eq!(&d.content, e);
    }
}

#[test]
fn ingest_docs_routes_each_file() {
    let mut b = RAGBuilder::new(config());
    let md = long_markdown();
    let sol = long_solidity();
    let files = vec![
        (String::from("readme.md"), md.clone()),
        (String::from("data.json"), String::from("{\"a\": 1}")),
        (String::from("Pool.sol"), sol.clone()),
    ];
    assert_eq!(b.ingest_docs(&files), Ok(()));
    let md_chunks = split(&md, SourceKind::Markdown, MAX_CHUNK_SIZE).unwrap();
    let sol_chunks = split(&sol, SourceKind::Solidity, MAX_CHUNK_SIZE).unwrap();
    let docs = b.into_docs();
    assert_eq!(docs.len(), md_chunks.len() + sol_chunks.len());
    for (i, d) in docs.iter().enumerate() {
        if i < md_chunks.len() {
            assert_eq!(d.file_name, "readme.md");
            assert_eq!(d.content, md_chunks[i]);
        } else {
            assert_eq!(d.file_name, "Pool.sol");
            assert_eq!(d.content, sol_chunks[i - md_chunks.len()]);
        }
        assert!(d.content.chars().count() <= MAX_CHUNK_SIZE);
    }
}

#[test]
fn unparsable_solidity_still_splits() {
    let text = "}}} not ((( valid {{{ solidity ;;; ".repeat(80);
    let mut b = RAGBuilder::new(config());
    assert_eq!(b.ingest_file("Broken.sol", &text), Ok(()));
    let docs = b.into_docs();
    assert!(docs.len() > 1);
    let mut joined = String::new();
    for d in &docs {
        assert_eq!(d.file_name, "Broken.sol");
        assert!(!d.content.is_empty());
        assert!(d.content.chars().count() <= MAX_CHUNK_SIZE);
        joined.push_str(&d.content);
    }
    assert_eq!(no_space(&joined), no_space(&text));
}

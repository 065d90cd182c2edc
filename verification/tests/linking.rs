//! Placeholder linking: substitution, missing-key reporting, width
//! preservation and idempotence, plus token splitting.

use dualbuild::bytecode::Segment;
use dualbuild::bytecode::UnlinkedBytecode;
use dualbuild::linker::link;
use dualbuild::linker::LibraryMap;
use dualbuild::missing::split_token;

fn addr(c: char) -> String {
    std::iter::repeat(c).take(40).collect()
}

fn sample_unlinked() -> UnlinkedBytecode {
    UnlinkedBytecode {
        prefixed: true,
        segments: vec![
            Segment::Hex("6001".to_string()),
            Segment::Placeholder("src/Lib.sol:Lib".to_string()),
            Segment::Hex("6002".to_string()),
        ],
    }
}

#[test]
fn link_substitutes_supplied_addresses() {
    let libraries = LibraryMap {
        entries: vec![("src/Lib.sol:Lib".to_string(), addr('a'))],
    };
    let (linked, missing) = link(&sample_unlinked(), &libraries);
    assert!(missing.is_empty());
    assert_eq!(
        linked.segments,
        vec![
            Segment::Hex("6001".to_string()),
            Segment::Hex(addr('a')),
            Segment::Hex("6002".to_string()),
        ]
    );
    assert!(linked.prefixed);
}

#[test]
fn link_reports_unsupplied_keys_and_leaves_them_untouched() {
    let libraries = LibraryMap::new();
    let bytecode = sample_unlinked();
    let (linked, missing) = link(&bytecode, &libraries);
    assert_eq!(missing, vec!["src/Lib.sol:Lib".to_string()]);
    assert_eq!(linked.segments, bytecode.segments);
}

#[test]
fn link_deduplicates_missing_keys() {
    let libraries = LibraryMap::new();
    let bytecode = UnlinkedBytecode {
        prefixed: false,
        segments: vec![
            Segment::Placeholder("src/Lib.sol:Lib".to_string()),
            Segment::Hex("00".to_string()),
            Segment::Placeholder("src/Lib.sol:Lib".to_string()),
        ],
    };
    let (_, missing) = link(&bytecode, &libraries);
    assert_eq!(missing, vec!["src/Lib.sol:Lib".to_string()]);
}

#[test]
fn link_preserves_text_width() {
    let libraries = LibraryMap {
        entries: vec![("src/Lib.sol:Lib".to_string(), addr('b'))],
    };
    let bytecode = sample_unlinked();
    let before = bytecode.hex_len();
    let (linked, _) = link(&bytecode, &libraries);
    assert_eq!(linked.hex_len(), before);
}

#[test]
fn relinking_resolved_output_is_byte_identical() {
    let libraries = LibraryMap {
        entries: vec![("src/Lib.sol:Lib".to_string(), addr('c'))],
    };
    let (once, missing) = link(&sample_unlinked(), &libraries);
    assert!(missing.is_empty());
    let (twice, missing_again) = link(&once, &libraries);
    assert!(missing_again.is_empty());
    assert_eq!(twice.segments, once.segments);
    assert_eq!(twice.prefixed, once.prefixed);
}

#[test]
fn split_token_accepts_exactly_two_nonempty_parts() {
    assert_eq!(
        split_token("src/Lib.sol:Lib"),
        Some(("src/Lib.sol".to_string(), "Lib".to_string()))
    );
}

#[test]
fn split_token_rejects_malformed_tokens() {
    assert_eq!(split_token("noseparator"), None);
    assert_eq!(split_token(":Lib"), None);
    assert_eq!(split_token("src/Lib.sol:"), None);
    assert_eq!(split_token("a:b:c"), None);
    assert_eq!(split_token(":"), None);
    assert_eq!(split_token(""), None);
}

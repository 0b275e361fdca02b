//! Index construction, lookup, and one-round query scenarios.

use offset_index::index::{build_index, index_of_text, normalize, FieldEntry, NormField};
use offset_index::parse::parse_text;
use offset_index::query::{
    invalid_offset_message, no_field_message, query_step, QueryOutcome,
};

fn nf(class: &[u8], name: &[u8], offset: usize, ty: Option<&[u8]>) -> NormField {
    NormField {
        scope_name: None,
        class_name: class.to_vec(),
        name: name.to_vec(),
        offset,
        ty: ty.map(|t| t.to_vec()),
    }
}

#[test]
fn distinct_offsets_make_singleton_buckets() {
    let fields = vec![
        nf(b"Foo", b"m_a", 0, Some(b"int")),
        nf(b"Foo", b"m_b", 4, Some(b"float")),
        nf(b"Foo", b"m_c", 8, Some(b"bool")),
    ];
    let ix = build_index(&fields);
    assert_eq!(ix.buckets.len(), 3);
    for f in &fields {
        let bucket = ix.lookup(f.offset).expect("bucket exists");
        assert_eq!(bucket.len(), 1);
        assert_eq!(bucket[0].name, f.name);
        assert_eq!(bucket[0].ty, f.ty);
        assert_eq!(bucket[0].class_name, f.class_name);
        assert_eq!(bucket[0].scope_name, None);
    }
}

#[test]
fn shared_offset_keeps_encounter_order() {
    let fields = vec![
        nf(b"Foo", b"m_x", 16, Some(b"int")),
        nf(b"Bar", b"m_y", 16, Some(b"float")),
    ];
    let ix = build_index(&fields);
    assert_eq!(ix.buckets.len(), 1);
    let bucket = ix.lookup(16).expect("shared bucket");
    assert_eq!(bucket.len(), 2);
    assert_eq!(bucket[0].class_name, b"Foo".to_vec());
    assert_eq!(bucket[1].class_name, b"Bar".to_vec());
}

#[test]
fn duplicate_entries_are_retained() {
    let fields = vec![
        nf(b"Foo", b"m_x", 8, Some(b"int")),
        nf(b"Foo", b"m_x", 8, Some(b"int")),
    ];
    let ix = build_index(&fields);
    let bucket = ix.lookup(8).expect("bucket exists");
    assert_eq!(bucket.len(), 2);
    assert_eq!(bucket[0], bucket[1]);
}

#[test]
fn missing_offset_has_no_bucket() {
    let fields = vec![nf(b"Foo", b"m_x", 8, Some(b"int"))];
    let ix = build_index(&fields);
    assert!(ix.lookup(9).is_none());
}

#[test]
fn parse_normalize_index_lookup_roundtrip() {
    let text = b"class Foo\n{\npublic:\nint m_x; // 0x8\n};";
    let classes = parse_text(text).expect("parses");
    let fields = normalize(&classes);
    let ix = build_index(&fields);
    let bucket = ix.lookup(8).expect("offset 8 indexed");
    assert_eq!(
        *bucket,
        vec![FieldEntry {
            name: b"m_x".to_vec(),
            ty: Some(b"int".to_vec()),
            class_name: b"Foo".to_vec(),
            scope_name: None,
        }]
    );
}

#[test]
fn index_of_text_matches_manual_pipeline() {
    let text = b"class Foo\n{\nint m_x; // 0x8\n};\nclass Bar\n{\nint m_y; // 0x8\n};";
    let ix = index_of_text(text).expect("indexes");
    let bucket = ix.lookup(8).expect("shared offset");
    assert_eq!(bucket.len(), 2);
    assert_eq!(bucket[0].class_name, b"Foo".to_vec());
    assert_eq!(bucket[1].class_name, b"Bar".to_vec());
}

#[test]
fn index_of_text_propagates_grammar_errors() {
    let err = index_of_text(b"class Foo\n{\nint m_x; // 0x8").expect_err("unterminated");
    assert_eq!(err.line, 3);
}

#[test]
fn query_prefixed_and_bare_hex_are_equivalent() {
    let text = b"class Foo\n{\nint m_x; // 0x1A8\n};";
    let ix = index_of_text(text).expect("indexes");
    let a = query_step(&ix, b"0x1A8");
    let b = query_step(&ix, b"1a8");
    assert_eq!(a, b);
    match a {
        QueryOutcome::Found { offset, lines } => {
            assert_eq!(offset, 424);
            assert_eq!(lines, vec![b"int Foo::m_x".to_vec()]);
        }
        other => panic!("expected a hit, got {:?}", other),
    }
}

#[test]
fn query_empty_prefix_is_invalid_not_fatal() {
    let ix = index_of_text(b"class Foo\n{\nint m_x; // 0x8\n};").expect("indexes");
    assert_eq!(query_step(&ix, b"0x"), QueryOutcome::Invalid);
    assert_eq!(query_step(&ix, b"zz"), QueryOutcome::Invalid);
    // The session goes on: the next well-formed query still answers.
    assert!(matches!(
        query_step(&ix, b"8"),
        QueryOutcome::Found { offset: 8, .. }
    ));
}

#[test]
fn query_empty_or_exit_ends_the_session() {
    let ix = index_of_text(b"class Foo\n{\nint m_x; // 0x8\n};").expect("indexes");
    assert_eq!(query_step(&ix, b""), QueryOutcome::Exit);
    assert_eq!(query_step(&ix, b"exit"), QueryOutcome::Exit);
    assert_eq!(query_step(&ix, b"  exit  "), QueryOutcome::Exit);
    assert_eq!(query_step(&ix, b"   "), QueryOutcome::Exit);
}

#[test]
fn query_unknown_offset_reports_no_field() {
    let ix = index_of_text(b"class Foo\n{\nint m_x; // 0x8\n};").expect("indexes");
    assert_eq!(query_step(&ix, b"9"), QueryOutcome::NoField { offset: 9 });
}

#[test]
fn scoped_and_untyped_entries_format_fully() {
    let fields = vec![NormField {
        scope_name: Some(b"client.dll".to_vec()),
        class_name: b"Foo".to_vec(),
        name: b"m_y".to_vec(),
        offset: 4,
        ty: None,
    }];
    let ix = build_index(&fields);
    match query_step(&ix, b"4") {
        QueryOutcome::Found { offset, lines } => {
            assert_eq!(offset, 4);
            assert_eq!(lines, vec![b"Unknown type Foo::m_y (client.dll)".to_vec()]);
        }
        other => panic!("expected a hit, got {:?}", other),
    }
}

#[test]
fn session_messages_are_exact() {
    assert_eq!(no_field_message(424), b"no field at offset 0x1a8".to_vec());
    assert_eq!(invalid_offset_message(), b"invalid offset".to_vec());
}

//! Resolving field types from class metadata records.

use offset_index::metadata::{get_field_type, Metadata};

#[test]
fn first_matching_record_wins() {
    let md = vec![
        Metadata::Unknown { name: b"m_x".to_vec() },
        Metadata::NetworkVarNames {
            name: b"m_x".to_vec(),
            ty_name: b"int32".to_vec(),
        },
        Metadata::NetworkVarNames {
            name: b"m_x".to_vec(),
            ty_name: b"float32".to_vec(),
        },
    ];
    assert_eq!(get_field_type(&md, b"m_x"), Some(b"int32".to_vec()));
}

#[test]
fn other_record_tags_do_not_supply_a_type() {
    let md = vec![
        Metadata::Unknown { name: b"m_x".to_vec() },
        Metadata::NetworkChangeCallback { name: b"m_x".to_vec() },
    ];
    assert_eq!(get_field_type(&md, b"m_x"), None);
}

#[test]
fn name_must_match_exactly() {
    let md = vec![Metadata::NetworkVarNames {
        name: b"m_y".to_vec(),
        ty_name: b"bool".to_vec(),
    }];
    assert_eq!(get_field_type(&md, b"m_x"), None);
    assert_eq!(get_field_type(&md, b"m_y"), Some(b"bool".to_vec()));
}

#[test]
fn empty_metadata_means_unknown() {
    assert_eq!(get_field_type(&Vec::new(), b"m_x"), None);
}

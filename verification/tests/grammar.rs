//! Line classification and state-machine scenarios over the pseudo-header
//! grammar.

use offset_index::classify::{classify, LineKind};
use offset_index::parse::{parse_text, ParseErrorKind};

fn kind(line: &[u8]) -> LineKind {
    classify(line)
}

#[test]
fn classifies_blank_comment_directive() {
    assert_eq!(kind(b""), LineKind::Blank);
    assert_eq!(kind(b"// a comment"), LineKind::Comment);
    assert_eq!(kind(b"#pragma once"), LineKind::Directive);
    assert_eq!(kind(b"#include <cstdint>"), LineKind::Directive);
}

#[test]
fn classifies_structural_lines() {
    assert_eq!(kind(b"public:"), LineKind::StructuralSkip);
    assert_eq!(kind(b"private:"), LineKind::StructuralSkip);
    assert_eq!(kind(b"{"), LineKind::StructuralSkip);
    assert_eq!(kind(b"}"), LineKind::StructuralSkip);
    assert_eq!(kind(b"};"), LineKind::RegionClose);
    assert_eq!(kind(b"struct"), LineKind::BitfieldOpen);
}

#[test]
fn classifies_type_headers() {
    assert_eq!(
        kind(b"class Foo"),
        LineKind::TypeOpen { name: b"Foo".to_vec() }
    );
    assert_eq!(
        kind(b"struct Vector3"),
        LineKind::TypeOpen { name: b"Vector3".to_vec() }
    );
    // Inheritance after the name is tolerated; the name is the identifier.
    assert_eq!(
        kind(b"class CPlayer : public CBaseEntity"),
        LineKind::TypeOpen { name: b"CPlayer".to_vec() }
    );
    assert_eq!(kind(b"struct CBaseEntity;"), LineKind::ForwardDecl);
    assert_eq!(kind(b"enum class Flags"), LineKind::EnumOpen);
}

#[test]
fn classifies_members() {
    assert_eq!(
        kind(b"int m_x; // 0x8"),
        LineKind::FieldDecl {
            ty: b"int".to_vec(),
            name: b"m_x".to_vec(),
            offset_hex: b"8".to_vec(),
        }
    );
    assert_eq!(
        kind(b"unsigned int m_count; // 0x1A8"),
        LineKind::FieldDecl {
            ty: b"unsigned int".to_vec(),
            name: b"m_count".to_vec(),
            offset_hex: b"1A8".to_vec(),
        }
    );
    // An array declarator keeps the bare name.
    assert_eq!(
        kind(b"char m_name[32]; // 0x10"),
        LineKind::FieldDecl {
            ty: b"char".to_vec(),
            name: b"m_name".to_vec(),
            offset_hex: b"10".to_vec(),
        }
    );
    assert_eq!(kind(b"uint8_t __pad0005[0x3]; // 0x5"), LineKind::Padding);
    assert_eq!(kind(b"uint8_t m_flag: 1;"), LineKind::Bitfield);
    assert_eq!(kind(b"uint16_t m_bits: 10;"), LineKind::Bitfield);
    assert_eq!(kind(b"FLAG_A = 0x1,"), LineKind::EnumValue);
    assert_eq!(
        kind(b"static CWeaponData& Get() { return s_data; }"),
        LineKind::StaticAccessor
    );
    assert_eq!(kind(b"garbage ~~ line"), LineKind::Unrecognized);
}

#[test]
fn parses_one_class_with_one_field() {
    let text = b"class Foo\n{\npublic:\nint m_x; // 0x8\n};";
    let classes = parse_text(text).expect("text parses");
    assert_eq!(classes.len(), 1);
    assert_eq!(classes[0].name, b"Foo".to_vec());
    assert_eq!(classes[0].fields.len(), 1);
    assert_eq!(classes[0].fields[0].name, b"m_x".to_vec());
    assert_eq!(classes[0].fields[0].ty, b"int".to_vec());
    assert_eq!(classes[0].fields[0].offset, 8);
}

#[test]
fn unterminated_class_names_the_class() {
    let text = b"class Foo\n{\npublic:\nint m_x; // 0x8";
    let err = parse_text(text).expect_err("missing };");
    assert_eq!(
        err.kind,
        ParseErrorKind::UnterminatedClass { name: b"Foo".to_vec() }
    );
}

#[test]
fn bitfield_outside_block_is_rejected() {
    let text = b"class Foo\n{\nuint8_t m_flag: 1;\n};";
    let err = parse_text(text).expect_err("bitfield outside block");
    assert_eq!(err.kind, ParseErrorKind::BitfieldOutsideBlock);
    assert_eq!(err.line, 3);
}

#[test]
fn bitfield_block_is_accepted_and_not_indexed() {
    let text =
        b"class Foo\n{\nstruct\n{\nuint8_t m_a: 1;\nuint8_t m_b: 7;\n};\nint m_x; // 0x8\n};";
    let classes = parse_text(text).expect("bitfield block parses");
    assert_eq!(classes.len(), 1);
    // Only the plain field is recorded; bitfield members carry no offsets.
    assert_eq!(classes[0].fields.len(), 1);
    assert_eq!(classes[0].fields[0].name, b"m_x".to_vec());
}

#[test]
fn enum_body_is_parsed_and_discarded() {
    let text = b"enum class Flags\n{\nFLAG_A = 0x1,\nFLAG_B = 0x2,\n};\nclass Foo\n{\nint m_x; // 0x8\n};";
    let classes = parse_text(text).expect("enum then class parses");
    assert_eq!(classes.len(), 1);
    assert_eq!(classes[0].name, b"Foo".to_vec());
}

#[test]
fn padding_and_accessors_are_skipped() {
    let text = b"class Foo\n{\nuint8_t __pad0005[0x3]; // 0x5\nstatic CFoo& Get() { return s; }\nint m_x; // 0x8\n};";
    let classes = parse_text(text).expect("padding and accessor parse");
    assert_eq!(classes[0].fields.len(), 1);
    assert_eq!(classes[0].fields[0].name, b"m_x".to_vec());
}

#[test]
fn nested_class_is_rejected_with_enclosing_name() {
    let text = b"class Foo\n{\nclass Bar\n};";
    let err = parse_text(text).expect_err("nested class");
    assert_eq!(
        err.kind,
        ParseErrorKind::NestedClass { enclosing: b"Foo".to_vec() }
    );
    assert_eq!(err.line, 3);
}

#[test]
fn close_at_top_level_is_rejected() {
    let text = b"};";
    let err = parse_text(text).expect_err("unexpected close");
    assert_eq!(err.kind, ParseErrorKind::UnexpectedClose);
    assert_eq!(err.line, 1);
}

#[test]
fn field_at_top_level_is_rejected() {
    let err = parse_text(b"int m_x; // 0x8").expect_err("field outside class");
    assert_eq!(err.kind, ParseErrorKind::FieldOutsideClass);
}

#[test]
fn unrecognized_line_is_rejected_with_line_number() {
    let text = b"class Foo\n{\nwhat is this\n};";
    let err = parse_text(text).expect_err("unrecognized line");
    assert_eq!(err.kind, ParseErrorKind::UnrecognizedLine);
    assert_eq!(err.line, 3);
}

#[test]
fn lines_are_trimmed_before_classification() {
    let text = b"  class Foo\r\n  {\r\n    int m_x; // 0x8\r\n  };\r\n";
    let classes = parse_text(text).expect("indented CRLF text parses");
    assert_eq!(classes.len(), 1);
    assert_eq!(classes[0].fields[0].offset, 8);
}

#[test]
fn unterminated_enum_is_rejected() {
    let err = parse_text(b"enum class Flags\n{\nFLAG_A = 0x1,").expect_err("open enum");
    assert_eq!(err.kind, ParseErrorKind::UnterminatedEnum);
}

#[test]
fn class_inside_enum_is_rejected() {
    let err = parse_text(b"enum class Flags\n{\nclass Foo\n};").expect_err("class in enum");
    assert_eq!(err.kind, ParseErrorKind::TypeInEnum);
    assert_eq!(err.line, 3);
}

#[test]
fn enum_inside_class_is_rejected() {
    let err = parse_text(b"class Foo\n{\nenum class Flags\n};").expect_err("enum in class");
    assert_eq!(err.kind, ParseErrorKind::MisplacedEnum);
}

#[test]
fn bitfield_block_outside_class_is_rejected() {
    let err = parse_text(b"struct\n{\n};").expect_err("bare struct at top level");
    assert_eq!(err.kind, ParseErrorKind::MisplacedBitfieldBlock);
    assert_eq!(err.line, 1);
}

#[test]
fn padding_outside_class_is_rejected() {
    let err = parse_text(b"uint8_t __pad0005[0x3]; // 0x5").expect_err("padding at top level");
    assert_eq!(err.kind, ParseErrorKind::MisplacedPadding);
}

#[test]
fn static_accessor_outside_class_is_rejected() {
    let err = parse_text(b"static CFoo& Get() { return s; }").expect_err("accessor at top level");
    assert_eq!(err.kind, ParseErrorKind::MisplacedStaticAccessor);
}

#[test]
fn enum_value_outside_enum_is_rejected() {
    let err = parse_text(b"class Foo\n{\nFLAG_A = 0x1,\n};").expect_err("enumerator in class");
    assert_eq!(err.kind, ParseErrorKind::MisplacedEnumValue);
    assert_eq!(err.line, 3);
}

#[test]
fn field_offset_overflow_is_invalid() {
    let text = b"class Foo\n{\nint m_x; // 0xffffffffffffffffff\n};";
    let err = parse_text(text).expect_err("offset too large");
    assert_eq!(err.kind, ParseErrorKind::InvalidOffset);
    assert_eq!(err.line, 3);
}

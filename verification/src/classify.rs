//! The line classifier: maps one trimmed line of the pseudo-header dump to
//! exactly one line kind, extracting the payload (type name, field name,
//! offset digits) where the kind carries one.
//!
//! The grammar is fixed here as spec-level predicates over `Seq<u8>`;
//! `classify` is proved to return `classify_model` of its input. Where two
//! patterns could overlap (a padding field also has the shape of a field
//! declaration, a forward declaration also opens with `struct `), the more
//! specific pattern is checked first, which `classify_model` makes explicit.

use vstd::prelude::*;

use crate::bytes::find_byte;
use crate::bytes::find_byte_model;
use crate::bytes::ident_len_model;
use crate::bytes::ident_prefix_len;
use crate::bytes::is_dec_digits;
use crate::bytes::is_dec_digits_bytes;
use crate::bytes::is_hex_digit;
use crate::bytes::is_ident;
use crate::bytes::is_ident_bytes;
use crate::bytes::is_ident_start;
use crate::bytes::byte_at;
use crate::bytes::bytes_eq;
use crate::bytes::lemma_ident_len_bounds;
use crate::bytes::rfind_byte;
use crate::bytes::rfind_byte_model;
use crate::bytes::starts_with;
use crate::hex::is_hex_digits;
use crate::hex::is_hex_digits_bytes;

verus! {

// ---------------------------------------------------------------------------
// Literal byte strings of the grammar.
// ---------------------------------------------------------------------------

/// `//`
pub open spec fn lit_comment() -> Seq<u8> {
    seq!['/' as u8, '/' as u8]
}

/// `#pragma`
pub open spec fn lit_pragma() -> Seq<u8> {
    seq!['#' as u8, 'p' as u8, 'r' as u8, 'a' as u8, 'g' as u8, 'm' as u8, 'a' as u8]
}

/// `#include`
pub open spec fn lit_include() -> Seq<u8> {
    seq!['#' as u8, 'i' as u8, 'n' as u8, 'c' as u8, 'l' as u8, 'u' as u8, 'd' as u8, 'e' as u8]
}

/// `public:`
pub open spec fn lit_public() -> Seq<u8> {
    seq!['p' as u8, 'u' as u8, 'b' as u8, 'l' as u8, 'i' as u8, 'c' as u8, ':' as u8]
}

/// `private:`
pub open spec fn lit_private() -> Seq<u8> {
    seq!['p' as u8, 'r' as u8, 'i' as u8, 'v' as u8, 'a' as u8, 't' as u8, 'e' as u8, ':' as u8]
}

/// `{`
pub open spec fn lit_open_brace() -> Seq<u8> {
    seq!['{' as u8]
}

/// `}`
pub open spec fn lit_close_brace() -> Seq<u8> {
    seq!['}' as u8]
}

/// `};`
pub open spec fn lit_region_close() -> Seq<u8> {
    seq!['}' as u8, ';' as u8]
}

/// `struct`
pub open spec fn lit_struct() -> Seq<u8> {
    seq!['s' as u8, 't' as u8, 'r' as u8, 'u' as u8, 'c' as u8, 't' as u8]
}

/// `struct ` (with a trailing space)
pub open spec fn lit_struct_sp() -> Seq<u8> {
    lit_struct().push(' ' as u8)
}

/// `class ` (with a trailing space)
pub open spec fn lit_class_sp() -> Seq<u8> {
    seq!['c' as u8, 'l' as u8, 'a' as u8, 's' as u8, 's' as u8, ' ' as u8]
}

/// `enum class`
pub open spec fn lit_enum_class() -> Seq<u8> {
    seq![
        'e' as u8, 'n' as u8, 'u' as u8, 'm' as u8, ' ' as u8, 'c' as u8, 'l' as u8, 'a' as u8,
        's' as u8, 's' as u8,
    ]
}

/// `static ` (with a trailing space)
pub open spec fn lit_static_sp() -> Seq<u8> {
    seq!['s' as u8, 't' as u8, 'a' as u8, 't' as u8, 'i' as u8, 'c' as u8, ' ' as u8]
}

/// ` // 0x` — the offset comment that follows the `;` of a field declaration
pub open spec fn lit_sp_comment() -> Seq<u8> {
    seq![' ' as u8, '/' as u8, '/' as u8, ' ' as u8, '0' as u8, 'x' as u8]
}

/// ` = 0x` — the value part of an enumerator line
pub open spec fn lit_eq_hex() -> Seq<u8> {
    seq![' ' as u8, '=' as u8, ' ' as u8, '0' as u8, 'x' as u8]
}

/// `__pad` — the generated name prefix of padding fields
pub open spec fn lit_pad() -> Seq<u8> {
    seq!['_' as u8, '_' as u8, 'p' as u8, 'a' as u8, 'd' as u8]
}

/// `uint8_t `
pub open spec fn lit_uint8_sp() -> Seq<u8> {
    seq!['u' as u8, 'i' as u8, 'n' as u8, 't' as u8, '8' as u8, '_' as u8, 't' as u8, ' ' as u8]
}

/// `int8_t `
pub open spec fn lit_int8_sp() -> Seq<u8> {
    seq!['i' as u8, 'n' as u8, 't' as u8, '8' as u8, '_' as u8, 't' as u8, ' ' as u8]
}

/// `uint16_t `
pub open spec fn lit_uint16_sp() -> Seq<u8> {
    seq![
        'u' as u8, 'i' as u8, 'n' as u8, 't' as u8, '1' as u8, '6' as u8, '_' as u8, 't' as u8,
        ' ' as u8,
    ]
}

/// `int16_t `
pub open spec fn lit_int16_sp() -> Seq<u8> {
    seq![
        'i' as u8, 'n' as u8, 't' as u8, '1' as u8, '6' as u8, '_' as u8, 't' as u8, ' ' as u8,
    ]
}

// ---------------------------------------------------------------------------
// Line kinds.
// ---------------------------------------------------------------------------

/// Abstract line kind: what one trimmed line of input means.
#[verifier::ext_equal]
pub enum LineKindModel {
    Blank,
    Comment,
    Directive,
    StructuralSkip,
    ForwardDecl,
    RegionClose,
    EnumOpen,
    BitfieldOpen,
    TypeOpen { name: Seq<u8> },
    Padding,
    StaticAccessor,
    EnumValue,
    Bitfield,
    FieldDecl { ty: Seq<u8>, name: Seq<u8>, offset_hex: Seq<u8> },
    Unrecognized,
}

/// Executable line kind; its view is the abstract kind.
#[derive(Debug, PartialEq, Eq)]
pub enum LineKind {
    Blank,
    Comment,
    Directive,
    StructuralSkip,
    ForwardDecl,
    RegionClose,
    EnumOpen,
    BitfieldOpen,
    TypeOpen { name: Vec<u8> },
    Padding,
    StaticAccessor,
    EnumValue,
    Bitfield,
    FieldDecl { ty: Vec<u8>, name: Vec<u8>, offset_hex: Vec<u8> },
    Unrecognized,
}

impl View for LineKind {
    type V = LineKindModel;

    open spec fn view(&self) -> LineKindModel {
        match self {
            LineKind::Blank => LineKindModel::Blank,
            LineKind::Comment => LineKindModel::Comment,
            LineKind::Directive => LineKindModel::Directive,
            LineKind::StructuralSkip => LineKindModel::StructuralSkip,
            LineKind::ForwardDecl => LineKindModel::ForwardDecl,
            LineKind::RegionClose => LineKindModel::RegionClose,
            LineKind::EnumOpen => LineKindModel::EnumOpen,
            LineKind::BitfieldOpen => LineKindModel::BitfieldOpen,
            LineKind::TypeOpen { name } => LineKindModel::TypeOpen { name: name@ },
            LineKind::Padding => LineKindModel::Padding,
            LineKind::StaticAccessor => LineKindModel::StaticAccessor,
            LineKind::EnumValue => LineKindModel::EnumValue,
            LineKind::Bitfield => LineKindModel::Bitfield,
            LineKind::FieldDecl { ty, name, offset_hex } => LineKindModel::FieldDecl {
                ty: ty@,
                name: name@,
                offset_hex: offset_hex@,
            },
            LineKind::Unrecognized => LineKindModel::Unrecognized,
        }
    }
}

// ---------------------------------------------------------------------------
// Pattern predicates.
// ---------------------------------------------------------------------------

/// `#pragma ...` or `#include ...`
pub open spec fn is_directive(s: Seq<u8>) -> bool {
    lit_pragma().is_prefix_of(s) || lit_include().is_prefix_of(s)
}

/// Exactly `public:`, `private:`, `{` or `}`.
pub open spec fn is_structural_skip(s: Seq<u8>) -> bool {
    s == lit_public() || s == lit_private() || s == lit_open_brace() || s == lit_close_brace()
}

/// `struct <Name>;` — a forward declaration with no body.
pub open spec fn is_forward_decl(s: Seq<u8>) -> bool {
    &&& lit_struct_sp().is_prefix_of(s)
    &&& s.len() >= 9
    &&& s.last() == ';' as u8
    &&& is_ident(s.subrange(7, s.len() - 1))
}

/// Length of the `class ` / `struct ` keyword prefix, or -1.
pub open spec fn type_open_kw_len(s: Seq<u8>) -> int {
    if lit_class_sp().is_prefix_of(s) {
        6
    } else if lit_struct_sp().is_prefix_of(s) {
        7
    } else {
        -1
    }
}

/// `class <Name> ...` or `struct <Name> ...`: a type header carrying a name.
pub open spec fn is_type_open(s: Seq<u8>) -> bool {
    let kl = type_open_kw_len(s);
    kl >= 0 && {
        let rest = s.subrange(kl, s.len() as int);
        ident_len_model(rest) > 0 && is_ident_start(rest[0])
    }
}

/// The name carried by a type header.
pub open spec fn type_open_name(s: Seq<u8>) -> Seq<u8> {
    let kl = type_open_kw_len(s);
    let rest = s.subrange(kl, s.len() as int);
    rest.subrange(0, ident_len_model(rest))
}

/// `static ... }` — a one-line static accessor body.
pub open spec fn is_static_accessor(s: Seq<u8>) -> bool {
    &&& lit_static_sp().is_prefix_of(s)
    &&& s.last() == '}' as u8
}

/// Length of the 8/16-bit integer type prefix of a bitfield line, or -1.
pub open spec fn bitfield_ty_len(s: Seq<u8>) -> int {
    if lit_uint8_sp().is_prefix_of(s) {
        8
    } else if lit_int8_sp().is_prefix_of(s) {
        7
    } else if lit_uint16_sp().is_prefix_of(s) {
        9
    } else if lit_int16_sp().is_prefix_of(s) {
        8
    } else {
        -1
    }
}

/// `<8/16-bit type> <name>: <width>;` — a bit-packed member.
pub open spec fn is_bitfield(s: Seq<u8>) -> bool {
    let tl = bitfield_ty_len(s);
    tl >= 0 && {
        let rest = s.subrange(tl, s.len() as int);
        let c = find_byte_model(rest, ':' as u8);
        &&& c >= 1
        &&& is_ident(rest.subrange(0, c))
        &&& rest.len() >= c + 4
        &&& rest[c + 1] == ' ' as u8
        &&& rest.last() == ';' as u8
        &&& is_dec_digits(rest.subrange(c + 2, rest.len() - 1))
    }
}

/// `<ident> = 0x<hex>,` — an enumerator with its value.
pub open spec fn is_enum_value(s: Seq<u8>) -> bool {
    let j = find_byte_model(s, ' ' as u8);
    &&& j >= 1
    &&& is_ident(s.subrange(0, j))
    &&& {
        let rest = s.subrange(j, s.len() as int);
        &&& lit_eq_hex().is_prefix_of(rest)
        &&& rest.len() >= 7
        &&& rest.last() == ',' as u8
        &&& is_hex_digits(rest.subrange(5, rest.len() - 1))
    }
}

/// The dissected parts of a field-declaration-shaped line.
#[verifier::ext_equal]
pub struct FieldParts {
    /// Everything before the last space of the declarator part.
    pub ty: Seq<u8>,
    /// The declared name, with any array suffix removed.
    pub name: Seq<u8>,
    /// The hex digits of the trailing offset comment.
    pub hex: Seq<u8>,
    /// Whether the declarator carried an array suffix `[...]`.
    pub has_array: bool,
}

/// Dissect `<type> <name>[optional array suffix]; // 0x<hex>`.
///
/// The split is deterministic: the `;` is the first semicolon of the line,
/// the name starts after the last space before it, and the array suffix
/// starts at the first `[` of the declarator.
pub open spec fn field_parts(s: Seq<u8>) -> Option<FieldParts> {
    let j = find_byte_model(s, ';' as u8);
    if j < 0 {
        None
    } else {
        let tail = s.subrange(j + 1, s.len() as int);
        if !lit_sp_comment().is_prefix_of(tail) {
            None
        } else {
            let hx = tail.subrange(6, tail.len() as int);
            if !is_hex_digits(hx) {
                None
            } else {
                let decl = s.subrange(0, j);
                let k = rfind_byte_model(decl, ' ' as u8);
                if k < 1 {
                    None
                } else {
                    let ty = decl.subrange(0, k);
                    let declarator = decl.subrange(k + 1, decl.len() as int);
                    let b = find_byte_model(declarator, '[' as u8);
                    if b >= 0 {
                        let name = declarator.subrange(0, b);
                        if declarator.last() != ']' as u8 {
                            None
                        } else if !is_ident(name) {
                            None
                        } else {
                            Some(FieldParts { ty, name, hex: hx, has_array: true })
                        }
                    } else {
                        if !is_ident(declarator) {
                            None
                        } else {
                            Some(FieldParts { ty, name: declarator, hex: hx, has_array: false })
                        }
                    }
                }
            }
        }
    }
}

/// A field-shaped line that is a generated padding member: array suffix and
/// a `__pad` name completed by exactly four hex digits.
pub open spec fn is_padding_parts(p: FieldParts) -> bool {
    &&& p.has_array
    &&& p.name.len() == 9
    &&& lit_pad().is_prefix_of(p.name)
    &&& forall|i: int| 5 <= i < 9 ==> is_hex_digit(#[trigger] p.name[i])
}

// ---------------------------------------------------------------------------
// Classification.
// ---------------------------------------------------------------------------

/// The one line kind of a trimmed line. More specific patterns are decided
/// first, so exactly one kind applies.
pub open spec fn classify_model(s: Seq<u8>) -> LineKindModel {
    if s.len() == 0 {
        LineKindModel::Blank
    } else if lit_comment().is_prefix_of(s) {
        LineKindModel::Comment
    } else if is_directive(s) {
        LineKindModel::Directive
    } else if is_structural_skip(s) {
        LineKindModel::StructuralSkip
    } else if s == lit_region_close() {
        LineKindModel::RegionClose
    } else if s == lit_struct() {
        LineKindModel::BitfieldOpen
    } else if is_forward_decl(s) {
        LineKindModel::ForwardDecl
    } else if lit_enum_class().is_prefix_of(s) {
        LineKindModel::EnumOpen
    } else if is_type_open(s) {
        LineKindModel::TypeOpen { name: type_open_name(s) }
    } else if is_static_accessor(s) {
        LineKindModel::StaticAccessor
    } else if is_bitfield(s) {
        LineKindModel::Bitfield
    } else if is_enum_value(s) {
        LineKindModel::EnumValue
    } else if field_parts(s) is Some {
        let p = field_parts(s)->0;
        if is_padding_parts(p) {
            LineKindModel::Padding
        } else {
            LineKindModel::FieldDecl { ty: p.ty, name: p.name, offset_hex: p.hex }
        }
    } else {
        LineKindModel::Unrecognized
    }
}

// ---------------------------------------------------------------------------
// Executable literal values.
// ---------------------------------------------------------------------------

fn v_comment() -> (r: Vec<u8>)
    ensures
        r@ == lit_comment(),
{
    let v: Vec<u8> = vec!['/' as u8, '/' as u8];
    proof {
        assert(v@ =~= lit_comment());
    }
    v
}

fn v_pragma() -> (r: Vec<u8>)
    ensures
        r@ == lit_pragma(),
{
    let v: Vec<u8> = vec!['#' as u8, 'p' as u8, 'r' as u8, 'a' as u8, 'g' as u8, 'm' as u8, 'a' as u8];
    proof {
        assert(v@ =~= lit_pragma());
    }
    v
}

fn v_include() -> (r: Vec<u8>)
    ensures
        r@ == lit_include(),
{
    let v: Vec<u8> = vec![
        '#' as u8, 'i' as u8, 'n' as u8, 'c' as u8, 'l' as u8, 'u' as u8, 'd' as u8, 'e' as u8,
    ];
    proof {
        assert(v@ =~= lit_include());
    }
    v
}

fn v_public() -> (r: Vec<u8>)
    ensures
        r@ == lit_public(),
{
    let v: Vec<u8> = vec!['p' as u8, 'u' as u8, 'b' as u8, 'l' as u8, 'i' as u8, 'c' as u8, ':' as u8];
    proof {
        assert(v@ =~= lit_public());
    }
    v
}

fn v_private() -> (r: Vec<u8>)
    ensures
        r@ == lit_private(),
{
    let v: Vec<u8> = vec![
        'p' as u8, 'r' as u8, 'i' as u8, 'v' as u8, 'a' as u8, 't' as u8, 'e' as u8, ':' as u8,
    ];
    proof {
        assert(v@ =~= lit_private());
    }
    v
}

fn v_open_brace() -> (r: Vec<u8>)
    ensures
        r@ == lit_open_brace(),
{
    let v: Vec<u8> = vec!['{' as u8];
    proof {
        assert(v@ =~= lit_open_brace());
    }
    v
}

fn v_close_brace() -> (r: Vec<u8>)
    ensures
        r@ == lit_close_brace(),
{
    let v: Vec<u8> = vec!['}' as u8];
    proof {
        assert(v@ =~= lit_close_brace());
    }
    v
}

fn v_region_close() -> (r: Vec<u8>)
    ensures
        r@ == lit_region_close(),
{
    let v: Vec<u8> = vec!['}' as u8, ';' as u8];
    proof {
        assert(v@ =~= lit_region_close());
    }
    v
}

fn v_struct() -> (r: Vec<u8>)
    ensures
        r@ == lit_struct(),
{
    let v: Vec<u8> = vec!['s' as u8, 't' as u8, 'r' as u8, 'u' as u8, 'c' as u8, 't' as u8];
    proof {
        assert(v@ =~= lit_struct());
    }
    v
}

fn v_struct_sp() -> (r: Vec<u8>)
    ensures
        r@ == lit_struct_sp(),
{
    let v: Vec<u8> = vec!['s' as u8, 't' as u8, 'r' as u8, 'u' as u8, 'c' as u8, 't' as u8, ' ' as u8];
    proof {
        assert(v@ =~= lit_struct_sp());
    }
    v
}

fn v_class_sp() -> (r: Vec<u8>)
    ensures
        r@ == lit_class_sp(),
{
    let v: Vec<u8> = vec!['c' as u8, 'l' as u8, 'a' as u8, 's' as u8, 's' as u8, ' ' as u8];
    proof {
        assert(v@ =~= lit_class_sp());
    }
    v
}

fn v_enum_class() -> (r: Vec<u8>)
    ensures
        r@ == lit_enum_class(),
{
    let v: Vec<u8> = vec![
        'e' as u8, 'n' as u8, 'u' as u8, 'm' as u8, ' ' as u8, 'c' as u8, 'l' as u8, 'a' as u8,
        's' as u8, 's' as u8,
    ];
    proof {
        assert(v@ =~= lit_enum_class());
    }
    v
}

fn v_static_sp() -> (r: Vec<u8>)
    ensures
        r@ == lit_static_sp(),
{
    let v: Vec<u8> = vec!['s' as u8, 't' as u8, 'a' as u8, 't' as u8, 'i' as u8, 'c' as u8, ' ' as u8];
    proof {
        assert(v@ =~= lit_static_sp());
    }
    v
}

fn v_sp_comment() -> (r: Vec<u8>)
    ensures
        r@ == lit_sp_comment(),
{
    let v: Vec<u8> = vec![' ' as u8, '/' as u8, '/' as u8, ' ' as u8, '0' as u8, 'x' as u8];
    proof {
        assert(v@ =~= lit_sp_comment());
    }
    v
}

fn v_eq_hex() -> (r: Vec<u8>)
    ensures
        r@ == lit_eq_hex(),
{
    let v: Vec<u8> = vec![' ' as u8, '=' as u8, ' ' as u8, '0' as u8, 'x' as u8];
    proof {
        assert(v@ =~= lit_eq_hex());
    }
    v
}

fn v_pad() -> (r: Vec<u8>)
    ensures
        r@ == lit_pad(),
{
    let v: Vec<u8> = vec!['_' as u8, '_' as u8, 'p' as u8, 'a' as u8, 'd' as u8];
    proof {
        assert(v@ =~= lit_pad());
    }
    v
}

fn v_uint8_sp() -> (r: Vec<u8>)
    ensures
        r@ == lit_uint8_sp(),
{
    let v: Vec<u8> = vec![
        'u' as u8, 'i' as u8, 'n' as u8, 't' as u8, '8' as u8, '_' as u8, 't' as u8, ' ' as u8,
    ];
    proof {
        assert(v@ =~= lit_uint8_sp());
    }
    v
}

fn v_int8_sp() -> (r: Vec<u8>)
    ensures
        r@ == lit_int8_sp(),
{
    let v: Vec<u8> = vec!['i' as u8, 'n' as u8, 't' as u8, '8' as u8, '_' as u8, 't' as u8, ' ' as u8];
    proof {
        assert(v@ =~= lit_int8_sp());
    }
    v
}

fn v_uint16_sp() -> (r: Vec<u8>)
    ensures
        r@ == lit_uint16_sp(),
{
    let v: Vec<u8> = vec![
        'u' as u8, 'i' as u8, 'n' as u8, 't' as u8, '1' as u8, '6' as u8, '_' as u8, 't' as u8,
        ' ' as u8,
    ];
    proof {
        assert(v@ =~= lit_uint16_sp());
    }
    v
}

fn v_int16_sp() -> (r: Vec<u8>)
    ensures
        r@ == lit_int16_sp(),
{
    let v: Vec<u8> = vec![
        'i' as u8, 'n' as u8, 't' as u8, '1' as u8, '6' as u8, '_' as u8, 't' as u8, ' ' as u8,
    ];
    proof {
        assert(v@ =~= lit_int16_sp());
    }
    v
}

// ---------------------------------------------------------------------------
// Executable pattern checks.
// ---------------------------------------------------------------------------

fn check_forward_decl(s: &[u8]) -> (r: bool)
    ensures
        r == is_forward_decl(s@),
{
    let kw = v_struct_sp();
    if !starts_with(s, kw.as_slice()) {
        return false;
    }
    if s.len() < 9 {
        return false;
    }
    if byte_at(s, s.len() - 1) != ';' as u8 {
        return false;
    }
    is_ident_bytes(vstd::slice::slice_subrange(s, 7, s.len() - 1))
}

fn check_type_open(s: &[u8]) -> (r: Option<Vec<u8>>)
    ensures
        match r {
            Some(name) => is_type_open(s@) && name@ == type_open_name(s@),
            None => !is_type_open(s@),
        },
{
    let ckw = v_class_sp();
    let skw = v_struct_sp();
    let kl: usize = if starts_with(s, ckw.as_slice()) {
        6
    } else if starts_with(s, skw.as_slice()) {
        7
    } else {
        return None;
    };
    let rest = vstd::slice::slice_subrange(s, kl, s.len());
    proof {
        lemma_ident_len_bounds(rest@);
    }
    let l = ident_prefix_len(rest);
    if l == 0 {
        return None;
    }
    let c0 = byte_at(rest, 0);
    if !((65 <= c0 && c0 <= 90) || (97 <= c0 && c0 <= 122) || c0 == 95) {
        return None;
    }
    Some(vstd::slice::slice_to_vec(vstd::slice::slice_subrange(rest, 0, l)))
}

fn check_static_accessor(s: &[u8]) -> (r: bool)
    ensures
        r == is_static_accessor(s@),
{
    let kw = v_static_sp();
    if !starts_with(s, kw.as_slice()) {
        return false;
    }
    byte_at(s, s.len() - 1) == '}' as u8
}

fn check_bitfield(s: &[u8]) -> (r: bool)
    ensures
        r == is_bitfield(s@),
{
    let u8kw = v_uint8_sp();
    let i8kw = v_int8_sp();
    let u16kw = v_uint16_sp();
    let i16kw = v_int16_sp();
    let tl: usize = if starts_with(s, u8kw.as_slice()) {
        8
    } else if starts_with(s, i8kw.as_slice()) {
        7
    } else if starts_with(s, u16kw.as_slice()) {
        9
    } else if starts_with(s, i16kw.as_slice()) {
        8
    } else {
        return false;
    };
    let rest = vstd::slice::slice_subrange(s, tl, s.len());
    let c = match find_byte(rest, ':' as u8) {
        None => {
            return false;
        },
        Some(c) => c,
    };
    if c < 1 {
        return false;
    }
    if !is_ident_bytes(vstd::slice::slice_subrange(rest, 0, c)) {
        return false;
    }
    if rest.len() < c + 4 {
        return false;
    }
    if byte_at(rest, c + 1) != ' ' as u8 {
        return false;
    }
    if byte_at(rest, rest.len() - 1) != ';' as u8 {
        return false;
    }
    is_dec_digits_bytes(vstd::slice::slice_subrange(rest, c + 2, rest.len() - 1))
}

fn check_enum_value(s: &[u8]) -> (r: bool)
    ensures
        r == is_enum_value(s@),
{
    let j = match find_byte(s, ' ' as u8) {
        None => {
            return false;
        },
        Some(j) => j,
    };
    if j < 1 {
        return false;
    }
    if !is_ident_bytes(vstd::slice::slice_subrange(s, 0, j)) {
        return false;
    }
    let rest = vstd::slice::slice_subrange(s, j, s.len());
    let eq = v_eq_hex();
    if !starts_with(rest, eq.as_slice()) {
        return false;
    }
    if rest.len() < 7 {
        return false;
    }
    if byte_at(rest, rest.len() - 1) != ',' as u8 {
        return false;
    }
    is_hex_digits_bytes(vstd::slice::slice_subrange(rest, 5, rest.len() - 1))
}

struct FieldDeclParts {
    ty: Vec<u8>,
    name: Vec<u8>,
    hex: Vec<u8>,
    has_array: bool,
}

impl FieldDeclParts {
    spec fn parts_model(&self) -> FieldParts {
        FieldParts { ty: self.ty@, name: self.name@, hex: self.hex@, has_array: self.has_array }
    }
}

fn check_field_parts(s: &[u8]) -> (r: Option<FieldDeclParts>)
    ensures
        match r {
            Some(p) => field_parts(s@) == Some(p.parts_model()),
            None => field_parts(s@) is None,
        },
{
    let n = s.len();
    let j = match find_byte(s, ';' as u8) {
        None => {
            return None;
        },
        Some(j) => j,
    };
    let tail = vstd::slice::slice_subrange(s, j + 1, n);
    let cm = v_sp_comment();
    if !starts_with(tail, cm.as_slice()) {
        return None;
    }
    let hx = vstd::slice::slice_subrange(tail, 6, tail.len());
    if !is_hex_digits_bytes(hx) {
        return None;
    }
    let decl = vstd::slice::slice_subrange(s, 0, j);
    let k = match rfind_byte(decl, ' ' as u8) {
        None => {
            return None;
        },
        Some(k) => k,
    };
    if k < 1 {
        return None;
    }
    let ty = vstd::slice::slice_subrange(decl, 0, k);
    let declarator = vstd::slice::slice_subrange(decl, k + 1, decl.len());
    match find_byte(declarator, '[' as u8) {
        Some(b) => {
            if byte_at(declarator, declarator.len() - 1) != ']' as u8 {
                return None;
            }
            let name = vstd::slice::slice_subrange(declarator, 0, b);
            if !is_ident_bytes(name) {
                return None;
            }
            Some(FieldDeclParts {
                ty: vstd::slice::slice_to_vec(ty),
                name: vstd::slice::slice_to_vec(name),
                hex: vstd::slice::slice_to_vec(hx),
                has_array: true,
            })
        },
        None => {
            if !is_ident_bytes(declarator) {
                return None;
            }
            Some(FieldDeclParts {
                ty: vstd::slice::slice_to_vec(ty),
                name: vstd::slice::slice_to_vec(declarator),
                hex: vstd::slice::slice_to_vec(hx),
                has_array: false,
            })
        },
    }
}

fn check_padding_parts(p: &FieldDeclParts) -> (r: bool)
    ensures
        r == is_padding_parts(p.parts_model()),
{
    if !p.has_array {
        return false;
    }
    if p.name.len() != 9 {
        return false;
    }
    let pad = v_pad();
    if !starts_with(p.name.as_slice(), pad.as_slice()) {
        return false;
    }
    let mut i: usize = 5;
    while i < 9
        invariant
            5 <= i <= 9,
            p.name@.len() == 9,
            forall|k: int| 5 <= k < i ==> is_hex_digit(#[trigger] p.name@[k]),
        decreases 9 - i,
    {
        let c = byte_at(p.name.as_slice(), i);
        if !((48 <= c && c <= 57) || (97 <= c && c <= 102) || (65 <= c && c <= 70)) {
            return false;
        }
        i = i + 1;
    }
    true
}

/// Classify one trimmed line.
pub fn classify(s: &[u8]) -> (r: LineKind)
    ensures
        r@ == classify_model(s@),
{
    if s.len() == 0 {
        return LineKind::Blank;
    }
    let cm = v_comment();
    if starts_with(s, cm.as_slice()) {
        return LineKind::Comment;
    }
    let pr = v_pragma();
    let inc = v_include();
    if starts_with(s, pr.as_slice()) || starts_with(s, inc.as_slice()) {
        return LineKind::Directive;
    }
    let pb = v_public();
    let pv = v_private();
    let ob = v_open_brace();
    let cb = v_close_brace();
    if bytes_eq(s, pb.as_slice()) || bytes_eq(s, pv.as_slice()) || bytes_eq(s, ob.as_slice())
        || bytes_eq(s, cb.as_slice()) {
        return LineKind::StructuralSkip;
    }
    let rc = v_region_close();
    if bytes_eq(s, rc.as_slice()) {
        return LineKind::RegionClose;
    }
    let st = v_struct();
    if bytes_eq(s, st.as_slice()) {
        return LineKind::BitfieldOpen;
    }
    if check_forward_decl(s) {
        return LineKind::ForwardDecl;
    }
    let ec = v_enum_class();
    if starts_with(s, ec.as_slice()) {
        return LineKind::EnumOpen;
    }
    match check_type_open(s) {
        Some(name) => {
            return LineKind::TypeOpen { name };
        },
        None => {},
    }
    if check_static_accessor(s) {
        return LineKind::StaticAccessor;
    }
    if check_bitfield(s) {
        return LineKind::Bitfield;
    }
    if check_enum_value(s) {
        return LineKind::EnumValue;
    }
    match check_field_parts(s) {
        Some(p) => {
            if check_padding_parts(&p) {
                LineKind::Padding
            } else {
                LineKind::FieldDecl { ty: p.ty, name: p.name, offset_hex: p.hex }
            }
        },
        None => LineKind::Unrecognized,
    }
}

} // verus!

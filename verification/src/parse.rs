//! The parser state machine: folds classified lines over a current-state
//! value, accumulating completed classes, and rejects any line that is
//! invalid in the current region context with a line-numbered error.
//!
//! `step_model` is the full transition table (state × line kind); `run_model`
//! is the fold over a line sequence, ending in the terminal check that the
//! final state is top level. The executable `step` / `parse_lines` /
//! `parse_text` are proved to return exactly these models' results.

use vstd::prelude::*;

use crate::bytes::trim;
use crate::bytes::trim_model;
use crate::bytes::find_byte;
use crate::bytes::find_byte_model;
use crate::classify::classify;
use crate::classify::classify_model;
use crate::classify::LineKind;
use crate::classify::LineKindModel;
use crate::hex::hex_val;
use crate::hex::is_hex_digits;
use crate::hex::parse_hex;

verus! {

// ---------------------------------------------------------------------------
// Parsed data.
// ---------------------------------------------------------------------------

/// One declared field: name, type text, byte offset.
#[derive(Debug, PartialEq, Eq)]
pub struct Field {
    pub name: Vec<u8>,
    pub ty: Vec<u8>,
    pub offset: usize,
}

/// Abstract field.
#[verifier::ext_equal]
pub struct FieldModel {
    pub name: Seq<u8>,
    pub ty: Seq<u8>,
    pub offset: nat,
}

impl View for Field {
    type V = FieldModel;

    open spec fn view(&self) -> FieldModel {
        FieldModel { name: self.name@, ty: self.ty@, offset: self.offset as nat }
    }
}

impl DeepView for Field {
    type V = FieldModel;

    open spec fn deep_view(&self) -> FieldModel {
        self.view()
    }
}

/// One completed class: name and fields in declaration order.
#[derive(Debug, PartialEq, Eq)]
pub struct ClassDecl {
    pub name: Vec<u8>,
    pub fields: Vec<Field>,
}

/// Abstract class.
#[verifier::ext_equal]
pub struct ClassModel {
    pub name: Seq<u8>,
    pub fields: Seq<FieldModel>,
}

impl View for ClassDecl {
    type V = ClassModel;

    open spec fn view(&self) -> ClassModel {
        ClassModel { name: self.name@, fields: self.fields.deep_view() }
    }
}

impl DeepView for ClassDecl {
    type V = ClassModel;

    open spec fn deep_view(&self) -> ClassModel {
        self.view()
    }
}

// ---------------------------------------------------------------------------
// Parser state.
// ---------------------------------------------------------------------------

/// Sub-mode of a class body: plain members, or inside a `struct { ... };`
/// bitfield sub-block.
#[derive(Debug, Clone, Copy, PartialEq, Eq, Structural)]
pub enum Submode {
    Normal,
    BitfieldBlock,
}

/// Executable parser state.
#[derive(Debug, PartialEq, Eq)]
pub enum ParserState {
    TopLevel,
    InClass { submode: Submode, acc: ClassDecl },
    InEnum,
}

/// Abstract parser state.
#[verifier::ext_equal]
pub enum StateModel {
    TopLevel,
    InClass { submode: Submode, acc: ClassModel },
    InEnum,
}

impl View for ParserState {
    type V = StateModel;

    open spec fn view(&self) -> StateModel {
        match self {
            ParserState::TopLevel => StateModel::TopLevel,
            ParserState::InClass { submode, acc } => StateModel::InClass {
                submode: *submode,
                acc: acc@,
            },
            ParserState::InEnum => StateModel::InEnum,
        }
    }
}

// ---------------------------------------------------------------------------
// Errors.
// ---------------------------------------------------------------------------

/// Why a parse was aborted.
#[derive(Debug, PartialEq, Eq)]
pub enum ParseErrorKind {
    /// A class or struct header inside a class body.
    NestedClass { enclosing: Vec<u8> },
    /// A class or struct header inside an enum body.
    TypeInEnum,
    /// An `enum class` header anywhere but at top level.
    MisplacedEnum,
    /// A bare `struct` line anywhere but directly inside a class body.
    MisplacedBitfieldBlock,
    /// A `};` with no open region.
    UnexpectedClose,
    /// A padding member outside a class body.
    MisplacedPadding,
    /// A static accessor outside a class body.
    MisplacedStaticAccessor,
    /// An enumerator line outside an enum body.
    MisplacedEnumValue,
    /// A bitfield member not inside a bitfield sub-block.
    BitfieldOutsideBlock,
    /// A field declaration outside a class body or inside a bitfield block.
    FieldOutsideClass,
    /// A field offset that is not a parseable base-16 number.
    InvalidOffset,
    /// A line no pattern of the grammar recognizes.
    UnrecognizedLine,
    /// End of input with a class still open.
    UnterminatedClass { name: Vec<u8> },
    /// End of input with an enum still open.
    UnterminatedEnum,
}

/// Abstract error kind.
#[verifier::ext_equal]
pub enum ErrKindModel {
    NestedClass { enclosing: Seq<u8> },
    TypeInEnum,
    MisplacedEnum,
    MisplacedBitfieldBlock,
    UnexpectedClose,
    MisplacedPadding,
    MisplacedStaticAccessor,
    MisplacedEnumValue,
    BitfieldOutsideBlock,
    FieldOutsideClass,
    InvalidOffset,
    UnrecognizedLine,
    UnterminatedClass { name: Seq<u8> },
    UnterminatedEnum,
}

impl View for ParseErrorKind {
    type V = ErrKindModel;

    open spec fn view(&self) -> ErrKindModel {
        match self {
            ParseErrorKind::NestedClass { enclosing } => ErrKindModel::NestedClass {
                enclosing: enclosing@,
            },
            ParseErrorKind::TypeInEnum => ErrKindModel::TypeInEnum,
            ParseErrorKind::MisplacedEnum => ErrKindModel::MisplacedEnum,
            ParseErrorKind::MisplacedBitfieldBlock => ErrKindModel::MisplacedBitfieldBlock,
            ParseErrorKind::UnexpectedClose => ErrKindModel::UnexpectedClose,
            ParseErrorKind::MisplacedPadding => ErrKindModel::MisplacedPadding,
            ParseErrorKind::MisplacedStaticAccessor => ErrKindModel::MisplacedStaticAccessor,
            ParseErrorKind::MisplacedEnumValue => ErrKindModel::MisplacedEnumValue,
            ParseErrorKind::BitfieldOutsideBlock => ErrKindModel::BitfieldOutsideBlock,
            ParseErrorKind::FieldOutsideClass => ErrKindModel::FieldOutsideClass,
            ParseErrorKind::InvalidOffset => ErrKindModel::InvalidOffset,
            ParseErrorKind::UnrecognizedLine => ErrKindModel::UnrecognizedLine,
            ParseErrorKind::UnterminatedClass { name } => ErrKindModel::UnterminatedClass {
                name: name@,
            },
            ParseErrorKind::UnterminatedEnum => ErrKindModel::UnterminatedEnum,
        }
    }
}

/// A parse error with its 1-based line number.
#[derive(Debug, PartialEq, Eq)]
pub struct ParseError {
    pub line: usize,
    pub kind: ParseErrorKind,
}

/// Abstract parse error.
#[verifier::ext_equal]
pub struct ErrorModel {
    pub line: nat,
    pub kind: ErrKindModel,
}

impl View for ParseError {
    type V = ErrorModel;

    open spec fn view(&self) -> ErrorModel {
        ErrorModel { line: self.line as nat, kind: self.kind@ }
    }
}

// ---------------------------------------------------------------------------
// The transition table.
// ---------------------------------------------------------------------------

/// Result of one transition: a next state (possibly finalizing a class), or
/// a fatal error.
#[verifier::ext_equal]
pub enum StepModel {
    Next { st: StateModel, emit: Option<ClassModel> },
    Fail { kind: ErrKindModel },
}

/// The transition table: current state × line kind.
pub open spec fn step_model(st: StateModel, k: LineKindModel) -> StepModel {
    match k {
        LineKindModel::Blank => StepModel::Next { st, emit: None },
        LineKindModel::Comment => StepModel::Next { st, emit: None },
        LineKindModel::Directive => StepModel::Next { st, emit: None },
        LineKindModel::StructuralSkip => StepModel::Next { st, emit: None },
        LineKindModel::ForwardDecl => StepModel::Next { st, emit: None },
        LineKindModel::TypeOpen { name } => match st {
            StateModel::TopLevel => StepModel::Next {
                st: StateModel::InClass {
                    submode: Submode::Normal,
                    acc: ClassModel { name, fields: seq![] },
                },
                emit: None,
            },
            StateModel::InClass { submode, acc } => StepModel::Fail {
                kind: ErrKindModel::NestedClass { enclosing: acc.name },
            },
            StateModel::InEnum => StepModel::Fail { kind: ErrKindModel::TypeInEnum },
        },
        LineKindModel::EnumOpen => match st {
            StateModel::TopLevel => StepModel::Next { st: StateModel::InEnum, emit: None },
            _ => StepModel::Fail { kind: ErrKindModel::MisplacedEnum },
        },
        LineKindModel::BitfieldOpen => match st {
            StateModel::InClass { submode: Submode::Normal, acc } => StepModel::Next {
                st: StateModel::InClass { submode: Submode::BitfieldBlock, acc },
                emit: None,
            },
            _ => StepModel::Fail { kind: ErrKindModel::MisplacedBitfieldBlock },
        },
        LineKindModel::RegionClose => match st {
            StateModel::InClass { submode: Submode::Normal, acc } => StepModel::Next {
                st: StateModel::TopLevel,
                emit: Some(acc),
            },
            StateModel::InClass { submode: Submode::BitfieldBlock, acc } => StepModel::Next {
                st: StateModel::InClass { submode: Submode::Normal, acc },
                emit: None,
            },
            StateModel::InEnum => StepModel::Next { st: StateModel::TopLevel, emit: None },
            StateModel::TopLevel => StepModel::Fail { kind: ErrKindModel::UnexpectedClose },
        },
        LineKindModel::Padding => match st {
            StateModel::InClass { submode: Submode::Normal, acc } => StepModel::Next {
                st: StateModel::InClass { submode: Submode::Normal, acc },
                emit: None,
            },
            _ => StepModel::Fail { kind: ErrKindModel::MisplacedPadding },
        },
        LineKindModel::StaticAccessor => match st {
            StateModel::InClass { submode: Submode::Normal, acc } => StepModel::Next {
                st: StateModel::InClass { submode: Submode::Normal, acc },
                emit: None,
            },
            _ => StepModel::Fail { kind: ErrKindModel::MisplacedStaticAccessor },
        },
        LineKindModel::EnumValue => match st {
            StateModel::InEnum => StepModel::Next { st: StateModel::InEnum, emit: None },
            _ => StepModel::Fail { kind: ErrKindModel::MisplacedEnumValue },
        },
        LineKindModel::Bitfield => match st {
            StateModel::InClass { submode: Submode::BitfieldBlock, acc } => StepModel::Next {
                st: StateModel::InClass { submode: Submode::BitfieldBlock, acc },
                emit: None,
            },
            _ => StepModel::Fail { kind: ErrKindModel::BitfieldOutsideBlock },
        },
        LineKindModel::FieldDecl { ty, name, offset_hex } => match st {
            StateModel::InClass { submode: Submode::Normal, acc } => {
                if !is_hex_digits(offset_hex) || hex_val(offset_hex) > usize::MAX as nat {
                    StepModel::Fail { kind: ErrKindModel::InvalidOffset }
                } else {
                    StepModel::Next {
                        st: StateModel::InClass {
                            submode: Submode::Normal,
                            acc: ClassModel {
                                name: acc.name,
                                fields: acc.fields.push(
                                    FieldModel { name, ty, offset: hex_val(offset_hex) },
                                ),
                            },
                        },
                        emit: None,
                    }
                }
            },
            _ => StepModel::Fail { kind: ErrKindModel::FieldOutsideClass },
        },
        LineKindModel::Unrecognized => StepModel::Fail { kind: ErrKindModel::UnrecognizedLine },
    }
}

/// The abstract value of an executable step result.
pub open spec fn step_result_view(
    r: Result<(ParserState, Option<ClassDecl>), ParseErrorKind>,
) -> StepModel {
    match r {
        Ok((s, emit)) => StepModel::Next {
            st: s@,
            emit: match emit {
                Some(c) => Some(c@),
                None => None,
            },
        },
        Err(k) => StepModel::Fail { kind: k@ },
    }
}

/// Apply one classified line to the current state. Returns the next state
/// and the class completed by this line, if any.
pub fn step(st: ParserState, kind: LineKind) -> (r: Result<
    (ParserState, Option<ClassDecl>),
    ParseErrorKind,
>)
    ensures
        step_result_view(r) == step_model(st@, kind@),
{
    match kind {
        LineKind::Blank | LineKind::Comment | LineKind::Directive | LineKind::StructuralSkip
            | LineKind::ForwardDecl => Ok((st, None)),
        LineKind::TypeOpen { name } => match st {
            ParserState::TopLevel => {
                let acc = ClassDecl { name, fields: Vec::new() };
                proof {
                    assert(acc@.fields =~= Seq::<FieldModel>::empty());
                }
                Ok((ParserState::InClass { submode: Submode::Normal, acc }, None))
            },
            ParserState::InClass { submode: _, acc } => Err(ParseErrorKind::NestedClass {
                enclosing: acc.name,
            }),
            ParserState::InEnum => Err(ParseErrorKind::TypeInEnum),
        },
        LineKind::EnumOpen => match st {
            ParserState::TopLevel => Ok((ParserState::InEnum, None)),
            _ => Err(ParseErrorKind::MisplacedEnum),
        },
        LineKind::BitfieldOpen => match st {
            ParserState::InClass { submode: Submode::Normal, acc } => Ok((
                ParserState::InClass { submode: Submode::BitfieldBlock, acc },
                None,
            )),
            _ => Err(ParseErrorKind::MisplacedBitfieldBlock),
        },
        LineKind::RegionClose => match st {
            ParserState::InClass { submode: Submode::Normal, acc } => Ok((
                ParserState::TopLevel,
                Some(acc),
            )),
            ParserState::InClass { submode: Submode::BitfieldBlock, acc } => Ok((
                ParserState::InClass { submode: Submode::Normal, acc },
                None,
            )),
            ParserState::InEnum => Ok((ParserState::TopLevel, None)),
            ParserState::TopLevel => Err(ParseErrorKind::UnexpectedClose),
        },
        LineKind::Padding => match st {
            ParserState::InClass { submode: Submode::Normal, acc } => Ok((
                ParserState::InClass { submode: Submode::Normal, acc },
                None,
            )),
            _ => Err(ParseErrorKind::MisplacedPadding),
        },
        LineKind::StaticAccessor => match st {
            ParserState::InClass { submode: Submode::Normal, acc } => Ok((
                ParserState::InClass { submode: Submode::Normal, acc },
                None,
            )),
            _ => Err(ParseErrorKind::MisplacedStaticAccessor),
        },
        LineKind::EnumValue => match st {
            ParserState::InEnum => Ok((ParserState::InEnum, None)),
            _ => Err(ParseErrorKind::MisplacedEnumValue),
        },
        LineKind::Bitfield => match st {
            ParserState::InClass { submode: Submode::BitfieldBlock, acc } => Ok((
                ParserState::InClass { submode: Submode::BitfieldBlock, acc },
                None,
            )),
            _ => Err(ParseErrorKind::BitfieldOutsideBlock),
        },
        LineKind::FieldDecl { ty, name, offset_hex } => match st {
            ParserState::InClass { submode: Submode::Normal, acc } => {
                match parse_hex(offset_hex.as_slice()) {
                    None => Err(ParseErrorKind::InvalidOffset),
                    Some(offset) => {
                        let mut acc = acc;
                        let ghost old_fields = acc.fields.deep_view();
                        let f = Field { name, ty, offset };
                        acc.fields.push(f);
                        proof {
                            assert(acc.fields.deep_view() =~= old_fields.push(f@));
                        }
                        Ok((ParserState::InClass { submode: Submode::Normal, acc }, None))
                    },
                }
            },
            _ => Err(ParseErrorKind::FieldOutsideClass),
        },
        LineKind::Unrecognized => Err(ParseErrorKind::UnrecognizedLine),
    }
}

// ---------------------------------------------------------------------------
// The fold over a line sequence.
// ---------------------------------------------------------------------------

/// Fold the remaining lines from index `i` over state `st`, with `done` the
/// classes completed so far. Terminal check: the final state must be top
/// level, else the open construct is reported unterminated at the line count.
pub open spec fn run_model(
    lines: Seq<Seq<u8>>,
    i: int,
    st: StateModel,
    done: Seq<ClassModel>,
) -> Result<Seq<ClassModel>, ErrorModel>
    decreases lines.len() - i,
{
    if i < 0 || i >= lines.len() {
        match st {
            StateModel::TopLevel => Ok(done),
            StateModel::InClass { submode, acc } => Err(ErrorModel {
                line: lines.len(),
                kind: ErrKindModel::UnterminatedClass { name: acc.name },
            }),
            StateModel::InEnum => Err(ErrorModel {
                line: lines.len(),
                kind: ErrKindModel::UnterminatedEnum,
            }),
        }
    } else {
        match step_model(st, classify_model(trim_model(lines[i]))) {
            StepModel::Next { st: s2, emit } => run_model(
                lines,
                i + 1,
                s2,
                match emit {
                    Some(c) => done.push(c),
                    None => done,
                },
            ),
            StepModel::Fail { kind } => Err(ErrorModel { line: (i + 1) as nat, kind }),
        }
    }
}

/// Parse a whole line sequence: fold from the initial state with no classes.
pub open spec fn parse_model(lines: Seq<Seq<u8>>) -> Result<Seq<ClassModel>, ErrorModel> {
    run_model(lines, 0, StateModel::TopLevel, seq![])
}

/// Parse a sequence of raw (untrimmed) lines into the completed classes, or
/// the first fatal error with its 1-based line number.
pub fn parse_lines(lines: &Vec<Vec<u8>>) -> (r: Result<Vec<ClassDecl>, ParseError>)
    ensures
        match r {
            Ok(cs) => parse_model(lines.deep_view()) == Ok::<Seq<ClassModel>, ErrorModel>(
                cs.deep_view(),
            ),
            Err(e) => parse_model(lines.deep_view()) == Err::<Seq<ClassModel>, ErrorModel>(e@),
        },
{
    let ghost lm = lines.deep_view();
    let n = lines.len();
    let mut st = ParserState::TopLevel;
    let mut done: Vec<ClassDecl> = Vec::new();
    let mut i: usize = 0;
    proof {
        assert(done.deep_view() =~= Seq::<ClassModel>::empty());
    }
    while i < n
        invariant
            0 <= i <= n == lines@.len(),
            lm == lines.deep_view(),
            run_model(lm, i as int, st@, done.deep_view()) == parse_model(lm),
        decreases n - i,
    {
        let line = trim(lines[i].as_slice());
        proof {
            assert(lines[i as int].deep_view() =~= lines[i as int]@);
            assert(lm[i as int] == lines[i as int]@);
        }
        let kind = classify(line);
        let ghost done_before = done.deep_view();
        match step(st, kind) {
            Ok((s2, emit)) => {
                st = s2;
                match emit {
                    Some(c) => {
                        let ghost cm = c@;
                        done.push(c);
                        proof {
                            assert(done.deep_view() =~= done_before.push(cm));
                        }
                    },
                    None => {},
                }
            },
            Err(k) => {
                return Err(ParseError { line: i + 1, kind: k });
            },
        }
        i = i + 1;
    }
    match st {
        ParserState::TopLevel => Ok(done),
        ParserState::InClass { submode: _, acc } => Err(ParseError {
            line: n,
            kind: ParseErrorKind::UnterminatedClass { name: acc.name },
        }),
        ParserState::InEnum => Err(ParseError { line: n, kind: ParseErrorKind::UnterminatedEnum }),
    }
}

// ---------------------------------------------------------------------------
// Splitting input text into lines.
// ---------------------------------------------------------------------------

/// Split at each line feed; the text after the last line feed is a line even
/// when empty, so empty input is one blank line.
pub open spec fn split_lines_model(s: Seq<u8>) -> Seq<Seq<u8>>
    decreases s.len(),
{
    let j = find_byte_model(s, '\n' as u8);
    if j < 0 || j >= s.len() {
        seq![s]
    } else {
        seq![s.subrange(0, j)] + split_lines_model(s.subrange(j + 1, s.len() as int))
    }
}

/// Split input text into lines at line feeds.
pub fn split_lines(s: &[u8]) -> (r: Vec<Vec<u8>>)
    ensures
        r.deep_view() == split_lines_model(s@),
{
    let n = s.len();
    let mut out: Vec<Vec<u8>> = Vec::new();
    let mut pos: usize = 0;
    proof {
        assert(out.deep_view() =~~= Seq::<Seq<u8>>::empty());
        assert(s@.subrange(0, n as int) =~= s@);
        assert(Seq::<Seq<u8>>::empty() + split_lines_model(s@) =~~= split_lines_model(s@));
    }
    loop
        invariant
            0 <= pos <= n == s@.len(),
            split_lines_model(s@) == out.deep_view() + split_lines_model(
                s@.subrange(pos as int, n as int),
            ),
        decreases n - pos,
    {
        let rest = vstd::slice::slice_subrange(s, pos, n);
        let ghost out_before = out.deep_view();
        match find_byte(rest, '\n' as u8) {
            None => {
                out.push(vstd::slice::slice_to_vec(rest));
                proof {
                    assert(out.deep_view() =~~= out_before.push(rest@));
                    assert(out_before + split_lines_model(rest@) =~~= out.deep_view());
                }
                return out;
            },
            Some(jr) => {
                let seg = vstd::slice::slice_subrange(rest, 0, jr);
                out.push(vstd::slice::slice_to_vec(seg));
                proof {
                    assert(out.deep_view() =~~= out_before.push(seg@));
                    assert(rest@.subrange(jr + 1, rest@.len() as int) =~= s@.subrange(
                        (pos + jr + 1) as int,
                        n as int,
                    ));
                    assert(out_before + (seq![seg@] + split_lines_model(
                        s@.subrange((pos + jr + 1) as int, n as int),
                    )) =~~= out.deep_view() + split_lines_model(
                        s@.subrange((pos + jr + 1) as int, n as int),
                    ));
                }
                pos = pos + jr + 1;
            },
        }
    }
}

/// Parse a whole text: split into lines, then fold the state machine.
pub open spec fn parse_text_model(s: Seq<u8>) -> Result<Seq<ClassModel>, ErrorModel> {
    parse_model(split_lines_model(s))
}

/// Parse a whole pseudo-header text.
pub fn parse_text(s: &[u8]) -> (r: Result<Vec<ClassDecl>, ParseError>)
    ensures
        match r {
            Ok(cs) => parse_text_model(s@) == Ok::<Seq<ClassModel>, ErrorModel>(cs.deep_view()),
            Err(e) => parse_text_model(s@) == Err::<Seq<ClassModel>, ErrorModel>(e@),
        },
{
    let lines = split_lines(s);
    parse_lines(&lines)
}

} // verus!

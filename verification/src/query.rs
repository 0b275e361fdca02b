//! One round of the interactive query session, as a pure decision: from the
//! read-only index and one line of user input to what the session does
//! next — end, report a malformed offset, report an empty bucket, or print
//! one formatted line per matching entry. The surrounding read/print loop
//! performs I/O only and carries no logic of its own.

use vstd::prelude::*;

use crate::bytes::bytes_eq;
use crate::bytes::starts_with;
use crate::bytes::trim;
use crate::bytes::trim_model;
use crate::hex::hex_repr;
use crate::hex::hex_val;
use crate::hex::is_hex_digits;
use crate::hex::parse_hex;
use crate::hex::to_hex_lower;
use crate::index::EntryModel;
use crate::index::FieldEntry;
use crate::index::OffsetIndex;

verus! {

// ---------------------------------------------------------------------------
// Literals of the query surface.
// ---------------------------------------------------------------------------

/// `exit`
pub open spec fn lit_exit() -> Seq<u8> {
    seq!['e' as u8, 'x' as u8, 'i' as u8, 't' as u8]
}

/// `0x`
pub open spec fn lit_hex_prefix() -> Seq<u8> {
    seq!['0' as u8, 'x' as u8]
}

/// `Unknown type`
pub open spec fn lit_unknown_type() -> Seq<u8> {
    seq![
        'U' as u8, 'n' as u8, 'k' as u8, 'n' as u8, 'o' as u8, 'w' as u8, 'n' as u8, ' ' as u8,
        't' as u8, 'y' as u8, 'p' as u8, 'e' as u8,
    ]
}

/// `::`
pub open spec fn lit_colons() -> Seq<u8> {
    seq![':' as u8, ':' as u8]
}

/// ` (`
pub open spec fn lit_scope_open() -> Seq<u8> {
    seq![' ' as u8, '(' as u8]
}

/// `)`
pub open spec fn lit_scope_close() -> Seq<u8> {
    seq![')' as u8]
}

/// `no field at offset 0x`
pub open spec fn lit_no_field() -> Seq<u8> {
    seq![
        'n' as u8, 'o' as u8, ' ' as u8, 'f' as u8, 'i' as u8, 'e' as u8, 'l' as u8, 'd' as u8,
        ' ' as u8, 'a' as u8, 't' as u8, ' ' as u8, 'o' as u8, 'f' as u8, 'f' as u8, 's' as u8,
        'e' as u8, 't' as u8, ' ' as u8, '0' as u8, 'x' as u8,
    ]
}

/// `invalid offset`
pub open spec fn lit_invalid_offset() -> Seq<u8> {
    seq![
        'i' as u8, 'n' as u8, 'v' as u8, 'a' as u8, 'l' as u8, 'i' as u8, 'd' as u8, ' ' as u8,
        'o' as u8, 'f' as u8, 'f' as u8, 's' as u8, 'e' as u8, 't' as u8,
    ]
}

fn v_exit() -> (r: Vec<u8>)
    ensures
        r@ == lit_exit(),
{
    let v: Vec<u8> = vec!['e' as u8, 'x' as u8, 'i' as u8, 't' as u8];
    proof {
        assert(v@ =~= lit_exit());
    }
    v
}

fn v_hex_prefix() -> (r: Vec<u8>)
    ensures
        r@ == lit_hex_prefix(),
{
    let v: Vec<u8> = vec!['0' as u8, 'x' as u8];
    proof {
        assert(v@ =~= lit_hex_prefix());
    }
    v
}

fn v_unknown_type() -> (r: Vec<u8>)
    ensures
        r@ == lit_unknown_type(),
{
    let v: Vec<u8> = vec![
        'U' as u8, 'n' as u8, 'k' as u8, 'n' as u8, 'o' as u8, 'w' as u8, 'n' as u8, ' ' as u8,
        't' as u8, 'y' as u8, 'p' as u8, 'e' as u8,
    ];
    proof {
        assert(v@ =~= lit_unknown_type());
    }
    v
}

fn v_colons() -> (r: Vec<u8>)
    ensures
        r@ == lit_colons(),
{
    let v: Vec<u8> = vec![':' as u8, ':' as u8];
    proof {
        assert(v@ =~= lit_colons());
    }
    v
}

fn v_scope_open() -> (r: Vec<u8>)
    ensures
        r@ == lit_scope_open(),
{
    let v: Vec<u8> = vec![' ' as u8, '(' as u8];
    proof {
        assert(v@ =~= lit_scope_open());
    }
    v
}

fn v_scope_close() -> (r: Vec<u8>)
    ensures
        r@ == lit_scope_close(),
{
    let v: Vec<u8> = vec![')' as u8];
    proof {
        assert(v@ =~= lit_scope_close());
    }
    v
}

fn v_no_field() -> (r: Vec<u8>)
    ensures
        r@ == lit_no_field(),
{
    let v: Vec<u8> = vec![
        'n' as u8, 'o' as u8, ' ' as u8, 'f' as u8, 'i' as u8, 'e' as u8, 'l' as u8, 'd' as u8,
        ' ' as u8, 'a' as u8, 't' as u8, ' ' as u8, 'o' as u8, 'f' as u8, 'f' as u8, 's' as u8,
        'e' as u8, 't' as u8, ' ' as u8, '0' as u8, 'x' as u8,
    ];
    proof {
        assert(v@ =~= lit_no_field());
    }
    v
}

fn v_invalid_offset() -> (r: Vec<u8>)
    ensures
        r@ == lit_invalid_offset(),
{
    let v: Vec<u8> = vec![
        'i' as u8, 'n' as u8, 'v' as u8, 'a' as u8, 'l' as u8, 'i' as u8, 'd' as u8, ' ' as u8,
        'o' as u8, 'f' as u8, 'f' as u8, 's' as u8, 'e' as u8, 't' as u8,
    ];
    proof {
        assert(v@ =~= lit_invalid_offset());
    }
    v
}

// ---------------------------------------------------------------------------
// Formatting.
// ---------------------------------------------------------------------------

fn append_bytes(dst: &mut Vec<u8>, src: &[u8])
    ensures
        final(dst)@ == old(dst)@ + src@,
{
    let n = src.len();
    let mut i: usize = 0;
    while i < n
        invariant
            0 <= i <= n == src@.len(),
            dst@ == old(dst)@ + src@.take(i as int),
        decreases n - i,
    {
        dst.push(crate::bytes::byte_at(src, i));
        proof {
            assert(old(dst)@ + src@.take(i + 1) =~= (old(dst)@ + src@.take(i as int)).push(
                src@[i as int],
            ));
        }
        i = i + 1;
    }
    proof {
        assert(src@.take(n as int) =~= src@);
    }
}

/// One result line: the type text (or `Unknown type`), the class and field
/// name joined by `::`, and the scope in parentheses when one exists.
pub open spec fn format_entry_model(e: EntryModel) -> Seq<u8> {
    let ty = match e.ty {
        Some(t) => t,
        None => lit_unknown_type(),
    };
    let base = ty + seq![' ' as u8] + e.class_name + lit_colons() + e.name;
    match e.scope_name {
        Some(s) => base + lit_scope_open() + s + lit_scope_close(),
        None => base,
    }
}

/// Render one field entry as its result line.
pub fn format_entry(e: &FieldEntry) -> (r: Vec<u8>)
    ensures
        r@ == format_entry_model(e@),
{
    let mut r: Vec<u8> = Vec::new();
    match &e.ty {
        Some(t) => append_bytes(&mut r, t.as_slice()),
        None => {
            let u = v_unknown_type();
            append_bytes(&mut r, u.as_slice());
        },
    }
    r.push(' ' as u8);
    append_bytes(&mut r, e.class_name.as_slice());
    let c = v_colons();
    append_bytes(&mut r, c.as_slice());
    append_bytes(&mut r, e.name.as_slice());
    match &e.scope_name {
        Some(s) => {
            let o = v_scope_open();
            append_bytes(&mut r, o.as_slice());
            append_bytes(&mut r, s.as_slice());
            let cl = v_scope_close();
            append_bytes(&mut r, cl.as_slice());
        },
        None => {},
    }
    proof {
        assert(r@ =~= format_entry_model(e@));
    }
    r
}

/// The message for an offset no field is declared at.
pub open spec fn no_field_message_model(off: nat) -> Seq<u8> {
    lit_no_field() + hex_repr(off)
}

/// Render the no-field message for an offset.
pub fn no_field_message(offset: usize) -> (r: Vec<u8>)
    ensures
        r@ == no_field_message_model(offset as nat),
{
    let mut r = v_no_field();
    let h = to_hex_lower(offset);
    append_bytes(&mut r, h.as_slice());
    r
}

/// Render the malformed-offset message.
pub fn invalid_offset_message() -> (r: Vec<u8>)
    ensures
        r@ == lit_invalid_offset(),
{
    v_invalid_offset()
}

// ---------------------------------------------------------------------------
// One round of the session.
// ---------------------------------------------------------------------------

/// What one line of user input means for the session.
#[verifier::ext_equal]
pub enum QueryOutcomeModel {
    /// The input ends the session: empty after trimming, or the word `exit`.
    Exit,
    /// The input is not a hex offset.
    Invalid,
    /// A well-formed offset no field is declared at.
    NoField { offset: nat },
    /// A well-formed offset with fields: one formatted line per entry, in
    /// bucket order.
    Found { offset: nat, lines: Seq<Seq<u8>> },
}

/// Executable outcome of one round.
#[derive(Debug, PartialEq, Eq)]
pub enum QueryOutcome {
    Exit,
    Invalid,
    NoField { offset: usize },
    Found { offset: usize, lines: Vec<Vec<u8>> },
}

impl View for QueryOutcome {
    type V = QueryOutcomeModel;

    open spec fn view(&self) -> QueryOutcomeModel {
        match self {
            QueryOutcome::Exit => QueryOutcomeModel::Exit,
            QueryOutcome::Invalid => QueryOutcomeModel::Invalid,
            QueryOutcome::NoField { offset } => QueryOutcomeModel::NoField {
                offset: *offset as nat,
            },
            QueryOutcome::Found { offset, lines } => QueryOutcomeModel::Found {
                offset: *offset as nat,
                lines: lines.deep_view(),
            },
        }
    }
}

/// The meaning of one line of user input against the index: trim it; end on
/// empty or `exit`; strip one optional `0x` prefix; reject anything that is
/// not hex digits with a value in the native unsigned range; otherwise
/// answer from the bucket at that offset.
pub open spec fn query_model(ix: OffsetIndex, input: Seq<u8>) -> QueryOutcomeModel {
    let t = trim_model(input);
    if t.len() == 0 || t == lit_exit() {
        QueryOutcomeModel::Exit
    } else {
        let digits = if lit_hex_prefix().is_prefix_of(t) {
            t.subrange(2, t.len() as int)
        } else {
            t
        };
        if !is_hex_digits(digits) || hex_val(digits) > usize::MAX as nat {
            QueryOutcomeModel::Invalid
        } else {
            let off = hex_val(digits);
            let es = ix.spec_lookup(off);
            if es.len() == 0 {
                QueryOutcomeModel::NoField { offset: off }
            } else {
                QueryOutcomeModel::Found {
                    offset: off,
                    lines: es.map_values(|e: EntryModel| format_entry_model(e)),
                }
            }
        }
    }
}

/// Decide one round of the session from one line of user input.
pub fn query_step(ix: &OffsetIndex, input: &[u8]) -> (r: QueryOutcome)
    requires
        ix.wf(),
    ensures
        r@ == query_model(*ix, input@),
{
    let t = trim(input);
    let ex = v_exit();
    if t.len() == 0 || bytes_eq(t, ex.as_slice()) {
        return QueryOutcome::Exit;
    }
    let px = v_hex_prefix();
    let digits: &[u8] = if starts_with(t, px.as_slice()) {
        vstd::slice::slice_subrange(t, 2, t.len())
    } else {
        t
    };
    match parse_hex(digits) {
        None => QueryOutcome::Invalid,
        Some(offset) => match ix.lookup(offset) {
            None => QueryOutcome::NoField { offset },
            Some(es) => {
                let ghost esm = ix.spec_lookup(offset as nat);
                let n = es.len();
                let mut lines: Vec<Vec<u8>> = Vec::new();
                let mut i: usize = 0;
                proof {
                    assert(lines.deep_view() =~~= esm.map_values(
                        |e: EntryModel| format_entry_model(e),
                    ).take(0));
                }
                while i < n
                    invariant
                        0 <= i <= n == es@.len(),
                        es.deep_view() == esm,
                        lines.deep_view() == esm.map_values(
                            |e: EntryModel| format_entry_model(e),
                        ).take(i as int),
                    decreases n - i,
                {
                    let line = format_entry(&es[i]);
                    let ghost before = lines.deep_view();
                    lines.push(line);
                    proof {
                        let m = esm.map_values(|e: EntryModel| format_entry_model(e));
                        assert(es[i as int]@ == esm[i as int]);
                        assert(m[i as int] == format_entry_model(esm[i as int]));
                        assert(lines.deep_view() =~~= before.push(line@));
                        assert(m.take(i + 1) =~= m.take(i as int).push(m[i as int]));
                        assert(lines.deep_view() =~~= m.take(i + 1));
                    }
                    i = i + 1;
                }
                proof {
                    let m = esm.map_values(|e: EntryModel| format_entry_model(e));
                    assert(m.take(n as int) =~= m);
                }
                QueryOutcome::Found { offset, lines }
            },
        },
    }
}

} // verus!

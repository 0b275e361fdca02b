//! Typed metadata records attached to a class in the JSON schema forms, and
//! the rule resolving a field's type text from them: the first record
//! tagged as a network-variable-name carrying the same field name supplies
//! the type; no match means the type stays unknown, never an error.

use vstd::prelude::*;

use crate::bytes::bytes_eq;

verus! {

/// One metadata record of a class.
#[derive(Debug, PartialEq, Eq)]
pub enum Metadata {
    Unknown { name: Vec<u8> },
    NetworkChangeCallback { name: Vec<u8> },
    NetworkVarNames { name: Vec<u8>, ty_name: Vec<u8> },
}

/// Abstract metadata record.
#[verifier::ext_equal]
pub enum MetadataModel {
    Unknown { name: Seq<u8> },
    NetworkChangeCallback { name: Seq<u8> },
    NetworkVarNames { name: Seq<u8>, ty_name: Seq<u8> },
}

impl View for Metadata {
    type V = MetadataModel;

    open spec fn view(&self) -> MetadataModel {
        match self {
            Metadata::Unknown { name } => MetadataModel::Unknown { name: name@ },
            Metadata::NetworkChangeCallback { name } => MetadataModel::NetworkChangeCallback {
                name: name@,
            },
            Metadata::NetworkVarNames { name, ty_name } => MetadataModel::NetworkVarNames {
                name: name@,
                ty_name: ty_name@,
            },
        }
    }
}

impl DeepView for Metadata {
    type V = MetadataModel;

    open spec fn deep_view(&self) -> MetadataModel {
        self.view()
    }
}

/// The type text of the first network-variable-name record matching
/// `name`, or `None` when no record matches.
pub open spec fn field_type_model(md: Seq<MetadataModel>, name: Seq<u8>) -> Option<Seq<u8>>
    decreases md.len(),
{
    if md.len() == 0 {
        None
    } else {
        match md[0] {
            MetadataModel::NetworkVarNames { name: n, ty_name } => if n == name {
                Some(ty_name)
            } else {
                field_type_model(md.drop_first(), name)
            },
            _ => field_type_model(md.drop_first(), name),
        }
    }
}

/// Resolve a field's type text from a class's metadata records: first
/// matching network-variable-name record wins.
pub fn get_field_type(metadata: &Vec<Metadata>, name: &[u8]) -> (r: Option<Vec<u8>>)
    ensures
        match r {
            Some(t) => field_type_model(metadata.deep_view(), name@) == Some(t@),
            None => field_type_model(metadata.deep_view(), name@) is None,
        },
{
    let ghost mdv = metadata.deep_view();
    let n = metadata.len();
    let mut i: usize = 0;
    proof {
        assert(mdv.subrange(0, mdv.len() as int) =~= mdv);
    }
    while i < n
        invariant
            0 <= i <= n == metadata@.len(),
            mdv == metadata.deep_view(),
            field_type_model(mdv, name@) == field_type_model(
                mdv.subrange(i as int, mdv.len() as int),
                name@,
            ),
        decreases n - i,
    {
        let ghost rest = mdv.subrange(i as int, mdv.len() as int);
        proof {
            assert(rest[0] == mdv[i as int]);
            assert(rest.drop_first() =~= mdv.subrange(i + 1, mdv.len() as int));
        }
        match &metadata[i] {
            Metadata::NetworkVarNames { name: nm, ty_name } => {
                if bytes_eq(nm.as_slice(), name) {
                    return Some(vstd::slice::slice_to_vec(ty_name.as_slice()));
                }
            },
            _ => {},
        }
        i = i + 1;
    }
    None
}

} // verus!

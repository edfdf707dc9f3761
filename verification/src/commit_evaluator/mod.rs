//! Machines that answer lookups while witness values are computed.

pub mod fixed_lookup_machine;

use crate::number::Number;
use crate::parser::ast::{SelectedExpressions, SelectedExpressionsView};
use vstd::prelude::*;

verus! {

/// The kinds of identities.
#[derive(Clone, Copy, Debug, PartialEq, Eq)]
pub enum IdentityKind {
    Polynomial,
    Plookup,
    Permutation,
    Connect,
}

/// An identity of a constraint system: its kind and its two sides.
#[derive(Debug, PartialEq, Eq)]
pub struct Identity {
    pub id: u64,
    pub kind: IdentityKind,
    pub left: SelectedExpressions,
    pub right: SelectedExpressions,
}

/// The view of an [`Identity`].
pub struct IdentityView {
    pub id: u64,
    pub kind: IdentityKind,
    pub left: SelectedExpressionsView,
    pub right: SelectedExpressionsView,
}

impl DeepView for Identity {
    type V = IdentityView;

    open spec fn deep_view(&self) -> IdentityView {
        IdentityView {
            id: self.id,
            kind: self.kind,
            left: self.left.deep_view(),
            right: self.right.deep_view(),
        }
    }
}

/// What is fixed before any witness is computed: the number of rows, the fixed columns
/// with their values, and the names of the witness columns.
#[derive(Debug, PartialEq, Eq)]
pub struct FixedData {
    pub degree: u64,
    pub fixed_cols: Vec<(String, Vec<Number>)>,
    pub witness_cols: Vec<String>,
}

/// The view of [`FixedData`].
pub struct FixedDataView {
    pub degree: u64,
    pub fixed_cols: Seq<(Seq<char>, Seq<int>)>,
    pub witness_cols: Seq<Seq<char>>,
}

impl DeepView for FixedData {
    type V = FixedDataView;

    open spec fn deep_view(&self) -> FixedDataView {
        FixedDataView {
            degree: self.degree,
            fixed_cols: self.fixed_cols.deep_view(),
            witness_cols: self.witness_cols.deep_view(),
        }
    }
}

} // verus!

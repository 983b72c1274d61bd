//! What can go wrong while editors are built or brought up to date.

use vstd::prelude::*;
use crate::reflect::TypeId;

verus! {

/// An error of the inspector: a single typed error, or the group of errors
/// that one pass over sibling fields collected.
#[derive(Debug, PartialEq, Eq)]
pub enum InspectorError {
    /// A field was cast to a type that is not the type of its value.
    TypeMismatch { property_name: String, expected_type_id: TypeId, actual_type_id: TypeId },
    /// No editor definition is registered for the type of a field's value.
    MissingEditor { property_name: String, type_id: TypeId },
    /// The errors of several sibling fields, in field order.
    Group(Vec<InspectorError>),
}

/// The mathematical value of an error.
pub enum InspectorErrorView {
    TypeMismatch { property_name: Seq<char>, expected_type_id: TypeId, actual_type_id: TypeId },
    MissingEditor { property_name: Seq<char>, type_id: TypeId },
    Group(Seq<InspectorErrorView>),
}

/// The mathematical value of an error.
pub open spec fn error_view(error: InspectorError) -> InspectorErrorView
    decreases error,
{
    match error {
        InspectorError::TypeMismatch { property_name, expected_type_id, actual_type_id } => {
            InspectorErrorView::TypeMismatch {
                property_name: property_name@,
                expected_type_id,
                actual_type_id,
            }
        },
        InspectorError::MissingEditor { property_name, type_id } => {
            InspectorErrorView::MissingEditor { property_name: property_name@, type_id }
        },
        InspectorError::Group(errors) => InspectorErrorView::Group(
            Seq::new(
                errors.len() as nat,
                |i: int|
                    if 0 <= i < errors.len() {
                        error_view(errors[i])
                    } else {
                        arbitrary()
                    },
            ),
        ),
    }
}

impl View for InspectorError {
    type V = InspectorErrorView;

    open spec fn view(&self) -> InspectorErrorView {
        error_view(*self)
    }
}

/// The views of a list of errors, in order.
pub open spec fn errors_view(errors: Vec<InspectorError>) -> Seq<InspectorErrorView> {
    match error_view(InspectorError::Group(errors)) {
        InspectorErrorView::Group(views) => views,
        _ => arbitrary(),
    }
}

/// What the view of a list of errors holds.
pub proof fn lemma_errors_view(errors: Vec<InspectorError>)
    ensures
        errors_view(errors).len() == errors.len(),
        forall|i: int| 0 <= i < errors.len() ==> #[trigger] errors_view(errors)[i] == errors[i]@,
        InspectorError::Group(errors)@ == InspectorErrorView::Group(errors_view(errors)),
{
}

/// Copies a list of errors.
pub fn clone_errors(errors: &Vec<InspectorError>) -> (copy: Vec<InspectorError>)
    ensures
        errors_view(copy) == errors_view(*errors),
    decreases errors,
{
    let mut copy: Vec<InspectorError> = Vec::new();
    let mut i: usize = 0;
    while i < errors.len()
        invariant
            i <= errors.len(),
            copy.len() == i,
            forall|j: int| 0 <= j < i ==> (#[trigger] copy[j])@ == errors[j]@,
        decreases errors.len() - i,
    {
        copy.push(errors[i].clone());
        i += 1;
    }
    proof {
        lemma_errors_view(copy);
        lemma_errors_view(*errors);
        assert(errors_view(copy) =~= errors_view(*errors));
    }
    copy
}

impl Clone for InspectorError {
    fn clone(&self) -> (copy: Self)
        ensures
            copy@ == self@,
        decreases self,
    {
        match self {
            InspectorError::TypeMismatch { property_name, expected_type_id, actual_type_id } => {
                InspectorError::TypeMismatch {
                    property_name: property_name.clone(),
                    expected_type_id: *expected_type_id,
                    actual_type_id: *actual_type_id,
                }
            },
            InspectorError::MissingEditor { property_name, type_id } => {
                InspectorError::MissingEditor {
                    property_name: property_name.clone(),
                    type_id: *type_id,
                }
            },
            InspectorError::Group(errors) => {
                let copies = clone_errors(errors);
                proof {
                    lemma_errors_view(copies);
                    lemma_errors_view(*errors);
                }
                InspectorError::Group(copies)
            },
        }
    }
}

} // verus!

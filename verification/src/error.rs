//! The reasons for which a property line is refused.

use vstd::prelude::*;

verus! {

/// Why no property could be built from a text. Each value names one reason and
/// carries the text that was at fault.
#[derive(Debug, PartialEq, Eq)]
pub enum VcardError {
    /// The line holds no `:`; carries the line as it was given.
    MalformedProperty(String),
    /// The text before the first `:` or `;` is the keyword of no property type;
    /// carries that text.
    UnknownPropertyType(String),
    /// A parameter is not of the form `KEY=VALUE`; carries the parameter.
    ParameterError(String),
    /// A value text cannot stand in a property line; carries the value text.
    ValueError(String),
}

/// The mathematical content of a `VcardError`.
pub enum VcardErrorView {
    MalformedProperty(Seq<char>),
    UnknownPropertyType(Seq<char>),
    ParameterError(Seq<char>),
    ValueError(Seq<char>),
}

impl View for VcardError {
    type V = VcardErrorView;

    open spec fn view(&self) -> VcardErrorView {
        match self {
            VcardError::MalformedProperty(line) => VcardErrorView::MalformedProperty(line@),
            VcardError::UnknownPropertyType(keyword) => VcardErrorView::UnknownPropertyType(
                keyword@,
            ),
            VcardError::ParameterError(parameter) => VcardErrorView::ParameterError(parameter@),
            VcardError::ValueError(text) => VcardErrorView::ValueError(text@),
        }
    }
}

impl Clone for VcardError {
    fn clone(&self) -> (copy: Self)
        ensures
            copy@ == self@,
    {
        match self {
            VcardError::MalformedProperty(line) => VcardError::MalformedProperty(line.clone()),
            VcardError::UnknownPropertyType(keyword) => VcardError::UnknownPropertyType(
                keyword.clone(),
            ),
            VcardError::ParameterError(parameter) => VcardError::ParameterError(parameter.clone()),
            VcardError::ValueError(text) => VcardError::ValueError(text.clone()),
        }
    }
}

} // verus!

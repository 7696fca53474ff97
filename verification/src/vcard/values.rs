//! The value of a property: the text behind the first `:` of its line, kept
//! together with the type of the property that it belongs to.

use vstd::prelude::*;
use vstd::string::StringExecFns;

use crate::error::{VcardError, VcardErrorView};
use crate::text::{has_no_line_break, is_free_of_line_breaks};
use crate::vcard::parameter::{parameter_views, Parameter, ParameterView};
use crate::vcard::property::types::PropertyType;

verus! {

/// The value of a property of one type. Its text holds no line break.
#[derive(Debug, PartialEq, Eq)]
pub struct Value {
    value_type: PropertyType,
    text: String,
}

/// The mathematical content of a `Value`.
pub struct ValueView {
    pub value_type: PropertyType,
    pub text: Seq<char>,
}

impl ValueView {
    /// The text holds no line break.
    pub open spec fn wf(self) -> bool {
        has_no_line_break(self.text)
    }
}

/// The text of the value that a property of type `t` starts out with: the version
/// number `4.0` for the version property, no text for every other.
pub open spec fn default_text(t: PropertyType) -> Seq<char> {
    match t {
        PropertyType::Version => "4.0"@,
        _ => Seq::empty(),
    }
}

/// The value that a property of type `t` starts out with.
pub open spec fn default_value(t: PropertyType) -> ValueView {
    ValueView { value_type: t, text: default_text(t) }
}

/// The value that `text` spells for a property of type `t` with the given
/// parameters: the text as it is written, unless it holds a line break. The empty
/// text is a value like any other.
pub open spec fn value_spec(t: PropertyType, parameters: Seq<ParameterView>, text: Seq<char>)
    -> Result<ValueView, VcardErrorView> {
    if has_no_line_break(text) {
        Ok(ValueView { value_type: t, text })
    } else {
        Err(VcardErrorView::ValueError(text))
    }
}

/// The default value of every type is a value that can be read back from its text.
pub proof fn lemma_default_value(t: PropertyType, parameters: Seq<ParameterView>)
    ensures
        default_value(t).wf(),
        value_spec(t, parameters, default_text(t)) == Ok::<ValueView, VcardErrorView>(
            default_value(t),
        ),
{
    reveal_strlit("4.0");
}

impl View for Value {
    type V = ValueView;

    closed spec fn view(&self) -> ValueView {
        ValueView { value_type: self.value_type, text: self.text@ }
    }
}

impl Clone for Value {
    fn clone(&self) -> (copy: Self)
        ensures
            copy@ == self@,
    {
        proof {
            use_type_invariant(self);
        }
        Value { value_type: self.value_type, text: self.text.clone() }
    }
}

impl Value {
    /// Every value is well formed: no constructor makes another kind.
    #[verifier::type_invariant]
    spec fn well_formed(&self) -> bool {
        self@.wf()
    }

    /// The value that a property of type `property_type` starts out with.
    pub fn from_type(property_type: &PropertyType) -> (value: Value)
        ensures
            value@ == default_value(*property_type),
            value@.wf(),
    {
        proof {
            lemma_default_value(*property_type, Seq::empty());
            reveal_strlit("");
            assert(""@ =~= Seq::<char>::empty());
        }
        let text = match property_type {
            PropertyType::Version => "4.0",
            _ => "",
        };
        Value { value_type: *property_type, text: String::from_str(text) }
    }

    /// Reads the value of a property of type `property_type` with the given
    /// parameters from the value text of its line. The text is kept as it is
    /// written, the empty text too; a text with a line break is refused, and the
    /// error carries the text.
    #[allow(unused_variables)]
    pub fn parse(property_type: &PropertyType, parameters: &Vec<Parameter>, text: &str) -> (parsed:
        Result<Value, VcardError>)
        ensures
            match parsed {
                Ok(value) => value_spec(
                    *property_type,
                    parameter_views(parameters@),
                    text@,
                ) == Ok::<ValueView, VcardErrorView>(value@),
                Err(e) => value_spec(
                    *property_type,
                    parameter_views(parameters@),
                    text@,
                ) == Err::<ValueView, VcardErrorView>(e@),
            },
    {
        if is_free_of_line_breaks(text) {
            Ok(Value { value_type: *property_type, text: String::from_str(text) })
        } else {
            Err(VcardError::ValueError(String::from_str(text)))
        }
    }

    /// The type of the property that this value belongs to.
    pub fn get_type(&self) -> (value_type: &PropertyType)
        ensures
            *value_type == self@.value_type,
    {
        &self.value_type
    }

    /// Writes the value as it stands in a property line. Reading that text for
    /// the same type gives the value back, whatever the parameters.
    pub fn to_string(&self) -> (text: String)
        ensures
            text@ == self@.text,
            forall|parameters: Seq<ParameterView>| #[trigger]
                value_spec(self@.value_type, parameters, text@) == Ok::<ValueView, VcardErrorView>(
                    self@,
                ),
    {
        proof {
            use_type_invariant(self);
        }
        self.text.clone()
    }
}

} // verus!

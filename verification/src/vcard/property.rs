//! One property of a contact card: a line of the form
//! `KEYWORD[;PARAMETER[;PARAMETER...]]:VALUE`, read into a record and written
//! back as its canonical line.

use uuid::Uuid;
use vstd::prelude::*;
use vstd::string::StringExecFns;

use crate::error::{VcardError, VcardErrorView};
use crate::text::{
    join, lemma_join_push, remove_line_breaks, split_first, split_once, strip_line_breaks,
};
use crate::vcard::identity::fresh_identity;
use crate::vcard::parameter::{parameter_views, parameters_spec, Parameter, ParameterView};
use crate::vcard::property::laws::{
    lemma_default_round_trip, lemma_parse_serialized, lemma_parse_wf, lemma_parse_with_type,
};
use crate::vcard::property::types::{keyword_of, resolve, resolve_spec, PropertyType};
use crate::vcard::values::{default_value, value_spec, Value, ValueView};

pub mod laws;
pub mod types;

verus! {

/// A property: its identity, its type, its parameters in the order in which they
/// were written, and its value. A property is never changed once it is made; a
/// changed property is a new one, which may carry the old identity.
#[derive(Debug)]
pub struct Property {
    uuid: Uuid,
    property_type: PropertyType,
    property_value: Value,
    property_parameters: Vec<Parameter>,
}

/// What a property holds besides its identity.
pub struct PropertyContent {
    pub property_type: PropertyType,
    pub parameters: Seq<ParameterView>,
    pub value: ValueView,
}

/// The mathematical content of a `Property`.
pub struct PropertyView {
    pub identity: Uuid,
    pub content: PropertyContent,
}

/// The three parts of a property line.
pub struct LineParts {
    /// The text before the first `;` or `:`.
    pub keyword: Seq<char>,
    /// The text between the first `;` and the first `:`, where a `;` stands
    /// before the first `:`.
    pub parameter_text: Option<Seq<char>>,
    /// The text after the first `:`.
    pub value_text: Seq<char>,
}

impl LineParts {
    /// The line that has these parts.
    pub open spec fn line(self) -> Seq<char> {
        match self.parameter_text {
            Some(parameter_text) => self.keyword + seq![';'] + parameter_text + seq![':']
                + self.value_text,
            None => self.keyword + seq![':'] + self.value_text,
        }
    }
}

/// The parts of a line that holds no line break. The first `:` ends the head and
/// begins the value text; within the head, the first `;` ends the keyword and
/// begins the parameter text. `None` where the line holds no `:`.
pub open spec fn line_parts(line: Seq<char>) -> Option<LineParts> {
    match split_first(line, ':') {
        Some((head, value_text)) => match split_first(head, ';') {
            Some((keyword, parameter_text)) => Some(
                LineParts { keyword, parameter_text: Some(parameter_text), value_text },
            ),
            None => Some(LineParts { keyword: head, parameter_text: None, value_text }),
        },
        None => None,
    }
}

/// What the three parts of a line spell: the type that the keyword names, the
/// parameters that the parameter text spells for that type, and the value that
/// the value text spells for that type and those parameters; or the error of the
/// first of these three that fails.
pub open spec fn content_of_parts(parts: LineParts) -> Result<PropertyContent, VcardErrorView> {
    match resolve_spec(parts.keyword) {
        Some(property_type) => match parameters_spec(property_type, parts.parameter_text) {
            Ok(parameters) => match value_spec(property_type, parameters, parts.value_text) {
                Ok(value) => Ok(PropertyContent { property_type, parameters, value }),
                Err(e) => Err(e),
            },
            Err(e) => Err(e),
        },
        None => Err(VcardErrorView::UnknownPropertyType(parts.keyword)),
    }
}

/// What a line spells. Line breaks inside the line are ignored. A line without a
/// `:` is malformed, and the error carries the line as it was given.
pub open spec fn parse_spec(line: Seq<char>) -> Result<PropertyContent, VcardErrorView> {
    match line_parts(strip_line_breaks(line)) {
        Some(parts) => content_of_parts(parts),
        None => Err(VcardErrorView::MalformedProperty(line)),
    }
}

/// The line that gives a value text to a property of type `t`: the keyword of
/// `t`, a `:`, and the text.
pub open spec fn line_with_type(t: PropertyType, value_text: Seq<char>) -> Seq<char> {
    t.keyword_spec() + seq![':'] + value_text
}

/// The texts of a sequence of parameters.
pub open spec fn parameter_texts(parameters: Seq<ParameterView>) -> Seq<Seq<char>> {
    parameters.map_values(|p: ParameterView| p.text())
}

impl PropertyContent {
    /// What a new property of type `t` holds: the default value of `t` and no
    /// parameters.
    pub open spec fn default_of(t: PropertyType) -> PropertyContent {
        PropertyContent { property_type: t, parameters: Seq::empty(), value: default_value(t) }
    }

    /// The value belongs to the type of the property, and the parameters and the
    /// value are such as can stand in a property line.
    pub open spec fn wf(self) -> bool {
        &&& self.value.value_type == self.property_type
        &&& self.value.wf()
        &&& forall|i: int| 0 <= i < self.parameters.len() ==> (#[trigger] self.parameters[i]).wf()
    }

    /// The parameters as they are written in a line, with a `;` between
    /// neighbours. Empty where there are no parameters.
    pub open spec fn parameters_text(self) -> Seq<char> {
        join(parameter_texts(self.parameters), ';')
    }

    /// The parts of the canonical line: the keyword of the type, the parameters
    /// with a `;` between neighbours if there are any, and the text of the value.
    pub open spec fn parts(self) -> LineParts {
        LineParts {
            keyword: self.property_type.keyword_spec(),
            parameter_text: if self.parameters.len() > 0 {
                Some(self.parameters_text())
            } else {
                None
            },
            value_text: self.value.text,
        }
    }

    /// The canonical line of the property: the keyword of its type, then `;` and
    /// the parameters if there are any, then `:` and the text of the value.
    pub open spec fn line(self) -> Seq<char> {
        self.parts().line()
    }
}

impl View for Property {
    type V = PropertyView;

    closed spec fn view(&self) -> PropertyView {
        PropertyView {
            identity: self.uuid,
            content: PropertyContent {
                property_type: self.property_type,
                parameters: parameter_views(self.property_parameters@),
                value: self.property_value@,
            },
        }
    }
}

/// Copies a parameter list.
fn clone_parameters(parameters: &Vec<Parameter>) -> (copy: Vec<Parameter>)
    ensures
        parameter_views(copy@) == parameter_views(parameters@),
{
    let mut copy: Vec<Parameter> = Vec::new();
    let mut i: usize = 0;
    while i < parameters.len()
        invariant
            i <= parameters.len(),
            copy@.len() == i,
            forall|j: int| 0 <= j < i ==> (#[trigger] copy@[j])@ == parameters@[j]@,
        decreases parameters.len() - i,
    {
        copy.push(parameters[i].clone());
        i = i + 1;
    }
    proof {
        assert(parameter_views(copy@) =~= parameter_views(parameters@));
    }
    copy
}

impl Clone for Property {
    fn clone(&self) -> (copy: Self)
        ensures
            copy@ == self@,
    {
        proof {
            use_type_invariant(self);
        }
        Property {
            uuid: self.uuid,
            property_type: self.property_type,
            property_value: self.property_value.clone(),
            property_parameters: clone_parameters(&self.property_parameters),
        }
    }
}

impl Property {
    /// Every property is well formed: no constructor makes another kind.
    #[verifier::type_invariant]
    spec fn well_formed(&self) -> bool {
        self@.content.wf()
    }

    /// The identity of this property.
    pub fn get_uuid(&self) -> (identity: Uuid)
        ensures
            identity == self@.identity,
    {
        self.uuid
    }

    /// The type of this property.
    pub fn get_type(&self) -> (property_type: &PropertyType)
        ensures
            *property_type == self@.content.property_type,
    {
        &self.property_type
    }

    /// The value of this property.
    pub fn get_value(&self) -> (value: &Value)
        ensures
            value@ == self@.content.value,
    {
        &self.property_value
    }

    /// The parameters of this property, in the order in which they were written.
    pub fn get_parameters(&self) -> (parameters: &Vec<Parameter>)
        ensures
            parameter_views(parameters@) == self@.content.parameters,
    {
        &self.property_parameters
    }

    /// Writes the parameters as they stand in the line, with a `;` between
    /// neighbours. The text is empty where there are no parameters.
    pub fn parameters_to_string(&self) -> (text: String)
        ensures
            text@ == self@.content.parameters_text(),
    {
        let mut text = String::new();
        let mut i: usize = 0;
        let ghost texts = parameter_texts(self@.content.parameters);
        proof {
            reveal_strlit(";");
            assert(";"@ =~= seq![';']);
            assert(texts.take(0) =~= Seq::<Seq<char>>::empty());
        }
        while i < self.property_parameters.len()
            invariant
                i <= self.property_parameters.len(),
                texts == parameter_texts(self@.content.parameters),
                texts.len() == self.property_parameters.len(),
                ";"@ == seq![';'],
                text@ == join(texts.take(i as int), ';'),
            decreases self.property_parameters.len() - i,
        {
            proof {
                assert(texts.take(i + 1) =~= texts.take(i as int).push(texts[i as int]));
                if i > 0 {
                    lemma_join_push(texts.take(i as int), texts[i as int], ';');
                }
            }
            if i > 0 {
                text.append(";");
            }
            let parameter = self.property_parameters[i].to_string();
            text.append(parameter.as_str());
            i = i + 1;
        }
        proof {
            assert(texts.take(i as int) =~= texts);
        }
        text
    }

    /// Writes the canonical line of this property: the keyword of its type, then
    /// `;` and the parameters if there are any, then `:` and the text of the
    /// value. Reading that line gives a property with the same content.
    pub fn to_string(&self) -> (line: String)
        ensures
            line@ == self@.content.line(),
            parse_spec(line@) == Ok::<PropertyContent, VcardErrorView>(self@.content),
    {
        let mut line = String::from_str(keyword_of(&self.property_type));
        proof {
            use_type_invariant(self);
            lemma_parse_serialized(self@.content);
            reveal_strlit(";");
            reveal_strlit(":");
            assert(";"@ =~= seq![';']);
            assert(":"@ =~= seq![':']);
        }
        if self.property_parameters.len() > 0 {
            line.append(";");
            let parameters = self.parameters_to_string();
            line.append(parameters.as_str());
        }
        line.append(":");
        let value = self.property_value.to_string();
        line.append(value.as_str());
        line
    }

    /// A new property of the given type, with the default value of that type, no
    /// parameters and a fresh identity.
    pub fn from_type(property_type: PropertyType) -> (property: Property)
        ensures
            property@.content == PropertyContent::default_of(property_type),
            property@.content.wf(),
    {
        let property_parameters: Vec<Parameter> = Vec::new();
        proof {
            assert(parameter_views(property_parameters@) =~= Seq::empty());
            lemma_default_round_trip(property_type);
        }
        Property {
            uuid: fresh_identity(),
            property_value: Value::from_type(&property_type),
            property_parameters,
            property_type,
        }
    }

    /// Reads a property from one line. The property gets the identity that is
    /// given, or a fresh one where none is given. Either the whole line is read and
    /// a property comes back, or the first fault found is reported and no property
    /// is made.
    pub fn parse(line: &str, identity: Option<Uuid>) -> (parsed: Result<Property, VcardError>)
        ensures
            match parsed {
                Ok(property) => {
                    &&& parse_spec(line@) == Ok::<PropertyContent, VcardErrorView>(
                        property@.content,
                    )
                    &&& identity matches Some(given) ==> property@.identity == given
                    &&& property@.content.wf()
                },
                Err(e) => parse_spec(line@) == Err::<PropertyContent, VcardErrorView>(e@),
            },
    {
        proof {
            if parse_spec(line@) is Ok {
                lemma_parse_wf(line@);
            }
        }
        let stripped = remove_line_breaks(line);
        let (head, value_text) = match split_once(stripped.as_str(), ':') {
            Some(parts) => parts,
            None => {
                return Err(VcardError::MalformedProperty(String::from_str(line)));
            },
        };
        let (keyword, parameter_text) = match split_once(head, ';') {
            Some((keyword, parameter_text)) => (keyword, Some(parameter_text)),
            None => (head, None),
        };
        let property_type = match resolve(keyword) {
            Ok(property_type) => property_type,
            Err(e) => {
                return Err(e);
            },
        };
        let property_parameters = match Parameter::build_parameters(
            &property_type,
            parameter_text,
        ) {
            Ok(property_parameters) => property_parameters,
            Err(e) => {
                return Err(e);
            },
        };
        let property_value = match Value::parse(&property_type, &property_parameters, value_text) {
            Ok(property_value) => property_value,
            Err(e) => {
                return Err(e);
            },
        };
        let uuid = match identity {
            Some(given) => given,
            None => fresh_identity(),
        };
        Ok(Property { uuid, property_type, property_value, property_parameters })
    }

    /// Reads a property of a known type from its value text alone: the line made
    /// of the keyword of the type, a `:` and the text is read as `parse` reads it.
    /// Such a line is always read: the property has the given type, no parameters,
    /// and the text without its line breaks as its value.
    pub fn parse_with_explicit_type(
        property_type: &PropertyType,
        value_text: &str,
        identity: Option<Uuid>,
    ) -> (parsed: Result<Property, VcardError>)
        ensures
            parsed matches Ok(property) && {
                &&& parse_spec(line_with_type(*property_type, value_text@)) == Ok::<
                    PropertyContent,
                    VcardErrorView,
                >(property@.content)
                &&& property@.content == (PropertyContent {
                    property_type: *property_type,
                    parameters: Seq::empty(),
                    value: ValueView {
                        value_type: *property_type,
                        text: strip_line_breaks(value_text@),
                    },
                })
                &&& identity matches Some(given) ==> property@.identity == given
                &&& property@.content.wf()
            },
    {
        let mut line = String::from_str(keyword_of(property_type));
        proof {
            reveal_strlit(":");
            assert(":"@ =~= seq![':']);
            lemma_parse_with_type(*property_type, value_text@);
        }
        line.append(":");
        line.append(value_text);
        Property::parse(line.as_str(), identity)
    }
}

} // verus!

//! The parameters of a property: `KEY=VALUE` items that stand between the
//! keyword and the value, each introduced by a `;`.

use vstd::prelude::*;
use vstd::string::StringExecFns;

use crate::error::{VcardError, VcardErrorView};
use crate::text::{
    first_index, has_no_framing, is_framing, is_free_of_framing, lemma_first_index,
    lemma_first_index_is, option_view, split, split_all, split_first, split_once, views_of,
};
use crate::vcard::property::types::PropertyType;

verus! {

/// One parameter of a property. Its key is not empty, and neither key nor value
/// holds a character that frames a property line.
#[derive(Debug, PartialEq, Eq)]
pub struct Parameter {
    key: String,
    value: String,
}

/// The mathematical content of a `Parameter`.
pub struct ParameterView {
    pub key: Seq<char>,
    pub value: Seq<char>,
}

impl ParameterView {
    /// The parameter as it is written in a property line: key, `=`, value.
    pub open spec fn text(self) -> Seq<char> {
        self.key + seq!['='] + self.value
    }

    /// The key is not empty and holds no `=`, and neither key nor value holds a
    /// `:`, a `;` or a line break.
    pub open spec fn wf(self) -> bool {
        &&& self.key.len() > 0
        &&& !self.key.contains('=')
        &&& has_no_framing(self.key)
        &&& has_no_framing(self.value)
    }
}

/// The parameter that `segment` spells: the text before its first `=` is the
/// key, the text after it the value. `None` where the segment holds a `:`, a `;`
/// or a line break, holds no `=`, or begins with `=`.
pub open spec fn parameter_spec(segment: Seq<char>) -> Option<ParameterView> {
    match split_first(segment, '=') {
        Some((key, value)) => if key.len() > 0 && has_no_framing(segment) {
            Some(ParameterView { key, value })
        } else {
            None
        },
        None => None,
    }
}

/// The parameters that the segments spell, in order; or the error for the first
/// segment that spells none.
pub open spec fn parameters_of(segments: Seq<Seq<char>>) -> Result<
    Seq<ParameterView>,
    VcardErrorView,
>
    decreases segments.len(),
{
    if segments.len() == 0 {
        Ok(Seq::empty())
    } else {
        match parameters_of(segments.drop_last()) {
            Ok(parameters) => match parameter_spec(segments.last()) {
                Some(parameter) => Ok(parameters.push(parameter)),
                None => Err(VcardErrorView::ParameterError(segments.last())),
            },
            Err(e) => Err(e),
        }
    }
}

/// The parameter list that a parameter text spells for a property of the given
/// type. No text means no parameters. A text is cut at every `;`, and each piece
/// must spell a parameter. The same parameters are accepted for every type.
pub open spec fn parameters_spec(property_type: PropertyType, text: Option<Seq<char>>) -> Result<
    Seq<ParameterView>,
    VcardErrorView,
> {
    match text {
        Some(text) => parameters_of(split_all(text, ';')),
        None => Ok(Seq::empty()),
    }
}

/// The contents of a sequence of parameters.
pub open spec fn parameter_views(parameters: Seq<Parameter>) -> Seq<ParameterView> {
    parameters.map_values(|p: Parameter| p@)
}

impl View for Parameter {
    type V = ParameterView;

    closed spec fn view(&self) -> ParameterView {
        ParameterView { key: self.key@, value: self.value@ }
    }
}

impl Clone for Parameter {
    fn clone(&self) -> (copy: Self)
        ensures
            copy@ == self@,
    {
        proof {
            use_type_invariant(self);
        }
        Parameter { key: self.key.clone(), value: self.value.clone() }
    }
}

impl Parameter {
    /// Every parameter is well formed: no constructor makes another kind.
    #[verifier::type_invariant]
    spec fn well_formed(&self) -> bool {
        self@.wf()
    }

    /// Reads one parameter from the text between two `;` of a property line: the
    /// text before the first `=` is the key, the text after it the value. A text
    /// with a `:`, a `;` or a line break, without `=` or with nothing before its
    /// first `=` is refused, and the error carries the text.
    pub fn parse(segment: &str) -> (parsed: Result<Parameter, VcardError>)
        ensures
            match parsed {
                Ok(parameter) => parameter_spec(segment@) == Some(parameter@) && parameter@.wf(),
                Err(e) => parameter_spec(segment@) is None && e@ == VcardErrorView::ParameterError(
                    segment@,
                ),
            },
    {
        proof {
            if parameter_spec(segment@) is Some {
                lemma_parameter_spec_sound(segment@);
            }
        }
        if !is_free_of_framing(segment) {
            return Err(VcardError::ParameterError(String::from_str(segment)));
        }
        match split_once(segment, '=') {
            Some((key, value)) => {
                if key.is_empty() {
                    Err(VcardError::ParameterError(String::from_str(segment)))
                } else {
                    Ok(Parameter { key: String::from_str(key), value: String::from_str(value) })
                }
            },
            None => Err(VcardError::ParameterError(String::from_str(segment))),
        }
    }

    /// Reads the parameter list of a property of type `property_type` from the
    /// parameter text of its line, if the line has one. The parameters come in the
    /// order in which they are written, equal ones as often as they are written.
    /// The first piece of the text that is no parameter is reported, and no list
    /// is made.
    #[allow(unused_variables)]
    pub fn build_parameters(property_type: &PropertyType, text: Option<&str>) -> (built: Result<
        Vec<Parameter>,
        VcardError,
    >)
        ensures
            match built {
                Ok(parameters) => parameters_spec(*property_type, option_view(text)) == Ok::<
                    Seq<ParameterView>,
                    VcardErrorView,
                >(parameter_views(parameters@)),
                Err(e) => parameters_spec(*property_type, option_view(text)) == Err::<
                    Seq<ParameterView>,
                    VcardErrorView,
                >(e@),
            },
    {
        let mut parameters: Vec<Parameter> = Vec::new();
        proof {
            assert(parameter_views(parameters@) =~= Seq::empty());
        }
        match text {
            Some(written) => {
                let segments = split(written, ';');
                let mut i: usize = 0;
                proof {
                    assert(views_of(segments@).take(0) =~= Seq::empty());
                }
                while i < segments.len()
                    invariant
                        i <= segments.len(),
                        text == Some(written),
                        views_of(segments@) == split_all(written@, ';'),
                        parameters_of(views_of(segments@).take(i as int)) == Ok::<
                            Seq<ParameterView>,
                            VcardErrorView,
                        >(parameter_views(parameters@)),
                    decreases segments.len() - i,
                {
                    let ghost before = parameters@;
                    let ghost prefix = views_of(segments@).take(i + 1);
                    proof {
                        assert(prefix.drop_last() =~= views_of(segments@).take(i as int));
                        assert(prefix.last() == segments@[i as int]@);
                    }
                    match Parameter::parse(segments[i]) {
                        Ok(parameter) => {
                            parameters.push(parameter);
                            proof {
                                assert(parameter_views(parameters@) =~= parameter_views(
                                    before,
                                ).push(parameter@));
                            }
                        },
                        Err(e) => {
                            proof {
                                lemma_parameters_of_prefix_error(views_of(segments@), i + 1);
                            }
                            return Err(e);
                        },
                    }
                    i = i + 1;
                }
                proof {
                    assert(views_of(segments@).take(i as int) =~= views_of(segments@));
                }
                Ok(parameters)
            },
            None => Ok(parameters),
        }
    }

    /// The key of this parameter.
    pub fn get_key(&self) -> (key: &str)
        ensures
            key@ == self@.key,
    {
        self.key.as_str()
    }

    /// The value of this parameter.
    pub fn get_value(&self) -> (value: &str)
        ensures
            value@ == self@.value,
    {
        self.value.as_str()
    }

    /// Writes the parameter as it stands in a property line: key, `=`, value.
    /// Reading that text gives the parameter back.
    pub fn to_string(&self) -> (text: String)
        ensures
            text@ == self@.text(),
            parameter_spec(text@) == Some(self@),
    {
        let mut text = String::from_str(self.key.as_str());
        proof {
            use_type_invariant(self);
            lemma_parameter_spec_complete(self@);
            reveal_strlit("=");
            assert("="@ =~= seq!['=']);
        }
        text.append("=");
        text.append(self.value.as_str());
        text
    }
}

/// An error among the first `n` segments is the error of the whole list.
pub proof fn lemma_parameters_of_prefix_error(segments: Seq<Seq<char>>, n: int)
    requires
        0 <= n <= segments.len(),
        parameters_of(segments.take(n)) is Err,
    ensures
        parameters_of(segments) == parameters_of(segments.take(n)),
    decreases segments.len(),
{
    if n == segments.len() {
        assert(segments.take(n) =~= segments);
    } else {
        assert(segments.drop_last().take(n) =~= segments.take(n));
        lemma_parameters_of_prefix_error(segments.drop_last(), n);
    }
}

/// A segment that spells a parameter spells a well-formed one, whose text is the
/// segment itself.
pub proof fn lemma_parameter_spec_sound(segment: Seq<char>)
    requires
        parameter_spec(segment) is Some,
    ensures
        parameter_spec(segment)->Some_0.wf(),
        parameter_spec(segment)->Some_0.text() == segment,
{
    lemma_first_index(segment, '=');
    let p = parameter_spec(segment)->Some_0;
    let i = first_index(segment, '=') as int;
    assert(p.text() =~= segment);
    assert forall|j: int| 0 <= j < p.key.len() implies !is_framing(
        #[trigger] p.key[j],
    ) by {
        assert(p.key[j] == segment[j]);
    }
    assert forall|j: int| 0 <= j < p.value.len() implies !is_framing(
        #[trigger] p.value[j],
    ) by {
        assert(p.value[j] == segment[i + 1 + j]);
    }
    if p.key.contains('=') {
        let k = choose|k: int| 0 <= k < p.key.len() && p.key[k] == '=';
        assert(segment[k] == '=');
    }
}

/// The text of a well-formed parameter spells that parameter.
pub proof fn lemma_parameter_spec_complete(p: ParameterView)
    requires
        p.wf(),
    ensures
        parameter_spec(p.text()) == Some(p),
{
    let segment = p.text();
    let n = p.key.len() as int;
    assert forall|j: int| 0 <= j < n implies segment[j] != '=' by {
        assert(segment[j] == p.key[j]);
        assert(p.key.contains(p.key[j]));
    }
    assert(segment[n] == '=');
    lemma_first_index_is(segment, '=', n);
    assert(segment.take(n) =~= p.key);
    assert(segment.skip(n + 1) =~= p.value);
    assert forall|j: int| 0 <= j < segment.len() implies !is_framing(
        #[trigger] segment[j],
    ) by {
        if j < n {
            assert(segment[j] == p.key[j]);
        } else if j > n {
            assert(segment[j] == p.value[j - n - 1]);
        }
    }
}

/// Segments that spell a parameter list spell one well-formed parameter each,
/// and the texts of those parameters are the segments.
pub proof fn lemma_parameters_of_sound(segments: Seq<Seq<char>>)
    requires
        parameters_of(segments) is Ok,
    ensures
        parameters_of(segments)->Ok_0.len() == segments.len(),
        forall|i: int|
            0 <= i < segments.len() ==> (#[trigger] parameters_of(segments)->Ok_0[i]).wf(),
        forall|i: int|
            0 <= i < segments.len() ==> (#[trigger] parameters_of(segments)->Ok_0[i]).text()
                == segments[i],
    decreases segments.len(),
{
    if segments.len() > 0 {
        lemma_parameters_of_sound(segments.drop_last());
        lemma_parameter_spec_sound(segments.last());
    }
}

/// The texts of well-formed parameters spell those parameters.
pub proof fn lemma_parameters_of_complete(parameters: Seq<ParameterView>)
    requires
        forall|i: int| 0 <= i < parameters.len() ==> (#[trigger] parameters[i]).wf(),
    ensures
        parameters_of(parameters.map_values(|p: ParameterView| p.text())) == Ok::<
            Seq<ParameterView>,
            VcardErrorView,
        >(parameters),
    decreases parameters.len(),
{
    let texts = parameters.map_values(|p: ParameterView| p.text());
    if parameters.len() > 0 {
        let front = parameters.drop_last();
        assert forall|i: int| 0 <= i < front.len() implies (#[trigger] front[i]).wf() by {
            assert(front[i] == parameters[i]);
        }
        lemma_parameters_of_complete(front);
        assert(texts.drop_last() =~= front.map_values(|p: ParameterView| p.text()));
        lemma_parameter_spec_complete(parameters.last());
        assert(front.push(parameters.last()) =~= parameters);
    } else {
        assert(parameters =~= Seq::empty());
    }
}

/// The text of a well-formed parameter holds no character that frames a line.
pub proof fn lemma_parameter_text_is_plain(p: ParameterView)
    requires
        p.wf(),
    ensures
        !p.text().contains(':'),
        !p.text().contains(';'),
        !p.text().contains('\r'),
        !p.text().contains('\n'),
{
    let text = p.text();
    let n = p.key.len() as int;
    assert forall|j: int| 0 <= j < text.len() implies text[j] != ':' && text[j] != ';' && text[j]
        != '\r' && text[j] != '\n' by {
        if j < n {
            assert(text[j] == p.key[j]);
        } else if j > n {
            assert(text[j] == p.value[j - n - 1]);
        }
    }
}

/// A parameter list is refused for one of its segments only.
pub proof fn lemma_parameters_error_kind(segments: Seq<Seq<char>>)
    ensures
        parameters_of(segments) matches Err(e) ==> e is ParameterError,
    decreases segments.len(),
{
    if segments.len() > 0 {
        lemma_parameters_error_kind(segments.drop_last());
    }
}

} // verus!

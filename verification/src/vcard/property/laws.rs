//! What holds of reading and writing property lines.

use vstd::prelude::*;

use crate::error::VcardErrorView;
use crate::text::{
    first_index, has_no_line_break, is_line_break, lemma_first_index, lemma_first_index_is,
    lemma_join_lacks, lemma_join_split, lemma_split_all_pieces, lemma_split_join,
    lemma_strip_has_no_line_break, lemma_strip_identity, not_line_break, split_all,
    strip_line_breaks, upper,
};
use crate::vcard::parameter::{
    lemma_parameter_text_is_plain, lemma_parameters_error_kind, lemma_parameters_of_complete,
    lemma_parameters_of_sound,
};
use crate::vcard::property::types::{
    lemma_keyword_shape, lemma_keyword_text_is_plain, lemma_resolve_ignores_case,
    lemma_resolve_keyword, PropertyType,
};
use crate::vcard::property::{
    content_of_parts, line_parts, line_with_type, parameter_texts, parse_spec, LineParts,
    PropertyContent, PropertyView,
};
use crate::vcard::values::{lemma_default_value, ValueView};

verus! {

/// Cutting a line into its parts loses nothing: the parts make up the line again.
/// The keyword holds neither `:` nor `;`, and the parameter text holds no `:`, so
/// only the first `:` of the line and the first `;` before it are boundaries.
pub proof fn lemma_line_parts_sound(line: Seq<char>)
    requires
        line_parts(line) is Some,
    ensures
        line_parts(line)->Some_0.line() == line,
        !line_parts(line)->Some_0.keyword.contains(':'),
        !line_parts(line)->Some_0.keyword.contains(';'),
        line_parts(line)->Some_0.parameter_text matches Some(text) ==> !text.contains(':'),
{
    let parts = line_parts(line)->Some_0;
    lemma_first_index(line, ':');
    let i = first_index(line, ':') as int;
    let head = line.take(i);
    lemma_first_index(head, ';');
    let j = first_index(head, ';') as int;
    assert(head + seq![':'] + parts.value_text =~= line);
    if head.contains(':') {
        let k = choose|k: int| 0 <= k < head.len() && head[k] == ':';
        assert(line[k] == ':');
    }
    if parts.keyword.contains(':') {
        let k = choose|k: int| 0 <= k < parts.keyword.len() && parts.keyword[k] == ':';
        assert(head[k] == ':');
    }
    match parts.parameter_text {
        Some(text) => {
            assert(parts.keyword + seq![';'] + text =~= head);
            assert(parts.line() =~= line);
            if parts.keyword.contains(';') {
                let k = choose|k: int| 0 <= k < parts.keyword.len() && parts.keyword[k] == ';';
                assert(head[k] == ';');
            }
            if text.contains(':') {
                let k = choose|k: int| 0 <= k < text.len() && text[k] == ':';
                assert(head[j + 1 + k] == ':');
            }
        },
        None => {
            assert(parts.line() =~= line);
        },
    }
}

/// A line put together from a keyword without `:` and `;`, a parameter text
/// without `:` and any value text is cut into exactly these parts, whatever the
/// value text holds: a `:` or a `;` in the value never moves a boundary.
pub proof fn lemma_line_parts_complete(parts: LineParts)
    requires
        !parts.keyword.contains(':'),
        !parts.keyword.contains(';'),
        parts.parameter_text matches Some(text) ==> !text.contains(':'),
    ensures
        line_parts(parts.line()) == Some(parts),
{
    let line = parts.line();
    let k = parts.keyword.len() as int;
    let head = match parts.parameter_text {
        Some(text) => parts.keyword + seq![';'] + text,
        None => parts.keyword,
    };
    let i = head.len() as int;
    assert(line =~= head + seq![':'] + parts.value_text);
    assert forall|j: int| 0 <= j < i implies line[j] != ':' by {
        if j < k {
            assert(parts.keyword.contains(parts.keyword[j]));
        } else if j > k {
            let text = parts.parameter_text->Some_0;
            assert(text.contains(text[j - k - 1]));
        }
    }
    lemma_first_index_is(line, ':', i);
    assert(line.take(i) =~= head);
    assert(line.skip(i + 1) =~= parts.value_text);
    assert forall|j: int| 0 <= j < k implies head[j] != ';' by {
        assert(parts.keyword.contains(parts.keyword[j]));
    }
    lemma_first_index_is(head, ';', k);
    match parts.parameter_text {
        Some(text) => {
            assert(head.take(k) =~= parts.keyword);
            assert(head.skip(k + 1) =~= text);
        },
        None => {},
    }
}

/// Whatever a line spells is well formed.
pub proof fn lemma_parse_wf(line: Seq<char>)
    requires
        parse_spec(line) is Ok,
    ensures
        parse_spec(line)->Ok_0.wf(),
{
    let parts = line_parts(strip_line_breaks(line))->Some_0;
    match parts.parameter_text {
        Some(text) => {
            lemma_parameters_of_sound(split_all(text, ';'));
        },
        None => {},
    }
}

/// Writing what was read gives the line back, with its line breaks taken out and
/// its keyword in canonical form: the parameter text and the value text are
/// reproduced character for character, and the keyword as the upper-case form of
/// what was written.
pub proof fn lemma_serialize_parsed(line: Seq<char>)
    requires
        parse_spec(line) is Ok,
    ensures
        ({
            let content = parse_spec(line)->Ok_0;
            let parts = line_parts(strip_line_breaks(line))->Some_0;
            &&& parts.line() == strip_line_breaks(line)
            &&& content.property_type.keyword_spec() == upper(parts.keyword)
            &&& parts.parameter_text matches Some(text) ==> content.parameters_text() == text
            &&& content.value.text == parts.value_text
            &&& content.parts() == LineParts {
                keyword: upper(parts.keyword),
                parameter_text: parts.parameter_text,
                value_text: parts.value_text,
            }
        }),
{
    let content = parse_spec(line)->Ok_0;
    let parts = line_parts(strip_line_breaks(line))->Some_0;
    lemma_line_parts_sound(strip_line_breaks(line));
    match parts.parameter_text {
        Some(text) => {
            let segments = split_all(text, ';');
            lemma_parameters_of_sound(segments);
            lemma_split_all_pieces(text, ';');
            lemma_join_split(text, ';');
            assert(parameter_texts(content.parameters) =~= segments);
        },
        None => {},
    }
}

/// The parts of the canonical line of a well-formed content hold no line break,
/// and a `:` or a `;` only where the value text may hold one.
pub proof fn lemma_canonical_parts_are_plain(content: PropertyContent)
    requires
        content.wf(),
    ensures
        !content.parts().keyword.contains(':'),
        !content.parts().keyword.contains(';'),
        has_no_line_break(content.parts().keyword),
        content.parts().parameter_text matches Some(text) ==> !text.contains(':')
            && has_no_line_break(text),
        has_no_line_break(content.parts().value_text),
{
    let keyword = content.property_type.keyword_spec();
    let texts = parameter_texts(content.parameters);
    let joined = content.parameters_text();
    lemma_keyword_shape(content.property_type);
    lemma_keyword_text_is_plain(keyword);
    assert forall|i: int| 0 <= i < keyword.len() implies !is_line_break(#[trigger] keyword[i]) by {
        assert(keyword.contains(keyword[i]));
    }
    assert forall|k: int| 0 <= k < texts.len() implies !(#[trigger] texts[k]).contains(':')
        && !texts[k].contains('\r') && !texts[k].contains('\n') by {
        lemma_parameter_text_is_plain(content.parameters[k]);
    }
    lemma_join_lacks(texts, ';', ':');
    lemma_join_lacks(texts, ';', '\r');
    lemma_join_lacks(texts, ';', '\n');
    assert forall|i: int| 0 <= i < joined.len() implies !is_line_break(#[trigger] joined[i]) by {
        assert(joined.contains(joined[i]));
    }
}

/// A line whose parts hold no line break holds none.
pub proof fn lemma_line_has_no_line_break(parts: LineParts)
    requires
        has_no_line_break(parts.keyword),
        parts.parameter_text matches Some(text) ==> has_no_line_break(text),
        has_no_line_break(parts.value_text),
    ensures
        has_no_line_break(parts.line()),
{
    let line = parts.line();
    let k = parts.keyword.len() as int;
    assert forall|i: int| 0 <= i < line.len() implies !is_line_break(#[trigger] line[i]) by {
        if i < k {
            assert(line[i] == parts.keyword[i]);
        } else {
            match parts.parameter_text {
                Some(text) => {
                    let j = text.len() as int;
                    if k < i && i < k + 1 + j {
                        assert(line[i] == text[i - k - 1]);
                    } else if i > k + 1 + j {
                        assert(line[i] == parts.value_text[i - k - j - 2]);
                    }
                },
                None => {
                    if i > k {
                        assert(line[i] == parts.value_text[i - k - 1]);
                    }
                },
            }
        }
    }
}

/// The parts of the canonical line of a well-formed content spell that content.
pub proof fn lemma_canonical_parts_spell_content(content: PropertyContent)
    requires
        content.wf(),
    ensures
        content_of_parts(content.parts()) == Ok::<PropertyContent, VcardErrorView>(content),
{
    let keyword = content.property_type.keyword_spec();
    let texts = parameter_texts(content.parameters);
    lemma_keyword_shape(content.property_type);
    lemma_keyword_text_is_plain(keyword);
    lemma_resolve_keyword(content.property_type, keyword);
    if content.parameters.len() > 0 {
        assert forall|k: int| 0 <= k < texts.len() implies !(#[trigger] texts[k]).contains(';') by {
            lemma_parameter_text_is_plain(content.parameters[k]);
        }
        lemma_split_join(texts, ';');
        lemma_parameters_of_complete(content.parameters);
    } else {
        assert(content.parameters =~= Seq::empty());
    }
}

/// Reading what was written gives the content back: the canonical line of a
/// well-formed content spells exactly that content.
pub proof fn lemma_parse_serialized(content: PropertyContent)
    requires
        content.wf(),
    ensures
        parse_spec(content.line()) == Ok::<PropertyContent, VcardErrorView>(content),
{
    lemma_canonical_parts_are_plain(content);
    lemma_line_has_no_line_break(content.parts());
    lemma_strip_identity(content.line());
    lemma_line_parts_complete(content.parts());
    lemma_canonical_parts_spell_content(content);
}

/// A new property of any type can be written and read back: its canonical line
/// spells exactly what it holds.
pub proof fn lemma_default_round_trip(t: PropertyType)
    ensures
        PropertyContent::default_of(t).wf(),
        parse_spec(PropertyContent::default_of(t).line()) == Ok::<PropertyContent, VcardErrorView>(
            PropertyContent::default_of(t),
        ),
{
    lemma_default_value(t, Seq::empty());
    lemma_parse_serialized(PropertyContent::default_of(t));
}

/// A value text given together with its type is always read: the property has
/// that type, no parameters, and the text without its line breaks as its value.
pub proof fn lemma_parse_with_type(t: PropertyType, value_text: Seq<char>)
    ensures
        parse_spec(line_with_type(t, value_text)) == Ok::<PropertyContent, VcardErrorView>(
            PropertyContent {
                property_type: t,
                parameters: Seq::empty(),
                value: ValueView { value_type: t, text: strip_line_breaks(value_text) },
            },
        ),
{
    let keyword = t.keyword_spec();
    let line = line_with_type(t, value_text);
    lemma_keyword_shape(t);
    lemma_keyword_text_is_plain(keyword);
    lemma_resolve_keyword(t, keyword);
    let head = keyword + seq![':'];
    assert(line =~= head + value_text);
    Seq::filter_distributes_over_add(head, value_text, not_line_break());
    assert forall|i: int| 0 <= i < head.len() implies !is_line_break(#[trigger] head[i]) by {
        if i < keyword.len() {
            assert(keyword.contains(keyword[i]));
        }
    }
    lemma_strip_identity(head);
    lemma_strip_has_no_line_break(value_text);
    let parts = LineParts {
        keyword,
        parameter_text: None,
        value_text: strip_line_breaks(value_text),
    };
    assert(parts.line() =~= strip_line_breaks(line));
    lemma_line_parts_complete(parts);
}

/// The case in which the letters of a keyword are written does not matter: two
/// lines whose parts differ in that alone spell the same content.
pub proof fn lemma_keyword_case_is_ignored(a: LineParts, b: LineParts)
    requires
        upper(a.keyword) == upper(b.keyword),
        a.parameter_text == b.parameter_text,
        a.value_text == b.value_text,
        content_of_parts(a) is Ok,
    ensures
        content_of_parts(b) == content_of_parts(a),
{
    lemma_resolve_ignores_case(a.keyword, b.keyword);
}

/// The value text of a line is never a reason to refuse the line: a line is
/// refused only for want of a `:`, for its keyword or for a parameter.
pub proof fn lemma_value_text_is_accepted(line: Seq<char>)
    ensures
        !(parse_spec(line) matches Err(VcardErrorView::ValueError(_))),
{
    let stripped = strip_line_breaks(line);
    lemma_strip_has_no_line_break(line);
    if line_parts(stripped) is Some {
        let parts = line_parts(stripped)->Some_0;
        lemma_line_parts_sound(stripped);
        assert forall|i: int| 0 <= i < parts.value_text.len() implies !is_line_break(
            #[trigger] parts.value_text[i],
        ) by {
            let offset = stripped.len() - parts.value_text.len();
            assert(parts.line() == stripped);
            assert(stripped[offset + i] == parts.value_text[i]);
        }
        match parts.parameter_text {
            Some(text) => {
                lemma_parameters_error_kind(split_all(text, ';'));
            },
            None => {},
        }
    }
}

/// Reading is a function of the line: two properties read from one line hold
/// the same content, and are equal in everything where they were given the same
/// identity.
pub proof fn lemma_reading_is_deterministic(line: Seq<char>, a: PropertyView, b: PropertyView)
    requires
        parse_spec(line) == Ok::<PropertyContent, VcardErrorView>(a.content),
        parse_spec(line) == Ok::<PropertyContent, VcardErrorView>(b.content),
    ensures
        a.content == b.content,
        a.identity == b.identity ==> a == b,
{
}

} // verus!

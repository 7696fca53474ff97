use vcard_parser::vcard::parameter::Parameter;
use vcard_parser::vcard::property::types::PropertyType;
use vcard_parser::VcardError;

fn texts(parameters: &[Parameter]) -> Vec<String> {
    parameters.iter().map(|p| p.to_string()).collect()
}

#[test]
fn parameter_is_key_and_value() {
    let parameter = Parameter::parse("TYPE=HOME").unwrap();
    assert_eq!(parameter.get_key(), "TYPE");
    assert_eq!(parameter.get_value(), "HOME");
    assert_eq!(parameter.to_string(), "TYPE=HOME");
}

#[test]
fn first_equals_sign_ends_the_key() {
    let parameter = Parameter::parse("A=b=c").unwrap();
    assert_eq!(parameter.get_key(), "A");
    assert_eq!(parameter.get_value(), "b=c");
    assert_eq!(parameter.to_string(), "A=b=c");
    let empty = Parameter::parse("PREF=").unwrap();
    assert_eq!(empty.get_key(), "PREF");
    assert_eq!(empty.get_value(), "");
    assert_eq!(empty.to_string(), "PREF=");
}

#[test]
fn parameter_text_is_kept_as_written() {
    for segment in ["type=Home", "X-ABLabel=_$!<Other>!$_", "SORT-AS=\"Doe,Jane\"", " a = b "] {
        assert_eq!(Parameter::parse(segment).unwrap().to_string(), segment);
    }
}

#[test]
fn segment_that_is_no_parameter_is_refused() {
    for segment in ["", "TYPE", "=HOME", "=", "A=b:c", "A:=b", "A=b;c", "A=b\r", "\nA=b"] {
        assert_eq!(
            Parameter::parse(segment).err(),
            Some(VcardError::ParameterError(String::from(segment)))
        );
    }
}

#[test]
fn no_parameter_text_gives_no_parameters() {
    assert_eq!(Parameter::build_parameters(&PropertyType::Fn, None), Ok(vec![]));
}

#[test]
fn parameter_text_is_cut_at_every_semicolon() {
    let built = Parameter::build_parameters(&PropertyType::Adr, Some("TYPE=HOME;TYPE=pref")).unwrap();
    assert_eq!(texts(&built), vec!["TYPE=HOME", "TYPE=pref"]);
    let one = Parameter::build_parameters(&PropertyType::Tel, Some("VALUE=uri")).unwrap();
    assert_eq!(texts(&one), vec!["VALUE=uri"]);
}

#[test]
fn same_parameters_are_read_for_every_type() {
    let for_adr = Parameter::build_parameters(&PropertyType::Adr, Some("A=1;B=2")).unwrap();
    let for_xml = Parameter::build_parameters(&PropertyType::Xml, Some("A=1;B=2")).unwrap();
    assert_eq!(for_adr, for_xml);
}

#[test]
fn first_bad_segment_is_reported() {
    assert_eq!(
        Parameter::build_parameters(&PropertyType::Fn, Some("")),
        Err(VcardError::ParameterError(String::new()))
    );
    assert_eq!(
        Parameter::build_parameters(&PropertyType::Fn, Some("A=1;two;three")),
        Err(VcardError::ParameterError(String::from("two")))
    );
    assert_eq!(
        Parameter::build_parameters(&PropertyType::Fn, Some("A=1;")),
        Err(VcardError::ParameterError(String::new()))
    );
    assert_eq!(
        Parameter::build_parameters(&PropertyType::Fn, Some("A=1;B=x:y")),
        Err(VcardError::ParameterError(String::from("B=x:y")))
    );
}

#[test]
fn parameter_clone_is_equal() {
    let parameter = Parameter::parse("TYPE=HOME").unwrap();
    assert_eq!(parameter.clone(), parameter);
}

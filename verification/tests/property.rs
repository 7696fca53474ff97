use uuid::Uuid;
use vcard_parser::vcard::parameter::Parameter;
use vcard_parser::vcard::property::types::PropertyType;
use vcard_parser::vcard::property::Property;
use vcard_parser::VcardError;

const ALL_TYPES: [PropertyType; 44] = [
    PropertyType::Adr,
    PropertyType::Anniversary,
    PropertyType::BDay,
    PropertyType::BirthPlace,
    PropertyType::CalAdrUri,
    PropertyType::CalUri,
    PropertyType::Categories,
    PropertyType::ClientPidMap,
    PropertyType::ContactUri,
    PropertyType::DeathDate,
    PropertyType::DeathPlace,
    PropertyType::Email,
    PropertyType::Expertise,
    PropertyType::FbUrl,
    PropertyType::Fn,
    PropertyType::Gender,
    PropertyType::Geo,
    PropertyType::Hobby,
    PropertyType::Impp,
    PropertyType::Interest,
    PropertyType::Key,
    PropertyType::Kind,
    PropertyType::Lang,
    PropertyType::Logo,
    PropertyType::Member,
    PropertyType::NickName,
    PropertyType::Note,
    PropertyType::N,
    PropertyType::OrgDirectory,
    PropertyType::Org,
    PropertyType::Photo,
    PropertyType::ProdId,
    PropertyType::Related,
    PropertyType::Rev,
    PropertyType::Role,
    PropertyType::Sound,
    PropertyType::Source,
    PropertyType::Tel,
    PropertyType::Title,
    PropertyType::Tz,
    PropertyType::Uid,
    PropertyType::Url,
    PropertyType::Version,
    PropertyType::Xml,
];

fn parameter_strings(property: &Property) -> Vec<String> {
    property.get_parameters().iter().map(|p| p.to_string()).collect()
}

fn assert_same_content(a: &Property, b: &Property) {
    assert_eq!(a.get_type(), b.get_type());
    assert_eq!(a.get_value(), b.get_value());
    assert_eq!(a.get_parameters(), b.get_parameters());
}

#[test]
pub fn property_formatting() {
    let text = "ADR;TYPE=HOME;TYPE=pref:;;1600 Pennsylvania Avenue NW;Washington;DC;20500;United States";
    assert_eq!(Property::parse(text, None).unwrap().to_string(), text);

    assert!(matches!(Property::parse_with_explicit_type(&PropertyType::Adr, ";;;;;;", None), Ok(_)));
    assert!(matches!(Property::parse_with_explicit_type(&PropertyType::Anniversary, "", None), Ok(_)));
    assert!(matches!(Property::parse_with_explicit_type(&PropertyType::BDay, "", None), Ok(_)));
    assert!(matches!(Property::parse_with_explicit_type(&PropertyType::BirthPlace, "", None), Ok(_)));
    assert!(matches!(Property::parse_with_explicit_type(&PropertyType::CalAdrUri, "some:url", None), Ok(_)));
    assert!(matches!(Property::parse_with_explicit_type(&PropertyType::CalUri, "some:url", None), Ok(_)));
    assert!(matches!(Property::parse_with_explicit_type(&PropertyType::Categories, "", None), Ok(_)));
    assert!(matches!(Property::parse_with_explicit_type(&PropertyType::ClientPidMap, "1;some:url", None), Ok(_)));
    assert!(matches!(Property::parse_with_explicit_type(&PropertyType::ContactUri, "some:url", None), Ok(_)));
    assert!(matches!(Property::parse_with_explicit_type(&PropertyType::DeathDate, "", None), Ok(_)));
    assert!(matches!(Property::parse_with_explicit_type(&PropertyType::DeathPlace, "", None), Ok(_)));
    assert!(matches!(Property::parse_with_explicit_type(&PropertyType::Email, "some:url", None), Ok(_)));
    assert!(matches!(Property::parse_with_explicit_type(&PropertyType::Expertise, "", None), Ok(_)));
    assert!(matches!(Property::parse_with_explicit_type(&PropertyType::FbUrl, "some:url", None), Ok(_)));
    assert!(matches!(Property::parse_with_explicit_type(&PropertyType::Fn, "", None), Ok(_)));
    assert!(matches!(Property::parse_with_explicit_type(&PropertyType::Gender, "M;M", None), Ok(_)));
    assert!(matches!(Property::parse_with_explicit_type(&PropertyType::Geo, "some:url", None), Ok(_)));
    assert!(matches!(Property::parse_with_explicit_type(&PropertyType::Hobby, "", None), Ok(_)));
    assert!(matches!(Property::parse_with_explicit_type(&PropertyType::Impp, "some:url", None), Ok(_)));
    assert!(matches!(Property::parse_with_explicit_type(&PropertyType::Interest, "", None), Ok(_)));
    assert!(matches!(Property::parse_with_explicit_type(&PropertyType::Key, "", None), Ok(_)));
    assert!(matches!(Property::parse_with_explicit_type(&PropertyType::Kind, "individual", None), Ok(_)));
    assert!(matches!(Property::parse_with_explicit_type(&PropertyType::Lang, "en", None), Ok(_)));
    assert!(matches!(Property::parse_with_explicit_type(&PropertyType::Logo, "some:url", None), Ok(_)));
    assert!(matches!(Property::parse_with_explicit_type(&PropertyType::Member, "some:url", None), Ok(_)));
    assert!(matches!(Property::parse_with_explicit_type(&PropertyType::NickName, "", None), Ok(_)));
    assert!(matches!(Property::parse_with_explicit_type(&PropertyType::Note, "", None), Ok(_)));
    assert!(matches!(Property::parse_with_explicit_type(&PropertyType::N, ";;;;", None), Ok(_)));
    assert!(matches!(Property::parse_with_explicit_type(&PropertyType::OrgDirectory, "some:url", None), Ok(_)));
    assert!(matches!(Property::parse_with_explicit_type(&PropertyType::Org, "", None), Ok(_)));
    assert!(matches!(Property::parse_with_explicit_type(&PropertyType::Photo, "some:url", None), Ok(_)));
    assert!(matches!(Property::parse_with_explicit_type(&PropertyType::ProdId, "", None), Ok(_)));
    assert!(matches!(Property::parse_with_explicit_type(&PropertyType::Related, "", None), Ok(_)));
    assert!(matches!(Property::parse_with_explicit_type(&PropertyType::Rev, "19961022T140000", None), Ok(_)));
    assert!(matches!(Property::parse_with_explicit_type(&PropertyType::Role, "", None), Ok(_)));
    assert!(matches!(Property::parse_with_explicit_type(&PropertyType::Sound, "some:url", None), Ok(_)));
    assert!(matches!(Property::parse_with_explicit_type(&PropertyType::Source, "some:url", None), Ok(_)));
    assert!(matches!(Property::parse_with_explicit_type(&PropertyType::Tel, "some:url", None), Ok(_)));
    assert!(matches!(Property::parse_with_explicit_type(&PropertyType::Title, "", None), Ok(_)));
    assert!(matches!(Property::parse_with_explicit_type(&PropertyType::Tz, "", None), Ok(_)));
    assert!(matches!(Property::parse_with_explicit_type(&PropertyType::Uid, "", None), Ok(_)));
    assert!(matches!(Property::parse_with_explicit_type(&PropertyType::Url, "some:url", None), Ok(_)));
    assert!(matches!(Property::parse_with_explicit_type(&PropertyType::Version, "4.0", None), Ok(_)));
    assert!(matches!(Property::parse_with_explicit_type(&PropertyType::Xml, "", None), Ok(_)));
}

#[test]
fn default_property_of_every_type_is_read_back() {
    for property_type in ALL_TYPES {
        let made = Property::from_type(property_type);
        let read = Property::parse(&made.to_string(), None).unwrap();
        assert_same_content(&made, &read);
        assert_eq!(made.get_type(), &property_type);
        assert_eq!(made.get_value().get_type(), &property_type);
        assert!(made.get_parameters().is_empty());
    }
}

#[test]
fn default_values() {
    assert_eq!(Property::from_type(PropertyType::Version).get_value().to_string(), "4.0");
    assert_eq!(Property::from_type(PropertyType::Fn).get_value().to_string(), "");
    assert_eq!(Property::from_type(PropertyType::Fn).to_string(), "FN:");
    assert_eq!(Property::from_type(PropertyType::ContactUri).to_string(), "CONTACT-URI:");
}

#[test]
fn version_line_is_fixed() {
    assert_eq!(Property::from_type(PropertyType::Version).to_string(), "VERSION:4.0");
}

#[test]
fn written_line_is_the_line_that_was_read() {
    let lines = [
        "FN:Jane Doe",
        "TEL;TYPE=work;VALUE=uri:tel:+1-555-555-5555",
        "N:Doe;Jane;;Dr.;",
        "NOTE:",
        "EMAIL;PREF=1:jane@example.com",
        "ORG-DIRECTORY;INDEX=1:ldap://ldap.example.com/o=Example%20Tech,ou=Engineering",
        "NOTE;LANGUAGE=de:Grüße aus Köln",
        "KEY;TYPE=:",
    ];
    for line in lines {
        let property = Property::parse(line, None).unwrap();
        assert_eq!(property.to_string(), line);
    }
}

#[test]
fn written_line_has_canonical_keyword_and_no_line_breaks() {
    let property = Property::parse("tel;type=Work:\r\n+1 555\r\n 0100\n", None).unwrap();
    assert_eq!(property.to_string(), "TEL;type=Work:+1 555 0100");
    assert_eq!(property.parameters_to_string(), "type=Work");
    assert_eq!(property.get_value().to_string(), "+1 555 0100");
}

#[test]
fn keyword_case_is_ignored() {
    let lower = Property::parse("fn:Jane", None).unwrap();
    let upper = Property::parse("FN:Jane", None).unwrap();
    let mixed = Property::parse("Fn:Jane", None).unwrap();
    assert_same_content(&lower, &upper);
    assert_same_content(&mixed, &upper);
    assert_eq!(lower.to_string(), "FN:Jane");
    assert_eq!(upper.to_string(), "FN:Jane");
    assert_eq!(mixed.to_string(), "FN:Jane");
    assert_eq!(lower.get_type(), &PropertyType::Fn);
}

#[test]
fn line_without_colon_is_malformed() {
    assert_eq!(
        Property::parse("FN", None).err(),
        Some(VcardError::MalformedProperty(String::from("FN")))
    );
    assert_eq!(
        Property::parse("", None).err(),
        Some(VcardError::MalformedProperty(String::new()))
    );
    assert_eq!(
        Property::parse("FN;TYPE=x", None).err(),
        Some(VcardError::MalformedProperty(String::from("FN;TYPE=x")))
    );
}

#[test]
fn malformed_error_carries_the_line_as_given() {
    assert_eq!(
        Property::parse("FN Jane\r\n", None).err(),
        Some(VcardError::MalformedProperty(String::from("FN Jane\r\n")))
    );
}

#[test]
fn unknown_keyword_is_refused() {
    assert_eq!(
        Property::parse("XYZ:value", None).err(),
        Some(VcardError::UnknownPropertyType(String::from("XYZ")))
    );
    assert_eq!(
        Property::parse("xyz;TYPE=a:value", None).err(),
        Some(VcardError::UnknownPropertyType(String::from("xyz")))
    );
    assert_eq!(
        Property::parse(":value", None).err(),
        Some(VcardError::UnknownPropertyType(String::new()))
    );
    assert_eq!(
        Property::parse(" FN:value", None).err(),
        Some(VcardError::UnknownPropertyType(String::from(" FN")))
    );
}

#[test]
fn unknown_keyword_is_reported_before_a_bad_parameter() {
    assert_eq!(
        Property::parse("XYZ;bad:value", None).err(),
        Some(VcardError::UnknownPropertyType(String::from("XYZ")))
    );
}

#[test]
fn bad_parameter_is_refused() {
    assert_eq!(
        Property::parse("FN;TYPE:Jane", None).err(),
        Some(VcardError::ParameterError(String::from("TYPE")))
    );
    assert_eq!(
        Property::parse("FN;:Jane", None).err(),
        Some(VcardError::ParameterError(String::new()))
    );
    assert_eq!(
        Property::parse("FN;=x:Jane", None).err(),
        Some(VcardError::ParameterError(String::from("=x")))
    );
    assert_eq!(
        Property::parse("FN;A=1;;B=2:Jane", None).err(),
        Some(VcardError::ParameterError(String::new()))
    );
    assert_eq!(
        Property::parse("FN;A=1;bad;worse:Jane", None).err(),
        Some(VcardError::ParameterError(String::from("bad")))
    );
}

#[test]
fn only_the_first_colon_is_a_boundary() {
    let property = Property::parse("URL:http://a.com:8080/x", None).unwrap();
    assert_eq!(property.get_type(), &PropertyType::Url);
    assert_eq!(property.get_value().to_string(), "http://a.com:8080/x");
    assert!(property.get_parameters().is_empty());
    assert_eq!(property.to_string(), "URL:http://a.com:8080/x");
}

#[test]
fn semicolons_in_the_value_are_no_parameters() {
    let text = "ADR;TYPE=HOME;TYPE=pref:;;1600 Pennsylvania Avenue NW;Washington;DC;20500;United States";
    let property = Property::parse(text, None).unwrap();
    assert_eq!(property.get_type(), &PropertyType::Adr);
    assert_eq!(parameter_strings(&property), vec!["TYPE=HOME", "TYPE=pref"]);
    assert_eq!(property.get_parameters()[0].get_key(), "TYPE");
    assert_eq!(property.get_parameters()[0].get_value(), "HOME");
    assert_eq!(property.get_parameters()[1].get_key(), "TYPE");
    assert_eq!(property.get_parameters()[1].get_value(), "pref");
    assert_eq!(property.parameters_to_string(), "TYPE=HOME;TYPE=pref");
    assert_eq!(
        property.get_value().to_string(),
        ";;1600 Pennsylvania Avenue NW;Washington;DC;20500;United States"
    );
    assert_eq!(property.to_string(), text);

    let plain = Property::parse("N:Doe;Jane;;;", None).unwrap();
    assert!(plain.get_parameters().is_empty());
    assert_eq!(plain.parameters_to_string(), "");
    assert_eq!(plain.get_value().to_string(), "Doe;Jane;;;");
}

#[test]
fn empty_value_is_a_value() {
    let property = Property::parse("NOTE:", None).unwrap();
    assert_eq!(property.get_type(), &PropertyType::Note);
    assert_eq!(property.get_value().to_string(), "");
    assert_eq!(property.to_string(), "NOTE:");
}

#[test]
fn line_breaks_are_taken_out_before_the_line_is_cut() {
    let property = Property::parse("F\r\nN;TY\nPE=a\r:Ja\r\nne\n", None).unwrap();
    assert_eq!(property.get_type(), &PropertyType::Fn);
    assert_eq!(parameter_strings(&property), vec!["TYPE=a"]);
    assert_eq!(property.get_value().to_string(), "Jane");
}

#[test]
fn fresh_identities_differ_and_content_is_equal() {
    let a = Property::parse("FN:Jane", None).unwrap();
    let b = Property::parse("FN:Jane", None).unwrap();
    assert_ne!(a.get_uuid(), b.get_uuid());
    assert_same_content(&a, &b);

    let c = Property::from_type(PropertyType::Fn);
    let d = Property::from_type(PropertyType::Fn);
    assert_ne!(c.get_uuid(), d.get_uuid());
    assert_same_content(&c, &d);
}

#[test]
fn given_identity_is_kept() {
    let identity = Uuid::from_u128(0x1234_5678_9abc_def0_1234_5678_9abc_def0);
    let a = Property::parse("TEL;TYPE=home:555", Some(identity)).unwrap();
    let b = Property::parse("TEL;TYPE=home:555", Some(identity)).unwrap();
    assert_eq!(a.get_uuid(), identity);
    assert_eq!(b.get_uuid(), identity);
    assert_same_content(&a, &b);

    let c = Property::parse_with_explicit_type(&PropertyType::Tel, "555", Some(identity)).unwrap();
    assert_eq!(c.get_uuid(), identity);

    let nil = Property::parse("FN:x", Some(Uuid::nil())).unwrap();
    assert_eq!(nil.get_uuid(), Uuid::nil());
}

#[test]
fn replacing_a_property_keeps_its_identity() {
    let old = Property::parse("FN:Jane", None).unwrap();
    let new = Property::parse("FN:Jane Doe", Some(old.get_uuid())).unwrap();
    assert_eq!(old.get_uuid(), new.get_uuid());
    assert_ne!(old.get_value(), new.get_value());
}

#[test]
fn explicit_type_reads_as_the_full_line_does() {
    for property_type in ALL_TYPES {
        let keyword = vcard_parser::vcard::property::types::keyword_of(&property_type);
        let by_type =
            Property::parse_with_explicit_type(&property_type, "some:va;lue", None).unwrap();
        let by_line = Property::parse(&format!("{}:{}", keyword, "some:va;lue"), None).unwrap();
        assert_same_content(&by_type, &by_line);
        assert_eq!(by_type.get_type(), &property_type);
        assert!(by_type.get_parameters().is_empty());
        assert_eq!(by_type.get_value().to_string(), "some:va;lue");
        assert_eq!(by_type.to_string(), format!("{}:some:va;lue", keyword));
    }
}

#[test]
fn explicit_type_takes_line_breaks_out_of_the_value() {
    let property =
        Property::parse_with_explicit_type(&PropertyType::Note, "two\r\nlines", None).unwrap();
    assert_eq!(property.get_value().to_string(), "twolines");
    assert_eq!(property.to_string(), "NOTE:twolines");
}

#[test]
fn clone_is_equal_in_every_field() {
    let property = Property::parse("ADR;TYPE=HOME;TYPE=pref:;;Main St", None).unwrap();
    let copy = property.clone();
    assert_eq!(copy.get_uuid(), property.get_uuid());
    assert_same_content(&copy, &property);
    assert_eq!(copy.to_string(), property.to_string());
}

#[test]
fn parameters_keep_their_order_and_their_duplicates() {
    let property = Property::parse("TEL;B=2;A=1;B=2;C=:x", None).unwrap();
    assert_eq!(parameter_strings(&property), vec!["B=2", "A=1", "B=2", "C="]);
    assert_eq!(property.parameters_to_string(), "B=2;A=1;B=2;C=");
    let expected: Vec<Parameter> = ["B=2", "A=1", "B=2", "C="]
        .iter()
        .map(|segment| Parameter::parse(segment).unwrap())
        .collect();
    assert_eq!(property.get_parameters(), &expected);
}

#[test]
fn text_outside_ascii_is_kept() {
    let line = "NOTE;LANGUAGE=ja:こんにちは: 世界; 🌍";
    let property = Property::parse(line, None).unwrap();
    assert_eq!(property.get_value().to_string(), "こんにちは: 世界; 🌍");
    assert_eq!(property.to_string(), line);
    let odd = Property::parse("NOTE;ключ=значение:é", None).unwrap();
    assert_eq!(odd.get_parameters()[0].get_key(), "ключ");
    assert_eq!(odd.get_parameters()[0].get_value(), "значение");
    assert_eq!(odd.to_string(), "NOTE;ключ=значение:é");
}

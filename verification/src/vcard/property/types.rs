//! The closed set of property types and the table of their keywords.
//!
//! There is one table, from type to keyword. `keyword_of` reads it, and `resolve`
//! searches it, so the two directions cannot disagree; that the table is a
//! bijection between the types and their keywords is proved here.

use vstd::prelude::*;
use vstd::string::StringExecFns;

use crate::error::{VcardError, VcardErrorView};
use crate::text::{same_chars, to_upper, upper};

verus! {

/// The kinds of property that a contact card can hold. Each has one keyword,
/// which `keyword_of` gives.
#[derive(Clone, Copy, Debug, PartialEq, Eq, Hash, Structural)]
pub enum PropertyType {
    Adr,
    Anniversary,
    BDay,
    BirthPlace,
    CalAdrUri,
    CalUri,
    Categories,
    ClientPidMap,
    ContactUri,
    DeathDate,
    DeathPlace,
    Email,
    Expertise,
    FbUrl,
    Fn,
    Gender,
    Geo,
    Hobby,
    Impp,
    Interest,
    Key,
    Kind,
    Lang,
    Logo,
    Member,
    NickName,
    Note,
    N,
    OrgDirectory,
    Org,
    Photo,
    ProdId,
    Related,
    Rev,
    Role,
    Sound,
    Source,
    Tel,
    Title,
    Tz,
    Uid,
    Url,
    Version,
    Xml,
}

/// How many property types there are.
pub const PROPERTY_TYPE_COUNT: usize = 44;

impl PropertyType {
    /// The keyword of this type: the one table from type to keyword. Every
    /// keyword is written in upper case, and no two types share one.
    pub open spec fn keyword_spec(self) -> Seq<char> {
        match self {
            PropertyType::Adr => "ADR"@,
            PropertyType::Anniversary => "ANNIVERSARY"@,
            PropertyType::BDay => "BDAY"@,
            PropertyType::BirthPlace => "BIRTHPLACE"@,
            PropertyType::CalAdrUri => "CALADRURI"@,
            PropertyType::CalUri => "CALURI"@,
            PropertyType::Categories => "CATEGORIES"@,
            PropertyType::ClientPidMap => "CLIENTPIDMAP"@,
            PropertyType::ContactUri => "CONTACT-URI"@,
            PropertyType::DeathDate => "DEATHDATE"@,
            PropertyType::DeathPlace => "DEATHPLACE"@,
            PropertyType::Email => "EMAIL"@,
            PropertyType::Expertise => "EXPERTISE"@,
            PropertyType::FbUrl => "FBURL"@,
            PropertyType::Fn => "FN"@,
            PropertyType::Gender => "GENDER"@,
            PropertyType::Geo => "GEO"@,
            PropertyType::Hobby => "HOBBY"@,
            PropertyType::Impp => "IMPP"@,
            PropertyType::Interest => "INTEREST"@,
            PropertyType::Key => "KEY"@,
            PropertyType::Kind => "KIND"@,
            PropertyType::Lang => "LANG"@,
            PropertyType::Logo => "LOGO"@,
            PropertyType::Member => "MEMBER"@,
            PropertyType::NickName => "NICKNAME"@,
            PropertyType::Note => "NOTE"@,
            PropertyType::N => "N"@,
            PropertyType::OrgDirectory => "ORG-DIRECTORY"@,
            PropertyType::Org => "ORG"@,
            PropertyType::Photo => "PHOTO"@,
            PropertyType::ProdId => "PRODID"@,
            PropertyType::Related => "RELATED"@,
            PropertyType::Rev => "REV"@,
            PropertyType::Role => "ROLE"@,
            PropertyType::Sound => "SOUND"@,
            PropertyType::Source => "SOURCE"@,
            PropertyType::Tel => "TEL"@,
            PropertyType::Title => "TITLE"@,
            PropertyType::Tz => "TZ"@,
            PropertyType::Uid => "UID"@,
            PropertyType::Url => "URL"@,
            PropertyType::Version => "VERSION"@,
            PropertyType::Xml => "XML"@,
        }
    }

    /// Every property type once, in the order of the table.
    pub open spec fn all() -> Seq<PropertyType> {
        seq![
            PropertyType::Adr,
            PropertyType::Anniversary,
            PropertyType::BDay,
            PropertyType::BirthPlace,
            PropertyType::CalAdrUri,
            PropertyType::CalUri,
            PropertyType::Categories,
            PropertyType::ClientPidMap,
            PropertyType::ContactUri,
            PropertyType::DeathDate,
            PropertyType::DeathPlace,
            PropertyType::Email,
            PropertyType::Expertise,
            PropertyType::FbUrl,
            PropertyType::Fn,
            PropertyType::Gender,
            PropertyType::Geo,
            PropertyType::Hobby,
            PropertyType::Impp,
            PropertyType::Interest,
            PropertyType::Key,
            PropertyType::Kind,
            PropertyType::Lang,
            PropertyType::Logo,
            PropertyType::Member,
            PropertyType::NickName,
            PropertyType::Note,
            PropertyType::N,
            PropertyType::OrgDirectory,
            PropertyType::Org,
            PropertyType::Photo,
            PropertyType::ProdId,
            PropertyType::Related,
            PropertyType::Rev,
            PropertyType::Role,
            PropertyType::Sound,
            PropertyType::Source,
            PropertyType::Tel,
            PropertyType::Title,
            PropertyType::Tz,
            PropertyType::Uid,
            PropertyType::Url,
            PropertyType::Version,
            PropertyType::Xml,
        ]
    }

    /// The place of this type in `all`.
    pub open spec fn position(self) -> int {
        match self {
            PropertyType::Adr => 0,
            PropertyType::Anniversary => 1,
            PropertyType::BDay => 2,
            PropertyType::BirthPlace => 3,
            PropertyType::CalAdrUri => 4,
            PropertyType::CalUri => 5,
            PropertyType::Categories => 6,
            PropertyType::ClientPidMap => 7,
            PropertyType::ContactUri => 8,
            PropertyType::DeathDate => 9,
            PropertyType::DeathPlace => 10,
            PropertyType::Email => 11,
            PropertyType::Expertise => 12,
            PropertyType::FbUrl => 13,
            PropertyType::Fn => 14,
            PropertyType::Gender => 15,
            PropertyType::Geo => 16,
            PropertyType::Hobby => 17,
            PropertyType::Impp => 18,
            PropertyType::Interest => 19,
            PropertyType::Key => 20,
            PropertyType::Kind => 21,
            PropertyType::Lang => 22,
            PropertyType::Logo => 23,
            PropertyType::Member => 24,
            PropertyType::NickName => 25,
            PropertyType::Note => 26,
            PropertyType::N => 27,
            PropertyType::OrgDirectory => 28,
            PropertyType::Org => 29,
            PropertyType::Photo => 30,
            PropertyType::ProdId => 31,
            PropertyType::Related => 32,
            PropertyType::Rev => 33,
            PropertyType::Role => 34,
            PropertyType::Sound => 35,
            PropertyType::Source => 36,
            PropertyType::Tel => 37,
            PropertyType::Title => 38,
            PropertyType::Tz => 39,
            PropertyType::Uid => 40,
            PropertyType::Url => 41,
            PropertyType::Version => 42,
            PropertyType::Xml => 43,
        }
    }
}

/// A text that can serve as a keyword: not empty, and made of ASCII upper-case
/// letters and hyphens only.
pub open spec fn is_keyword_text(s: Seq<char>) -> bool {
    &&& s.len() >= 1
    &&& forall|i: int| 0 <= i < s.len() ==> ('A' <= #[trigger] s[i] && s[i] <= 'Z') || s[i] == '-'
}

/// The keyword that `keyword` names, read without regard to the case of ASCII
/// letters: the type whose keyword is the upper-case form of `keyword`, if there
/// is one.
pub open spec fn resolve_spec(keyword: Seq<char>) -> Option<PropertyType> {
    if exists|t: PropertyType| t.keyword_spec() == upper(keyword) {
        Some(choose|t: PropertyType| t.keyword_spec() == upper(keyword))
    } else {
        None
    }
}

/// Every keyword of the table is a keyword text.
pub proof fn lemma_keyword_shape(t: PropertyType)
    ensures
        is_keyword_text(t.keyword_spec()),
{
    reveal_strlit("ADR");
    reveal_strlit("ANNIVERSARY");
    reveal_strlit("BDAY");
    reveal_strlit("BIRTHPLACE");
    reveal_strlit("CALADRURI");
    reveal_strlit("CALURI");
    reveal_strlit("CATEGORIES");
    reveal_strlit("CLIENTPIDMAP");
    reveal_strlit("CONTACT-URI");
    reveal_strlit("DEATHDATE");
    reveal_strlit("DEATHPLACE");
    reveal_strlit("EMAIL");
    reveal_strlit("EXPERTISE");
    reveal_strlit("FBURL");
    reveal_strlit("FN");
    reveal_strlit("GENDER");
    reveal_strlit("GEO");
    reveal_strlit("HOBBY");
    reveal_strlit("IMPP");
    reveal_strlit("INTEREST");
    reveal_strlit("KEY");
    reveal_strlit("KIND");
    reveal_strlit("LANG");
    reveal_strlit("LOGO");
    reveal_strlit("MEMBER");
    reveal_strlit("NICKNAME");
    reveal_strlit("NOTE");
    reveal_strlit("N");
    reveal_strlit("ORG-DIRECTORY");
    reveal_strlit("ORG");
    reveal_strlit("PHOTO");
    reveal_strlit("PRODID");
    reveal_strlit("RELATED");
    reveal_strlit("REV");
    reveal_strlit("ROLE");
    reveal_strlit("SOUND");
    reveal_strlit("SOURCE");
    reveal_strlit("TEL");
    reveal_strlit("TITLE");
    reveal_strlit("TZ");
    reveal_strlit("UID");
    reveal_strlit("URL");
    reveal_strlit("VERSION");
    reveal_strlit("XML");
}

/// No two property types share a keyword.
pub proof fn lemma_keyword_injective(a: PropertyType, b: PropertyType)
    requires
        a.keyword_spec() == b.keyword_spec(),
    ensures
        a == b,
{
    reveal_strlit("ADR");
    reveal_strlit("ANNIVERSARY");
    reveal_strlit("BDAY");
    reveal_strlit("BIRTHPLACE");
    reveal_strlit("CALADRURI");
    reveal_strlit("CALURI");
    reveal_strlit("CATEGORIES");
    reveal_strlit("CLIENTPIDMAP");
    reveal_strlit("CONTACT-URI");
    reveal_strlit("DEATHDATE");
    reveal_strlit("DEATHPLACE");
    reveal_strlit("EMAIL");
    reveal_strlit("EXPERTISE");
    reveal_strlit("FBURL");
    reveal_strlit("FN");
    reveal_strlit("GENDER");
    reveal_strlit("GEO");
    reveal_strlit("HOBBY");
    reveal_strlit("IMPP");
    reveal_strlit("INTEREST");
    reveal_strlit("KEY");
    reveal_strlit("KIND");
    reveal_strlit("LANG");
    reveal_strlit("LOGO");
    reveal_strlit("MEMBER");
    reveal_strlit("NICKNAME");
    reveal_strlit("NOTE");
    reveal_strlit("N");
    reveal_strlit("ORG-DIRECTORY");
    reveal_strlit("ORG");
    reveal_strlit("PHOTO");
    reveal_strlit("PRODID");
    reveal_strlit("RELATED");
    reveal_strlit("REV");
    reveal_strlit("ROLE");
    reveal_strlit("SOUND");
    reveal_strlit("SOURCE");
    reveal_strlit("TEL");
    reveal_strlit("TITLE");
    reveal_strlit("TZ");
    reveal_strlit("UID");
    reveal_strlit("URL");
    reveal_strlit("VERSION");
    reveal_strlit("XML");
    let x = a.keyword_spec();
    let y = b.keyword_spec();
    assert(x.len() == y.len());
    assert(x[0] == y[0]);
    assert(x[1] == y[1]);
    assert(x[2] == y[2]);
    assert(x[3] == y[3]);
    assert(x[4] == y[4]);
    assert(x[5] == y[5]);
}

/// `all` lists every property type, each at its `position`.
pub proof fn lemma_all_complete(t: PropertyType)
    ensures
        0 <= t.position() < PROPERTY_TYPE_COUNT,
        PropertyType::all().len() == PROPERTY_TYPE_COUNT,
        PropertyType::all()[t.position()] == t,
{
}

/// A keyword text is its own upper-case form and holds none of the characters
/// that frame a property line.
pub proof fn lemma_keyword_text_is_plain(s: Seq<char>)
    requires
        is_keyword_text(s),
    ensures
        upper(s) == s,
        !s.contains(':'),
        !s.contains(';'),
        !s.contains('\r'),
        !s.contains('\n'),
{
    assert forall|i: int| 0 <= i < s.len() implies upper(s)[i] == s[i] by {
        assert(('A' <= s[i] && s[i] <= 'Z') || s[i] == '-');
    }
    assert(upper(s) =~= s);
    assert forall|i: int| 0 <= i < s.len() implies s[i] != ':' && s[i] != ';' && s[i] != '\r'
        && s[i] != '\n' by {
        assert(('A' <= s[i] && s[i] <= 'Z') || s[i] == '-');
    }
}

/// The keyword of a type resolves to that type, in whatever case its letters
/// are written.
pub proof fn lemma_resolve_keyword(t: PropertyType, written: Seq<char>)
    requires
        upper(written) == t.keyword_spec(),
    ensures
        resolve_spec(written) == Some(t),
{
    let found = choose|u: PropertyType| u.keyword_spec() == upper(written);
    lemma_keyword_injective(found, t);
}

/// Resolution looks at the upper-case form of the keyword only.
pub proof fn lemma_resolve_ignores_case(a: Seq<char>, b: Seq<char>)
    requires
        upper(a) == upper(b),
    ensures
        resolve_spec(a) == resolve_spec(b),
{
}

/// The canonical keyword of a property type.
pub fn keyword_of(t: &PropertyType) -> (keyword: &'static str)
    ensures
        keyword@ == t.keyword_spec(),
{
    match t {
        PropertyType::Adr => "ADR",
        PropertyType::Anniversary => "ANNIVERSARY",
        PropertyType::BDay => "BDAY",
        PropertyType::BirthPlace => "BIRTHPLACE",
        PropertyType::CalAdrUri => "CALADRURI",
        PropertyType::CalUri => "CALURI",
        PropertyType::Categories => "CATEGORIES",
        PropertyType::ClientPidMap => "CLIENTPIDMAP",
        PropertyType::ContactUri => "CONTACT-URI",
        PropertyType::DeathDate => "DEATHDATE",
        PropertyType::DeathPlace => "DEATHPLACE",
        PropertyType::Email => "EMAIL",
        PropertyType::Expertise => "EXPERTISE",
        PropertyType::FbUrl => "FBURL",
        PropertyType::Fn => "FN",
        PropertyType::Gender => "GENDER",
        PropertyType::Geo => "GEO",
        PropertyType::Hobby => "HOBBY",
        PropertyType::Impp => "IMPP",
        PropertyType::Interest => "INTEREST",
        PropertyType::Key => "KEY",
        PropertyType::Kind => "KIND",
        PropertyType::Lang => "LANG",
        PropertyType::Logo => "LOGO",
        PropertyType::Member => "MEMBER",
        PropertyType::NickName => "NICKNAME",
        PropertyType::Note => "NOTE",
        PropertyType::N => "N",
        PropertyType::OrgDirectory => "ORG-DIRECTORY",
        PropertyType::Org => "ORG",
        PropertyType::Photo => "PHOTO",
        PropertyType::ProdId => "PRODID",
        PropertyType::Related => "RELATED",
        PropertyType::Rev => "REV",
        PropertyType::Role => "ROLE",
        PropertyType::Sound => "SOUND",
        PropertyType::Source => "SOURCE",
        PropertyType::Tel => "TEL",
        PropertyType::Title => "TITLE",
        PropertyType::Tz => "TZ",
        PropertyType::Uid => "UID",
        PropertyType::Url => "URL",
        PropertyType::Version => "VERSION",
        PropertyType::Xml => "XML",
    }
}

/// The property type at place `i` of the table.
fn type_at(i: usize) -> (t: PropertyType)
    requires
        i < PROPERTY_TYPE_COUNT,
    ensures
        t == PropertyType::all()[i as int],
{
    match i {
        0 => PropertyType::Adr,
        1 => PropertyType::Anniversary,
        2 => PropertyType::BDay,
        3 => PropertyType::BirthPlace,
        4 => PropertyType::CalAdrUri,
        5 => PropertyType::CalUri,
        6 => PropertyType::Categories,
        7 => PropertyType::ClientPidMap,
        8 => PropertyType::ContactUri,
        9 => PropertyType::DeathDate,
        10 => PropertyType::DeathPlace,
        11 => PropertyType::Email,
        12 => PropertyType::Expertise,
        13 => PropertyType::FbUrl,
        14 => PropertyType::Fn,
        15 => PropertyType::Gender,
        16 => PropertyType::Geo,
        17 => PropertyType::Hobby,
        18 => PropertyType::Impp,
        19 => PropertyType::Interest,
        20 => PropertyType::Key,
        21 => PropertyType::Kind,
        22 => PropertyType::Lang,
        23 => PropertyType::Logo,
        24 => PropertyType::Member,
        25 => PropertyType::NickName,
        26 => PropertyType::Note,
        27 => PropertyType::N,
        28 => PropertyType::OrgDirectory,
        29 => PropertyType::Org,
        30 => PropertyType::Photo,
        31 => PropertyType::ProdId,
        32 => PropertyType::Related,
        33 => PropertyType::Rev,
        34 => PropertyType::Role,
        35 => PropertyType::Sound,
        36 => PropertyType::Source,
        37 => PropertyType::Tel,
        38 => PropertyType::Title,
        39 => PropertyType::Tz,
        40 => PropertyType::Uid,
        41 => PropertyType::Url,
        42 => PropertyType::Version,
        _ => PropertyType::Xml,
    }
}

/// Finds the property type that `keyword` names, reading ASCII letters without
/// regard to their case. Where no type has that keyword, the error carries the
/// keyword as it was written.
pub fn resolve(keyword: &str) -> (found: Result<PropertyType, VcardError>)
    ensures
        match found {
            Ok(t) => resolve_spec(keyword@) == Some(t),
            Err(e) => resolve_spec(keyword@) is None && e@ == VcardErrorView::UnknownPropertyType(
                keyword@,
            ),
        },
{
    let written = to_upper(keyword);
    let mut i: usize = 0;
    while i < PROPERTY_TYPE_COUNT
        invariant
            i <= PROPERTY_TYPE_COUNT,
            written@ == upper(keyword@),
            forall|j: int|
                0 <= j < i ==> (#[trigger] PropertyType::all()[j]).keyword_spec() != written@,
        decreases PROPERTY_TYPE_COUNT - i,
    {
        let t = type_at(i);
        if same_chars(keyword_of(&t), &written) {
            proof {
                lemma_resolve_keyword(t, keyword@);
            }
            return Ok(t);
        }
        i = i + 1;
    }
    proof {
        assert forall|t: PropertyType| t.keyword_spec() != upper(keyword@) by {
            lemma_all_complete(t);
            assert(PropertyType::all()[t.position()].keyword_spec() != written@);
        }
    }
    Err(VcardError::UnknownPropertyType(String::from_str(keyword)))
}

} // verus!

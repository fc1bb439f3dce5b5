use aegistry::fetcher::{compute_sha256, extract_uk_download_link, extract_xml_url};
use aegistry::parser_eu::parse_eu_xml;
use aegistry::parser_ofac::{extract_year, parse_ofac_xml};
use aegistry::parser_uk::{extract_year_uk, parse_uk_xml};
use aegistry::parser_un::parse_un_xml;
use aegistry::pep_eu_commission::is_likely_person_name;
use aegistry::pep_eu_parliament::country_name_to_iso;
use aegistry::pep_us_congress::parse_congress_html;
use aegistry::subject::SubjectKind;

#[test]
fn hash_is_deterministic() {
    let data = b"test data".to_vec();
    let h1 = compute_sha256(&data);
    let h2 = compute_sha256(&data);
    assert_eq!(h1, h2);
}

#[test]
fn sha256_known_digest() {
    let data = b"abc".to_vec();
    assert_eq!(
        compute_sha256(&data),
        "ba7816bf8f01cfea414140de5dae2223b00361a396177a9cb410ff61f20015ad"
    );
}

#[test]
fn extract_url_from_rss() {
    let rss = r#"
        <item>
          <title>XML (Based on XSD) - v1.1</title>
          <link>https://webgate.ec.europa.eu/fsd/fsf/public/files/xmlFullSanctionsList_1_1/content?token=dG9rZW4tMjAxNw</link>
        </item>
        "#;
    let url = extract_xml_url(rss).unwrap();
    assert!(url.contains("xmlFullSanctionsList_1_1"));
    assert!(url.contains("token="));
}

#[test]
fn parse_real_eu_format() {
    let xml = r#"<?xml version="1.0" encoding="UTF-8" standalone="yes"?>
<export xmlns="http://eu.europa.ec/fpi/fsd/export" generationDate="2025-11-21T17:00:34.049+01:00">
    <sanctionEntity designationDetails="" euReferenceNumber="EU.27.28" logicalId="13">
        <subjectType code="person" classificationCode="P"/>
        <nameAlias firstName="Saddam" lastName="Hussein Al-Tikriti" wholeName="Saddam Hussein Al-Tikriti" logicalId="17"/>
        <nameAlias wholeName="Abu Ali" logicalId="19"/>
        <citizenship countryIso2Code="IQ" countryDescription="IRAQ"/>
        <birthdate year="1937" birthdate="1937-04-28" countryIso2Code="IQ"/>
    </sanctionEntity>
</export>"#;

    let subjects = parse_eu_xml(xml);
    assert_eq!(subjects.len(), 1);

    let s = &subjects[0];
    assert_eq!(s.source_ref, "13");
    assert_eq!(s.kind, SubjectKind::Person);
    assert_eq!(s.primary_name, "Saddam Hussein Al-Tikriti");
    assert_eq!(s.aliases.len(), 1);
    assert_eq!(s.aliases[0].name, "Abu Ali");
    assert_eq!(s.date_of_birth_year, Some(1937));
    assert_eq!(s.country, Some("IQ".to_string()));
}

#[test]
fn parse_ofac_individual() {
    let xml = r#"<?xml version="1.0"?>
        <sdnList>
            <sdnEntry>
                <uid>12345</uid>
                <sdnType>Individual</sdnType>
                <firstName>John</firstName>
                <lastName>Doe</lastName>
                <dateOfBirth>1970-01-15</dateOfBirth>
            </sdnEntry>
        </sdnList>"#;

    let subjects = parse_ofac_xml(xml);
    assert_eq!(subjects.len(), 1);
    assert_eq!(subjects[0].source_ref, "ofac_12345");
    assert!(subjects[0].primary_name.contains("John"));
    assert!(subjects[0].primary_name.contains("Doe"));
    assert_eq!(subjects[0].date_of_birth_year, Some(1970));
}

#[test]
fn extract_year_various_formats() {
    assert_eq!(extract_year("1970-01-15"), Some(1970));
    assert_eq!(extract_year("15 Jan 1985"), Some(1985));
    assert_eq!(extract_year("circa 1960"), Some(1960));
    assert_eq!(extract_year("unknown"), None);
}

#[test]
fn parse_uk_individual() {
    let xml = r#"<?xml version="1.0"?>
        <Designations>
            <Designation>
                <UniqueID>12345</UniqueID>
                <GroupTypeDescription>Individual</GroupTypeDescription>
                <Name1>John</Name1>
                <Name6>Doe</Name6>
                <DOB>15/01/1970</DOB>
                <Nationality>GB</Nationality>
            </Designation>
        </Designations>"#;

    let subjects = parse_uk_xml(xml);
    assert_eq!(subjects.len(), 1);
    assert_eq!(subjects[0].source_ref, "uk_12345");
    assert!(subjects[0].primary_name.contains("John"));
    assert!(subjects[0].primary_name.contains("Doe"));
    assert_eq!(subjects[0].date_of_birth_year, Some(1970));
    assert_eq!(subjects[0].country, Some("GB".to_string()));
}

#[test]
fn extract_year_uk_formats() {
    assert_eq!(extract_year_uk("15/01/1970"), Some(1970));
    assert_eq!(extract_year_uk("1985-01-15"), Some(1985));
    assert_eq!(extract_year_uk("circa 1960"), Some(1960));
}

#[test]
fn parse_un_individual() {
    let xml = r#"<?xml version="1.0"?>
        <CONSOLIDATED_LIST>
            <INDIVIDUALS>
                <INDIVIDUAL>
                    <DATAID>12345</DATAID>
                    <FIRST_NAME>John</FIRST_NAME>
                    <SECOND_NAME>Doe</SECOND_NAME>
                    <NATIONALITY>US</NATIONALITY>
                    <DATE_OF_BIRTH>1970-01-15</DATE_OF_BIRTH>
                </INDIVIDUAL>
            </INDIVIDUALS>
        </CONSOLIDATED_LIST>"#;

    let subjects = parse_un_xml(xml);
    assert_eq!(subjects.len(), 1);
    assert_eq!(subjects[0].source_ref, "un_12345");
    assert_eq!(subjects[0].primary_name, "John Doe");
    assert_eq!(subjects[0].country, Some("US".to_string()));
    assert_eq!(subjects[0].date_of_birth_year, Some(1970));
}

#[test]
fn is_person_name_check() {
    assert!(is_likely_person_name("Ursula von der Leyen"));
    assert!(is_likely_person_name("Maros Sefcovic"));
    assert!(!is_likely_person_name("the Commission"));
    assert!(!is_likely_person_name("x"));
}

#[test]
fn country_mapping() {
    assert_eq!(country_name_to_iso("Germany"), Some("DE".to_string()));
    assert_eq!(country_name_to_iso("DE"), Some("DE".to_string()));
    assert_eq!(country_name_to_iso("unknown"), None);
}

#[test]
fn test_name_extraction() {
    let html = r#"<a href="/members/john-doe">John Doe</a>"#;
    let members = parse_congress_html(html, "house");
    assert!(!members.is_empty());
}

#[test]
fn parse_canada_entities() {
    let xml = r#"<List>
        <Individual><Name>Jane Roe</Name><Country>Iran</Country></Individual>
        <Entity><Name>Acme Holdings</Name></Entity>
    </List>"#;
    let subjects = aegistry::parser_canada::parse_canada_sanctions(xml);
    assert_eq!(subjects.len(), 2);
    assert_eq!(subjects[0].primary_name, "Jane Roe");
    assert_eq!(subjects[0].source_ref, "canada_jane_roe");
    assert_eq!(subjects[0].country, Some("Iran".to_string()));
    assert_eq!(subjects[1].kind, SubjectKind::Entity);
}

#[test]
fn parse_switzerland_persons() {
    let xml = r#"<List>
        <Person><Name>Max Muster</Name><Nationality>CH</Nationality></Person>
    </List>"#;
    let subjects = aegistry::parser_switzerland::parse_switzerland_sanctions(xml);
    assert_eq!(subjects.len(), 1);
    assert_eq!(subjects[0].source_ref, "switzerland_max_muster");
    assert_eq!(subjects[0].kind, SubjectKind::Person);
}

#[test]
fn commission_fallback_roster_is_used() {
    let subjects = aegistry::pep_eu_commission::parse_commission_html("");
    assert!(subjects.len() >= 20);
    assert!(subjects.iter().any(|s| s.primary_name == "Ursula von der Leyen"));
}

#[test]
fn mep_line_parsing() {
    let xml = "<meps>\n<mep fullName=\"Anna Example\" id=\"42\" country=\"Germany\"/>\n</meps>";
    let subjects = aegistry::pep_eu_parliament::parse_mep_xml(xml);
    assert_eq!(subjects.len(), 1);
    assert_eq!(subjects[0].primary_name, "Anna Example");
    assert_eq!(subjects[0].source_ref, "pep_eu_mep_42");
    assert_eq!(subjects[0].country, Some("DE".to_string()));
}

#[test]
fn eu_parser_skips_nameless_entries() {
    let xml = r#"<export>
        <sanctionEntity logicalId="1"><subjectType code="person"/></sanctionEntity>
        <sanctionEntity logicalId="2"><nameAlias wholeName="Real Person"/></sanctionEntity>
    </export>"#;
    let subjects = parse_eu_xml(xml);
    assert_eq!(subjects.len(), 1);
    assert_eq!(subjects[0].primary_name, "Real Person");
}

#[test]
fn parsers_tolerate_malformed_fragments() {
    let garbage = "<<<&&; <sdnEntry><uid>1</uid><firstName>A</ <lastName>B</lastName></sdnEntry";
    let _ = parse_ofac_xml(garbage);
    let _ = parse_eu_xml("<sanctionEntity <nameAlias wholeName=\"X >");
    let _ = parse_uk_xml("random text, no markup at all");
    let _ = parse_un_xml("<INDIVIDUAL><FIRST_NAME>&unknown;</FIRST_NAME>");
    // A well-formed sibling after a broken entry still parses.
    let mixed = r#"<sdnList>
        <sdnEntry><sdnType>Individual</sdnType></sdnEntry>
        <sdnEntry><uid>2</uid><firstName>Jane</firstName><lastName>Roe</lastName></sdnEntry>
    </sdnList>"#;
    let subjects = parse_ofac_xml(mixed);
    assert_eq!(subjects.len(), 1);
    assert_eq!(subjects[0].source_ref, "ofac_2");
}

#[test]
fn uk_download_link_found_in_marked_line() {
    let html = "<html>\n<a href=\"https://assets.example/UK_Sanctions_List.xml\">download</a>\n</html>";
    let url = extract_uk_download_link(html).unwrap();
    assert_eq!(url, "https://assets.example/UK_Sanctions_List.xml");
    // A relative target is made absolute against the publisher's host.
    let rel = "<a href=\"/ConList.xml\">x</a>";
    let url2 = extract_uk_download_link(rel).unwrap();
    assert_eq!(url2, "https://www.gov.uk/ConList.xml");
    assert!(extract_uk_download_link("<a href=\"https://x.example/other.pdf\">x</a>").is_none());
}

#[test]
fn uk_parser_skips_nameless_designations() {
    let xml = "<Designations><Designation><Name1>Test</Name1><Name2>Person</Name2></Designation>\
<Designation><Country>Iran</Country></Designation></Designations>";
    let subjects = parse_uk_xml(xml);
    assert_eq!(subjects.len(), 1);
    assert_eq!(subjects[0].primary_name, "Test Person");
}

#[test]
fn mep_structured_counts_only_named_members() {
    let xml = "<meps><mep><fullName>Jane Doe</fullName><country>France</country></mep>\
<mep><id>7</id></mep></meps>";
    let subjects = aegistry::pep_eu_parliament::parse_mep_xml_structured(xml);
    assert_eq!(subjects.len(), 1);
    assert_eq!(subjects[0].primary_name, "Jane Doe");
    assert_eq!(subjects[0].country.as_deref(), Some("FR"));
}

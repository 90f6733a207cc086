use fatcat::errors::{EntityType, ExtIdKind, FatcatError};
use fatcat::extids::{
    check_doi, check_hex_digest, check_isbn13, check_issnl, check_number_id, check_orcid,
    check_pmcid, check_wikidata_qid, ext_id_kind_applies, validate_ext_id,
};

#[test]
fn doi_is_stored_in_lower_case() {
    assert_eq!(check_doi("10.1234/ABC.Def"), Ok("10.1234/abc.def".to_string()));
    assert_eq!(check_doi("10.1/foo"), Ok("10.1/foo".to_string()));
}

#[test]
fn doi_without_prefix_slash_or_with_space_is_refused() {
    let bad = Err(FatcatError::MalformedExternalId(ExtIdKind::Doi));
    assert_eq!(check_doi("11.1/foo"), bad);
    assert_eq!(check_doi("10.1foo"), bad);
    assert_eq!(check_doi("10.1/fo o"), bad);
    assert_eq!(check_doi("10.1/fo\to"), bad);
    assert_eq!(check_doi("10"), bad);
    assert_eq!(check_doi(""), bad);
    assert_eq!(check_doi("10.1/f\u{e9}"), bad);
}

#[test]
fn orcid_with_a_right_check_digit_is_kept() {
    assert_eq!(check_orcid("0000-0002-1825-0097"), Ok("0000-0002-1825-0097".to_string()));
    assert_eq!(check_orcid("0000-0002-1694-233X"), Ok("0000-0002-1694-233X".to_string()));
}

#[test]
fn orcid_with_a_wrong_check_digit_fails_the_checksum() {
    assert_eq!(
        check_orcid("0000-0002-1825-0098"),
        Err(FatcatError::MalformedChecksum(ExtIdKind::Orcid))
    );
    assert_eq!(
        check_orcid("0000-0002-1694-2330"),
        Err(FatcatError::MalformedChecksum(ExtIdKind::Orcid))
    );
}

#[test]
fn orcid_of_a_wrong_shape_is_malformed() {
    let bad = Err(FatcatError::MalformedExternalId(ExtIdKind::Orcid));
    assert_eq!(check_orcid("0000000218250097"), bad);
    assert_eq!(check_orcid("0000-0002-1825-009"), bad);
    assert_eq!(check_orcid("0000-0002-1825_0097"), bad);
    assert_eq!(check_orcid("0000-000a-1825-0097"), bad);
    assert_eq!(check_orcid("0000-0002-1694-233x"), bad);
}

#[test]
fn issnl_check_character() {
    assert_eq!(check_issnl("0378-5955"), Ok("0378-5955".to_string()));
    assert_eq!(check_issnl("2434-561X"), Ok("2434-561X".to_string()));
    assert_eq!(
        check_issnl("0378-5954"),
        Err(FatcatError::MalformedChecksum(ExtIdKind::Issnl))
    );
    assert_eq!(
        check_issnl("03785955"),
        Err(FatcatError::MalformedExternalId(ExtIdKind::Issnl))
    );
    assert_eq!(
        check_issnl("0378-59X5"),
        Err(FatcatError::MalformedExternalId(ExtIdKind::Issnl))
    );
}

#[test]
fn isbn13_check_digit() {
    assert_eq!(check_isbn13("9780306406157"), Ok("9780306406157".to_string()));
    assert_eq!(
        check_isbn13("9780306406158"),
        Err(FatcatError::MalformedChecksum(ExtIdKind::Isbn13))
    );
    assert_eq!(
        check_isbn13("978-0306406157"),
        Err(FatcatError::MalformedExternalId(ExtIdKind::Isbn13))
    );
    assert_eq!(
        check_isbn13("978030640615"),
        Err(FatcatError::MalformedExternalId(ExtIdKind::Isbn13))
    );
}

#[test]
fn isbn13_with_check_digit_zero() {
    // the weighted sum of the first twelve digits is 9 + 21 + 8 = 38
    assert_eq!(check_isbn13("9780000000002"), Ok("9780000000002".to_string()));
    // here it is 9 + 21 + 8 + 2 = 40
    assert_eq!(check_isbn13("9780000000200"), Ok("9780000000200".to_string()));
}

#[test]
fn number_ids_are_digits_only() {
    assert_eq!(check_number_id("12345", ExtIdKind::Pmid), Ok("12345".to_string()));
    assert_eq!(
        check_number_id("", ExtIdKind::Pmid),
        Err(FatcatError::MalformedExternalId(ExtIdKind::Pmid))
    );
    assert_eq!(
        check_number_id("12a45", ExtIdKind::CoreId),
        Err(FatcatError::MalformedExternalId(ExtIdKind::CoreId))
    );
}

#[test]
fn pmcid_and_qid_have_a_prefix_and_digits() {
    assert_eq!(check_pmcid("PMC12345"), Ok("PMC12345".to_string()));
    assert_eq!(check_pmcid("PMC"), Err(FatcatError::MalformedExternalId(ExtIdKind::Pmcid)));
    assert_eq!(check_pmcid("pmc123"), Err(FatcatError::MalformedExternalId(ExtIdKind::Pmcid)));
    assert_eq!(check_pmcid("PMC12x"), Err(FatcatError::MalformedExternalId(ExtIdKind::Pmcid)));
    assert_eq!(check_wikidata_qid("Q42"), Ok("Q42".to_string()));
    assert_eq!(
        check_wikidata_qid("Q"),
        Err(FatcatError::MalformedExternalId(ExtIdKind::WikidataQid))
    );
    assert_eq!(
        check_wikidata_qid("42"),
        Err(FatcatError::MalformedExternalId(ExtIdKind::WikidataQid))
    );
}

#[test]
fn digests_are_lower_case_hex_of_the_right_length() {
    let md5 = "d41d8cd98f00b204e9800998ecf8427e";
    let sha1 = "da39a3ee5e6b4b0d3255bfef95601890afd80709";
    let sha256 = "e3b0c44298fc1c149afbf4c8996fb92427ae41e4649b934ca495991b7852b855";
    assert_eq!(check_hex_digest(md5, 32, ExtIdKind::Md5), Ok(md5.to_string()));
    assert_eq!(validate_ext_id(ExtIdKind::Sha1, sha1), Ok(sha1.to_string()));
    assert_eq!(validate_ext_id(ExtIdKind::Sha256, sha256), Ok(sha256.to_string()));
    assert_eq!(
        validate_ext_id(ExtIdKind::Md5, sha1),
        Err(FatcatError::MalformedExternalId(ExtIdKind::Md5))
    );
    assert_eq!(
        validate_ext_id(ExtIdKind::Md5, "D41D8CD98F00B204E9800998ECF8427E"),
        Err(FatcatError::MalformedExternalId(ExtIdKind::Md5))
    );
    assert_eq!(
        validate_ext_id(ExtIdKind::Md5, "g41d8cd98f00b204e9800998ecf8427e"),
        Err(FatcatError::MalformedExternalId(ExtIdKind::Md5))
    );
}

#[test]
fn a_stored_form_is_valid_and_unchanged() {
    let stored = validate_ext_id(ExtIdKind::Doi, "10.5555/ABC").unwrap();
    assert_eq!(validate_ext_id(ExtIdKind::Doi, &stored), Ok(stored.clone()));
    assert_eq!(stored, "10.5555/abc");
}

#[test]
fn kinds_go_with_entity_types() {
    assert!(ext_id_kind_applies(EntityType::Release, ExtIdKind::Doi));
    assert!(ext_id_kind_applies(EntityType::Release, ExtIdKind::CoreId));
    assert!(ext_id_kind_applies(EntityType::File, ExtIdKind::Sha1));
    assert!(ext_id_kind_applies(EntityType::Container, ExtIdKind::Issnl));
    assert!(ext_id_kind_applies(EntityType::Creator, ExtIdKind::Orcid));
    assert!(ext_id_kind_applies(EntityType::Creator, ExtIdKind::WikidataQid));
    assert!(!ext_id_kind_applies(EntityType::Creator, ExtIdKind::Doi));
    assert!(!ext_id_kind_applies(EntityType::Work, ExtIdKind::WikidataQid));
    assert!(!ext_id_kind_applies(EntityType::File, ExtIdKind::Doi));
}

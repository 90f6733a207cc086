use fatcat::errors::{EntityType, ErrorCategory, ExtIdKind, FatcatError, Resource, Role};

fn all_errors() -> Vec<FatcatError> {
    vec![
        FatcatError::NotFound(Resource::Entity(EntityType::Release, 1)),
        FatcatError::MalformedFatcatId,
        FatcatError::MalformedExternalId(ExtIdKind::Doi),
        FatcatError::MalformedFlag,
        FatcatError::MalformedChecksum(ExtIdKind::Orcid),
        FatcatError::EditgroupAlreadyAccepted,
        FatcatError::EditgroupRequired,
        FatcatError::EditConflict(7),
        FatcatError::DuplicateExternalId(ExtIdKind::Doi, "10.1/dup".to_string()),
        FatcatError::BadRedirect,
        FatcatError::BadToken,
        FatcatError::InvalidCredentials,
        FatcatError::InsufficientPrivileges(Role::Admin),
        FatcatError::MultipleQueryParams,
        FatcatError::MissingOrMultipleExternalId,
        FatcatError::MultipleMatches,
        FatcatError::OtherBadRequest("x".to_string()),
        FatcatError::DatabaseError("x".to_string()),
        FatcatError::InternalError("x".to_string()),
    ]
}

#[test]
fn status_codes_follow_the_table() {
    let codes: Vec<u16> = all_errors().iter().map(|e| e.status_code()).collect();
    assert_eq!(
        codes,
        vec![404, 400, 400, 400, 400, 400, 400, 409, 400, 400, 403, 403, 403, 400, 400, 400, 400, 500, 500]
    );
}

#[test]
fn only_store_and_internal_errors_are_reported() {
    for e in all_errors() {
        let expected = matches!(e, FatcatError::DatabaseError(_) | FatcatError::InternalError(_));
        assert_eq!(e.is_reported(), expected);
        assert_eq!(e.classify() == ErrorCategory::GenericError, expected);
    }
}

#[test]
fn the_category_goes_by_the_kind_of_the_error() {
    let (bad, forbidden) = (ErrorCategory::BadRequest, ErrorCategory::Forbidden);
    let (generic, missing) = (ErrorCategory::GenericError, ErrorCategory::NotFound);
    let categories: Vec<ErrorCategory> = all_errors().iter().map(|e| e.classify()).collect();
    assert_eq!(
        categories,
        vec![
            missing, bad, bad, bad, bad, bad, bad, bad, bad, bad, forbidden, forbidden, forbidden,
            bad, bad, bad, bad, generic, generic,
        ]
    );
    // an edit conflict is a bad request that carries its own status
    assert_eq!(FatcatError::EditConflict(1).classify(), bad);
    assert_eq!(FatcatError::EditConflict(1).status_code(), 409);
}

//! Error taxonomy and its classification at the request boundary.

use vstd::prelude::*;

verus! {

/// The seven kinds of bibliographic entity.
#[derive(Clone, Copy, Debug, PartialEq, Eq, Structural)]
pub enum EntityType {
    Container,
    Creator,
    File,
    Fileset,
    Webcapture,
    Release,
    Work,
}

/// The kinds of external identifier that a revision may carry.
#[derive(Clone, Copy, Debug, PartialEq, Eq, Structural)]
pub enum ExtIdKind {
    Doi,
    WikidataQid,
    Isbn13,
    Pmid,
    Pmcid,
    CoreId,
    Md5,
    Sha1,
    Sha256,
    Issnl,
    Orcid,
}

/// Authorization roles.
#[derive(Clone, Copy, Debug, PartialEq, Eq, Structural)]
pub enum Role {
    Public,
    Human,
    Bot,
    Editor,
    Admin,
    Superuser,
}

/// What a failed lookup was looking for: the kind of thing and its id.
#[derive(Clone, Copy, Debug, PartialEq, Eq, Structural)]
pub enum Resource {
    /// An identifier row of an entity type.
    Entity(EntityType, u128),
    /// A revision of an entity type.
    Revision(EntityType, u128),
    /// An edit row of an entity type.
    Edit(EntityType, u128),
    Editgroup(u128),
    Editor(u128),
    ChangelogEntry(i64),
    /// An entity of the given type holding an external identifier of the given kind.
    ExternalId(EntityType, ExtIdKind),
}

/// Every failure of the core, as one tagged type.
#[derive(Clone, Debug, PartialEq, Eq)]
pub enum FatcatError {
    NotFound(Resource),
    MalformedFatcatId,
    MalformedExternalId(ExtIdKind),
    MalformedFlag,
    MalformedChecksum(ExtIdKind),
    EditgroupAlreadyAccepted,
    EditgroupRequired,
    EditConflict(u128),
    DuplicateExternalId(ExtIdKind, String),
    BadRedirect,
    BadToken,
    InvalidCredentials,
    InsufficientPrivileges(Role),
    MultipleQueryParams,
    MissingOrMultipleExternalId,
    MultipleMatches,
    OtherBadRequest(String),
    DatabaseError(String),
    InternalError(String),
}

/// Mathematical value of a [`FatcatError`]: text payloads as character sequences.
pub enum ErrorView {
    NotFound(Resource),
    MalformedFatcatId,
    MalformedExternalId(ExtIdKind),
    MalformedFlag,
    MalformedChecksum(ExtIdKind),
    EditgroupAlreadyAccepted,
    EditgroupRequired,
    EditConflict(u128),
    DuplicateExternalId(ExtIdKind, Seq<char>),
    BadRedirect,
    BadToken,
    InvalidCredentials,
    InsufficientPrivileges(Role),
    MultipleQueryParams,
    MissingOrMultipleExternalId,
    MultipleMatches,
    OtherBadRequest(Seq<char>),
    DatabaseError(Seq<char>),
    InternalError(Seq<char>),
}

impl View for FatcatError {
    type V = ErrorView;

    open spec fn view(&self) -> ErrorView {
        match *self {
            FatcatError::NotFound(r) => ErrorView::NotFound(r),
            FatcatError::MalformedFatcatId => ErrorView::MalformedFatcatId,
            FatcatError::MalformedExternalId(k) => ErrorView::MalformedExternalId(k),
            FatcatError::MalformedFlag => ErrorView::MalformedFlag,
            FatcatError::MalformedChecksum(k) => ErrorView::MalformedChecksum(k),
            FatcatError::EditgroupAlreadyAccepted => ErrorView::EditgroupAlreadyAccepted,
            FatcatError::EditgroupRequired => ErrorView::EditgroupRequired,
            FatcatError::EditConflict(i) => ErrorView::EditConflict(i),
            FatcatError::DuplicateExternalId(k, v) => ErrorView::DuplicateExternalId(k, v@),
            FatcatError::BadRedirect => ErrorView::BadRedirect,
            FatcatError::BadToken => ErrorView::BadToken,
            FatcatError::InvalidCredentials => ErrorView::InvalidCredentials,
            FatcatError::InsufficientPrivileges(r) => ErrorView::InsufficientPrivileges(r),
            FatcatError::MultipleQueryParams => ErrorView::MultipleQueryParams,
            FatcatError::MissingOrMultipleExternalId => ErrorView::MissingOrMultipleExternalId,
            FatcatError::MultipleMatches => ErrorView::MultipleMatches,
            FatcatError::OtherBadRequest(m) => ErrorView::OtherBadRequest(m@),
            FatcatError::DatabaseError(m) => ErrorView::DatabaseError(m@),
            FatcatError::InternalError(m) => ErrorView::InternalError(m@),
        }
    }
}

/// The status categories in which the boundary answers a failed request.
#[derive(Clone, Copy, Debug, PartialEq, Eq, Structural)]
pub enum ErrorCategory {
    BadRequest,
    Forbidden,
    NotFound,
    GenericError,
}

/// HTTP status that an error kind maps to.
pub open spec fn spec_status_code(e: ErrorView) -> int {
    match e {
        ErrorView::NotFound(_) => 404,
        ErrorView::EditConflict(_) => 409,
        ErrorView::BadToken | ErrorView::InvalidCredentials | ErrorView::InsufficientPrivileges(_) => 403,
        ErrorView::DatabaseError(_) | ErrorView::InternalError(_) => 500,
        _ => 400,
    }
}

/// True for the errors that are logged and sent to telemetry: store failures
/// and internal errors, and no others.
pub open spec fn spec_is_reported(e: ErrorView) -> bool {
    e is DatabaseError || e is InternalError
}

/// The status category in which an error is answered. It goes by the kind
/// of the error alone: what is not found is `NotFound`, a credential or a
/// privilege that does not suffice is `Forbidden`, a failure of the store or
/// of the core itself is `GenericError`, and every other error, an edit
/// conflict among them, is `BadRequest`.
pub open spec fn spec_classify(e: ErrorView) -> ErrorCategory {
    let code = spec_status_code(e);
    if code == 500 {
        ErrorCategory::GenericError
    } else if code == 404 {
        ErrorCategory::NotFound
    } else if code == 403 {
        ErrorCategory::Forbidden
    } else {
        ErrorCategory::BadRequest
    }
}

impl FatcatError {
    /// HTTP status of this error kind.
    pub fn status_code(&self) -> (code: u16)
        ensures
            code == spec_status_code(self@),
    {
        match self {
            FatcatError::NotFound(_) => 404,
            FatcatError::EditConflict(_) => 409,
            FatcatError::BadToken => 403,
            FatcatError::InvalidCredentials => 403,
            FatcatError::InsufficientPrivileges(_) => 403,
            FatcatError::DatabaseError(_) => 500,
            FatcatError::InternalError(_) => 500,
            _ => 400,
        }
    }

    /// Whether this error is logged and reported to telemetry.
    pub fn is_reported(&self) -> (b: bool)
        ensures
            b == spec_is_reported(self@),
    {
        match self {
            FatcatError::DatabaseError(_) => true,
            FatcatError::InternalError(_) => true,
            _ => false,
        }
    }

    /// Classifies this error, once, by its kind.
    pub fn classify(&self) -> (c: ErrorCategory)
        ensures
            c == spec_classify(self@),
    {
        let code = self.status_code();
        if code == 500 {
            ErrorCategory::GenericError
        } else if code == 404 {
            ErrorCategory::NotFound
        } else if code == 403 {
            ErrorCategory::Forbidden
        } else {
            ErrorCategory::BadRequest
        }
    }
}

/// An error is reported exactly when it is answered as a generic error, and
/// its category is that of its status code.
pub proof fn lemma_reported_iff_generic(e: ErrorView)
    ensures
        spec_is_reported(e) <==> spec_classify(e) == ErrorCategory::GenericError,
        spec_classify(e) == ErrorCategory::NotFound <==> e is NotFound,
        spec_classify(e) == ErrorCategory::Forbidden <==> (e is BadToken || e is InvalidCredentials
            || e is InsufficientPrivileges),
{
}

} // verus!

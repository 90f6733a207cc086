//! Authentication and authorization: what a credential proves, which roles
//! an editor holds, and who may edit in an editgroup.

use vstd::prelude::*;
use vstd::string::*;
use crate::catalog::{Catalog, CatalogView};
use crate::errors::{ErrorView, FatcatError, Resource, Role};
use crate::extids::{ascii_lower, lower_text};
use crate::text::text_eq;
use vstd::utf8::is_ascii_chars;

verus! {

/// What a token carries: the editor it was issued to, when, and until when.
#[derive(Clone, Copy, Debug, PartialEq, Eq, Structural)]
pub struct TokenClaims {
    pub editor_id: u128,
    pub issued_at: i64,
    /// The time from which the token is no longer valid; `None` for a token
    /// that does not expire.
    pub expires_at: Option<i64>,
}

/// What the transport found in a request: no token, a text that is no token,
/// a token whose signature does not verify against the server key that it
/// names, or a token with a verified signature.
#[derive(Clone, Copy, Debug, PartialEq, Eq, Structural)]
pub enum Credential {
    Missing,
    Malformed,
    BadSignature,
    Verified(TokenClaims),
}

/// The editor on whose behalf a request runs, with the flags read at the
/// time the request was authenticated.
#[derive(Clone, Copy, Debug, PartialEq, Eq, Structural)]
pub struct AuthContext {
    pub editor_id: u128,
    pub is_admin: bool,
    pub is_bot: bool,
    pub is_superuser: bool,
}

/// Whether an editor with the given flags holds a role. Every editor holds
/// `Public` and `Editor`; `Human` and `Bot` go by the bot flag, `Admin` by
/// the admin flag; a superuser holds every role.
pub open spec fn holds_role(is_admin: bool, is_bot: bool, is_superuser: bool, role: Role) -> bool {
    is_superuser || match role {
        Role::Public => true,
        Role::Editor => true,
        Role::Human => !is_bot,
        Role::Bot => is_bot,
        Role::Admin => is_admin,
        Role::Superuser => false,
    }
}

/// Place of a role in the order of privilege; `Human` and `Bot` share a place.
pub open spec fn role_rank(role: Role) -> int {
    match role {
        Role::Public => 0,
        Role::Human => 1,
        Role::Bot => 1,
        Role::Editor => 2,
        Role::Admin => 3,
        Role::Superuser => 4,
    }
}

/// Whoever holds a role holds every role below it, but for `Human` and
/// `Bot`, which go by the bot flag alone: a superuser is an admin, an admin
/// an editor, and everyone, bot or human, is an editor and of the public.
pub proof fn lemma_roles_nest(is_admin: bool, is_bot: bool, is_superuser: bool, a: Role, b: Role)
    requires
        holds_role(is_admin, is_bot, is_superuser, a),
        role_rank(b) <= role_rank(a),
        (b != Role::Human && b != Role::Bot) || a == b,
    ensures
        holds_role(is_admin, is_bot, is_superuser, b),
        holds_role(is_admin, is_bot, is_superuser, Role::Editor),
        holds_role(is_admin, is_bot, is_superuser, Role::Human) != holds_role(
            is_admin,
            is_bot,
            is_superuser,
            Role::Bot,
        ) || is_superuser,
{
}

/// The verdict on a credential: the editor it authenticates, or the error.
pub open spec fn auth_verdict(c: CatalogView, cred: Credential, now: i64) -> Result<
    AuthContext,
    ErrorView,
> {
    match cred {
        Credential::Missing => Err(ErrorView::InvalidCredentials),
        Credential::Malformed => Err(ErrorView::BadToken),
        Credential::BadSignature => Err(ErrorView::BadToken),
        Credential::Verified(claims) => {
            if !c.has_editor(claims.editor_id) {
                Err(ErrorView::NotFound(Resource::Editor(claims.editor_id)))
            } else if claims.issued_at < c.editor(claims.editor_id).auth_epoch {
                Err(ErrorView::InvalidCredentials)
            } else if claims.expires_at is Some && claims.expires_at->0 <= now {
                Err(ErrorView::InvalidCredentials)
            } else {
                let e = c.editor(claims.editor_id);
                Ok(
                    AuthContext {
                        editor_id: claims.editor_id,
                        is_admin: e.is_admin,
                        is_bot: e.is_bot,
                        is_superuser: e.is_superuser,
                    },
                )
            }
        },
    }
}

/// The verdict on an editor who wants to edit in an editgroup: the editgroup
/// must exist and be open, and the editor must own it or be an admin.
pub open spec fn editgroup_verdict(c: CatalogView, auth: AuthContext, g: u128) -> Result<
    (),
    ErrorView,
> {
    if !c.has_editgroup(g) {
        Err(ErrorView::NotFound(Resource::Editgroup(g)))
    } else if c.editgroup(g).changelog_id is Some {
        Err(ErrorView::EditgroupAlreadyAccepted)
    } else if c.editgroup(g).editor_id != auth.editor_id && !holds_role(
        auth.is_admin,
        auth.is_bot,
        auth.is_superuser,
        Role::Admin,
    ) {
        Err(ErrorView::InsufficientPrivileges(Role::Admin))
    } else {
        Ok(())
    }
}

/// The role that a name stands for, whatever the case of its letters.
pub open spec fn role_of_name(s: Seq<char>) -> Option<Role> {
    if !is_ascii_chars(s) {
        None
    } else if lower_text(s) == "superuser"@ {
        Some(Role::Superuser)
    } else if lower_text(s) == "admin"@ {
        Some(Role::Admin)
    } else if lower_text(s) == "editor"@ {
        Some(Role::Editor)
    } else if lower_text(s) == "bot"@ {
        Some(Role::Bot)
    } else if lower_text(s) == "human"@ {
        Some(Role::Human)
    } else if lower_text(s) == "public"@ {
        Some(Role::Public)
    } else {
        None
    }
}

/// Reads the name of a role.
pub fn parse_role(s: &str) -> (r: Option<Role>)
    ensures
        r == role_of_name(s@),
{
    if !s.is_ascii() {
        return None;
    }
    let low = ascii_lower(s);
    let l = low.as_str();
    if text_eq(l, "superuser") {
        Some(Role::Superuser)
    } else if text_eq(l, "admin") {
        Some(Role::Admin)
    } else if text_eq(l, "editor") {
        Some(Role::Editor)
    } else if text_eq(l, "bot") {
        Some(Role::Bot)
    } else if text_eq(l, "human") {
        Some(Role::Human)
    } else if text_eq(l, "public") {
        Some(Role::Public)
    } else {
        None
    }
}

impl AuthContext {
    /// Whether the editor holds `role`.
    pub open spec fn spec_has_role(self, role: Role) -> bool {
        holds_role(self.is_admin, self.is_bot, self.is_superuser, role)
    }

    /// Whether the editor holds `role`.
    pub fn has_role(&self, role: Role) -> (b: bool)
        ensures
            b == self.spec_has_role(role),
    {
        if self.is_superuser {
            return true;
        }
        match role {
            Role::Public => true,
            Role::Editor => true,
            Role::Human => !self.is_bot,
            Role::Bot => self.is_bot,
            Role::Admin => self.is_admin,
            Role::Superuser => false,
        }
    }

    /// Succeeds where the editor holds `role`; fails with
    /// `InsufficientPrivileges(role)` where not.
    pub fn require_role(&self, role: Role) -> (r: Result<(), FatcatError>)
        ensures
            r is Ok <==> self.spec_has_role(role),
            r is Err ==> r->Err_0@ == ErrorView::InsufficientPrivileges(role),
    {
        if self.has_role(role) {
            Ok(())
        } else {
            Err(FatcatError::InsufficientPrivileges(role))
        }
    }
}

impl Catalog {
    /// Authenticates a request: the token must be well formed and signed, its
    /// editor must exist, and it must be neither revoked nor expired.
    pub fn require_auth(&self, cred: &Credential, now: i64) -> (r: Result<AuthContext, FatcatError>)
        ensures
            match r {
                Ok(a) => auth_verdict(self@, *cred, now) == Ok::<AuthContext, ErrorView>(a),
                Err(e) => auth_verdict(self@, *cred, now) == Err::<AuthContext, ErrorView>(e@),
            },
    {
        match cred {
            Credential::Missing => Err(FatcatError::InvalidCredentials),
            Credential::Malformed => Err(FatcatError::BadToken),
            Credential::BadSignature => Err(FatcatError::BadToken),
            Credential::Verified(claims) => {
                match self.editor_place(claims.editor_id) {
                    None => Err(FatcatError::NotFound(Resource::Editor(claims.editor_id))),
                    Some(i) => {
                        let e = &self.editors[i];
                        assert(self@.editor(claims.editor_id) == e@);
                        if claims.issued_at < e.auth_epoch {
                            Err(FatcatError::InvalidCredentials)
                        } else if claims.expires_at.is_some() && claims.expires_at.unwrap() <= now {
                            Err(FatcatError::InvalidCredentials)
                        } else {
                            Ok(
                                AuthContext {
                                    editor_id: claims.editor_id,
                                    is_admin: e.is_admin,
                                    is_bot: e.is_bot,
                                    is_superuser: e.is_superuser,
                                },
                            )
                        }
                    },
                }
            },
        }
    }

    /// Checks that the editor may edit in editgroup `g`.
    pub fn require_editgroup(&self, auth: &AuthContext, g: u128) -> (r: Result<(), FatcatError>)
        ensures
            match r {
                Ok(_) => editgroup_verdict(self@, *auth, g) is Ok,
                Err(e) => editgroup_verdict(self@, *auth, g) == Err::<(), ErrorView>(e@),
            },
    {
        match self.editgroup_place(g) {
            None => Err(FatcatError::NotFound(Resource::Editgroup(g))),
            Some(i) => {
                let eg = &self.editgroups[i];
                assert(self@.editgroup(g) == eg@);
                if eg.changelog_id.is_some() {
                    Err(FatcatError::EditgroupAlreadyAccepted)
                } else if eg.editor_id != auth.editor_id && !auth.has_role(Role::Admin) {
                    Err(FatcatError::InsufficientPrivileges(Role::Admin))
                } else {
                    Ok(())
                }
            },
        }
    }
}

} // verus!

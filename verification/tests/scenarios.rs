use fatcat::auth::{AuthContext, Credential, TokenClaims};
use fatcat::catalog::Catalog;
use fatcat::editing::EditContext;
use fatcat::errors::{EntityType, ExtIdKind, FatcatError, Resource, Role};
use fatcat::flags::HideFlags;
use fatcat::model::{EntityContent, ExternalId, IdentRow};
use fatcat::reading::Found;

const RELEASE: EntityType = EntityType::Release;

fn release(title: &str, doi: &str) -> EntityContent {
    let mut c = EntityContent::titled(title);
    c.ext_ids.push(ExternalId { kind: ExtIdKind::Doi, value: doi.to_string() });
    c
}

/// A catalog with an editor `eda` (id 1), an editor `edb` (id 2) and an admin `adm` (id 3).
fn catalog() -> Catalog {
    let mut c = Catalog::new();
    assert_eq!(c.create_editor("eda", false, false, false, 100), Ok(1));
    assert_eq!(c.create_editor("edb", false, false, false, 100), Ok(2));
    assert_eq!(c.create_editor("adm", true, false, false, 100), Ok(3));
    c
}

fn open_group(c: &mut Catalog, editor: u128) -> EditContext {
    let g = c.create_editgroup(editor, &None, &None, 200).unwrap();
    c.make_edit_context(editor, Some(g.editgroup_id), false, 200).unwrap()
}

/// Creates a release in an editgroup of its own and accepts it; returns its identifier.
fn live_release(c: &mut Catalog, title: &str, doi: &str) -> u128 {
    let ctx = open_group(c, 1);
    let edit = c.create_entity(&ctx, RELEASE, release(title, doi)).unwrap();
    c.accept_editgroup(ctx.editgroup_id, 300).unwrap();
    edit.ident
}

fn entity_of(found: Found) -> fatcat::reading::Entity {
    match found {
        Found::Entity(e) => e,
        other => panic!("not an entity: {:?}", other),
    }
}

#[test]
fn create_and_accept() {
    let mut c = catalog();
    let before = c.changelog_len();
    let ctx = open_group(&mut c, 1);
    let edit = c.create_entity(&ctx, RELEASE, release("Foo", "10.1/foo")).unwrap();
    assert_eq!(edit.editgroup_id, ctx.editgroup_id);
    assert_eq!(edit.prev_rev, None);
    let wip = entity_of(c.get_entity(RELEASE, edit.ident, HideFlags::none()).unwrap());
    assert!(!wip.ident.unwrap().is_live);

    let id = c.accept_editgroup(ctx.editgroup_id, 300).unwrap();
    assert_eq!(id as usize, before + 1);
    assert_eq!(c.changelog_len(), before + 1);

    let got = entity_of(c.get_entity(RELEASE, edit.ident, HideFlags::none()).unwrap());
    assert_eq!(
        got.ident,
        Some(IdentRow {
            entity_type: RELEASE,
            ident: edit.ident,
            is_live: true,
            rev_id: edit.rev_id,
            redirect_id: None,
        })
    );
    assert_eq!(got.content, release("Foo", "10.1/foo"));
    let looked = c.lookup_entity(RELEASE, ExtIdKind::Doi, "10.1/foo", HideFlags::none()).unwrap();
    assert_eq!(looked, got);
    let log = c.get_changelog(None);
    assert_eq!(log[0].id, id);
    assert_eq!(log[0].editgroup_id, ctx.editgroup_id);
    assert_eq!(log[0].timestamp, 300);
}

#[test]
fn duplicate_doi_at_accept() {
    let mut c = catalog();
    let eg2 = open_group(&mut c, 1);
    let eg3 = open_group(&mut c, 2);
    c.create_entity(&eg2, RELEASE, release("A", "10.1/dup")).unwrap();
    c.create_entity(&eg3, RELEASE, release("B", "10.1/dup")).unwrap();
    assert!(c.accept_editgroup(eg2.editgroup_id, 300).is_ok());
    assert_eq!(
        c.accept_editgroup(eg3.editgroup_id, 301),
        Err(FatcatError::DuplicateExternalId(ExtIdKind::Doi, "10.1/dup".to_string()))
    );
    // the refused editgroup is still open and nothing of it is visible
    assert_eq!(c.get_editgroup(eg3.editgroup_id).unwrap().changelog_id, None);
    assert_eq!(c.changelog_len(), 1);
    assert!(c.check_context(&eg3).is_ok());
}

#[test]
fn edit_conflict() {
    let mut c = catalog();
    let r1 = live_release(&mut c, "R1", "10.1/r1");
    let rev_a = entity_of(c.get_entity(RELEASE, r1, HideFlags::none()).unwrap()).revision;

    let eg4 = open_group(&mut c, 1);
    let eg5 = open_group(&mut c, 2);
    let to_b = c
        .update_entity(&eg4, RELEASE, r1, Some(rev_a), None, release("R1 b", "10.1/r1"))
        .unwrap();
    let to_c = c
        .update_entity(&eg5, RELEASE, r1, Some(rev_a), None, release("R1 c", "10.1/r1"))
        .unwrap();
    assert_eq!(to_b.prev_rev, Some(rev_a));
    assert_eq!(to_c.prev_rev, Some(rev_a));

    assert!(c.accept_editgroup(eg4.editgroup_id, 400).is_ok());
    let now = entity_of(c.get_entity(RELEASE, r1, HideFlags::none()).unwrap());
    assert_eq!(Some(now.revision), to_b.rev_id);
    assert_eq!(c.accept_editgroup(eg5.editgroup_id, 401), Err(FatcatError::EditConflict(r1)));
    let still = entity_of(c.get_entity(RELEASE, r1, HideFlags::none()).unwrap());
    assert_eq!(still, now);
}

#[test]
fn redirect_and_lookup_passthrough() {
    let mut c = catalog();
    let r1 = live_release(&mut c, "R1", "10.1/r1");
    let r2 = live_release(&mut c, "R2", "10.1/r2");
    let rev2 = entity_of(c.get_entity(RELEASE, r2, HideFlags::none()).unwrap()).revision;

    let ctx = open_group(&mut c, 1);
    let edit = c
        .update_entity(&ctx, RELEASE, r2, Some(rev2), Some(r1), EntityContent::titled(""))
        .unwrap();
    assert_eq!(edit.rev_id, None);
    assert_eq!(edit.redirect_id, Some(r1));
    c.accept_editgroup(ctx.editgroup_id, 500).unwrap();

    assert_eq!(c.get_entity(RELEASE, r2, HideFlags::none()), Ok(Found::Redirect(r1)));
    let r1_entity = entity_of(c.get_entity(RELEASE, r1, HideFlags::none()).unwrap());
    let via_r2 = c.lookup_entity(RELEASE, ExtIdKind::Doi, "10.1/r2", HideFlags::none()).unwrap();
    assert_eq!(via_r2, r1_entity);
    assert_eq!(c.get_redirects(RELEASE, r1), Ok(vec![r2]));
    assert_eq!(c.get_redirects(RELEASE, r2), Ok(vec![]));
}

#[test]
fn delete_then_recreate() {
    let mut c = catalog();
    let r1 = live_release(&mut c, "Foo", "10.1/foo");
    let eg6 = open_group(&mut c, 1);
    let edit = c.delete_entity(&eg6, RELEASE, r1).unwrap();
    assert_eq!((edit.rev_id, edit.redirect_id), (None, None));
    c.accept_editgroup(eg6.editgroup_id, 600).unwrap();
    assert_eq!(c.get_entity(RELEASE, r1, HideFlags::none()), Ok(Found::Deleted));
    assert_eq!(
        c.lookup_entity(RELEASE, ExtIdKind::Doi, "10.1/foo", HideFlags::none()),
        Err(FatcatError::NotFound(Resource::ExternalId(RELEASE, ExtIdKind::Doi)))
    );

    let eg7 = open_group(&mut c, 1);
    let again = c.create_entity(&eg7, RELEASE, release("Foo again", "10.1/foo")).unwrap();
    assert_ne!(again.ident, r1);
    assert!(c.accept_editgroup(eg7.editgroup_id, 601).is_ok());
    let found = c.lookup_entity(RELEASE, ExtIdKind::Doi, "10.1/foo", HideFlags::none()).unwrap();
    assert_eq!(found.ident.unwrap().ident, again.ident);
    // the deleted identifier stays reserved
    assert_eq!(c.get_entity(RELEASE, r1, HideFlags::none()), Ok(Found::Deleted));
}

#[test]
fn editgroup_ownership() {
    let mut c = catalog();
    let eg1 = c.create_editgroup(1, &None, &None, 200).unwrap().editgroup_id;
    let edb = AuthContext { editor_id: 2, is_admin: false, is_bot: false, is_superuser: false };
    let adm = AuthContext { editor_id: 3, is_admin: true, is_bot: false, is_superuser: false };
    assert_eq!(
        c.require_editgroup(&edb, eg1),
        Err(FatcatError::InsufficientPrivileges(Role::Admin))
    );
    assert_eq!(
        c.make_edit_context(2, Some(eg1), false, 201),
        Err(FatcatError::InsufficientPrivileges(Role::Admin))
    );
    assert_eq!(c.require_editgroup(&adm, eg1), Ok(()));
    let ctx = c.make_edit_context(3, Some(eg1), false, 201).unwrap();
    assert!(c.create_entity(&ctx, RELEASE, release("Foo", "10.1/foo")).is_ok());
}

#[test]
fn token_revocation() {
    let mut c = catalog();
    let t1 = Credential::Verified(TokenClaims { editor_id: 1, issued_at: 150, expires_at: None });
    assert!(c.require_auth(&t1, 160).is_ok());
    assert_eq!(c.revoke_tokens(1, 170), Ok(()));
    assert_eq!(c.require_auth(&t1, 180), Err(FatcatError::InvalidCredentials));
    // a token issued at the new epoch, or later, is accepted
    let t2 = Credential::Verified(TokenClaims { editor_id: 1, issued_at: 170, expires_at: None });
    assert!(c.require_auth(&t2, 180).is_ok());
}

#[test]
fn update_then_history_lists_both_newest_first() {
    let mut c = catalog();
    let ctx = open_group(&mut c, 1);
    let first = c.create_entity(&ctx, RELEASE, release("v1", "10.1/h")).unwrap();
    let cl1 = c.accept_editgroup(ctx.editgroup_id, 300).unwrap();
    let ctx2 = open_group(&mut c, 1);
    let second = c
        .update_entity(&ctx2, RELEASE, first.ident, first.rev_id, None, release("v2", "10.1/h"))
        .unwrap();
    let cl2 = c.accept_editgroup(ctx2.editgroup_id, 400).unwrap();
    assert_eq!(cl2, cl1 + 1);

    let got = entity_of(c.get_entity(RELEASE, first.ident, HideFlags::none()).unwrap());
    assert_eq!(Some(got.revision), second.rev_id);
    assert_eq!(got.content.title, "v2");

    let h = c.get_history(RELEASE, first.ident, None).unwrap();
    assert_eq!(h.len(), 2);
    assert_eq!((h[0].changelog_id, h[0].edit), (cl2, second));
    assert_eq!((h[1].changelog_id, h[1].edit), (cl1, first));
    assert_eq!(h[0].editgroup.changelog_id, Some(cl2));
    let limited = c.get_history(RELEASE, first.ident, Some(1)).unwrap();
    assert_eq!(limited.len(), 1);
    assert_eq!(limited[0].edit, second);
    assert_eq!(c.get_history(RELEASE, first.ident, Some(0)).unwrap().len(), 0);
    assert_eq!(c.get_history(RELEASE, first.ident, Some(-3)).unwrap().len(), 0);
    assert_eq!(c.get_history(RELEASE, first.ident, Some(9)).unwrap().len(), 2);
}

#[test]
fn the_old_revision_stays_readable_after_an_update() {
    let mut c = catalog();
    let r = live_release(&mut c, "v1", "10.1/keep");
    let rev1 = entity_of(c.get_entity(RELEASE, r, HideFlags::none()).unwrap()).revision;
    let ctx = open_group(&mut c, 1);
    c.update_entity(&ctx, RELEASE, r, Some(rev1), None, release("v2", "10.1/keep")).unwrap();
    c.accept_editgroup(ctx.editgroup_id, 400).unwrap();
    let old = c.get_revision(RELEASE, rev1, HideFlags::none()).unwrap();
    assert_eq!(old.content.title, "v1");
    assert_eq!(old.ident, None);
    assert_eq!(
        c.get_revision(EntityType::File, rev1, HideFlags::none()),
        Err(FatcatError::NotFound(Resource::Revision(EntityType::File, rev1)))
    );
}

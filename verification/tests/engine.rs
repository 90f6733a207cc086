use fatcat::auth::{AuthContext, Credential, TokenClaims};
use fatcat::catalog::Catalog;
use fatcat::editing::EditContext;
use fatcat::errors::{EntityType, ExtIdKind, FatcatError, Resource, Role};
use fatcat::flags::{ExpandFlags, HideFlags};
use fatcat::model::{EntityContent, ExternalId};
use fatcat::reading::{Entity, Found};

const RELEASE: EntityType = EntityType::Release;

fn with_id(title: &str, kind: ExtIdKind, value: &str) -> EntityContent {
    let mut c = EntityContent::titled(title);
    c.ext_ids.push(ExternalId { kind, value: value.to_string() });
    c
}

fn release(title: &str, doi: &str) -> EntityContent {
    with_id(title, ExtIdKind::Doi, doi)
}

fn setup() -> (Catalog, EditContext) {
    let mut c = Catalog::new();
    c.create_editor("eda", false, false, false, 100).unwrap();
    c.create_editor("adm", true, false, false, 100).unwrap();
    let ctx = open_group(&mut c);
    (c, ctx)
}

fn open_group(c: &mut Catalog) -> EditContext {
    let g = c.create_editgroup(1, &None, &None, 200).unwrap();
    c.make_edit_context(1, Some(g.editgroup_id), false, 200).unwrap()
}

fn live(c: &mut Catalog, t: EntityType, content: EntityContent) -> u128 {
    let ctx = open_group(c);
    let e = c.create_entity(&ctx, t, content).unwrap();
    c.accept_editgroup(ctx.editgroup_id, 300).unwrap();
    e.ident
}

fn entity(c: &Catalog, t: EntityType, id: u128) -> Entity {
    match c.get_entity(t, id, HideFlags::none()).unwrap() {
        Found::Entity(e) => e,
        other => panic!("{:?}", other),
    }
}

fn redirect(c: &mut Catalog, from: u128, to: u128) -> Result<i64, FatcatError> {
    let ctx = open_group(c);
    let rev = match c.get_entity(RELEASE, from, HideFlags::none()).unwrap() {
        Found::Entity(e) => Some(e.revision),
        _ => None,
    };
    c.update_entity(&ctx, RELEASE, from, rev, Some(to), EntityContent::titled("")).unwrap();
    c.accept_editgroup(ctx.editgroup_id, 400)
}

#[test]
fn an_edit_context_needs_an_editgroup_or_autoaccept() {
    let (mut c, _) = setup();
    assert_eq!(c.make_edit_context(1, None, false, 1), Err(FatcatError::EditgroupRequired));
    assert_eq!(
        c.make_edit_context(9, None, true, 1),
        Err(FatcatError::NotFound(Resource::Editor(9)))
    );
    assert_eq!(
        c.make_edit_context(1, Some(9), false, 1),
        Err(FatcatError::NotFound(Resource::Editgroup(9)))
    );
    let ctx = c.make_edit_context(1, None, true, 500).unwrap();
    assert_eq!(ctx, EditContext { editor_id: 1, editgroup_id: 2, autoaccept: true });
    let g = c.get_editgroup(2).unwrap();
    assert_eq!((g.editor_id, g.created_at, g.changelog_id), (1, 500, None));
    c.accept_editgroup(2, 501).unwrap();
    assert_eq!(
        c.make_edit_context(1, Some(2), false, 502),
        Err(FatcatError::EditgroupAlreadyAccepted)
    );
    assert_eq!(c.check_context(&ctx), Err(FatcatError::EditgroupAlreadyAccepted));
}

#[test]
fn no_edit_goes_into_an_accepted_editgroup() {
    let (mut c, ctx) = setup();
    let e = c.create_entity(&ctx, RELEASE, release("a", "10.1/a")).unwrap();
    c.accept_editgroup(ctx.editgroup_id, 300).unwrap();
    let closed = FatcatError::EditgroupAlreadyAccepted;
    assert_eq!(c.create_entity(&ctx, RELEASE, release("b", "10.1/b")), Err(closed.clone()));
    assert_eq!(
        c.update_entity(&ctx, RELEASE, e.ident, e.rev_id, None, release("b", "10.1/b")),
        Err(closed.clone())
    );
    assert_eq!(c.delete_entity(&ctx, RELEASE, e.ident), Err(closed.clone()));
    assert_eq!(c.delete_edit(RELEASE, e.edit_id), Err(closed.clone()));
    assert_eq!(c.accept_editgroup(ctx.editgroup_id, 301), Err(closed.clone()));
    assert_eq!(c.submit_editgroup(ctx.editgroup_id, 302), Err(closed));
    assert_eq!(c.changelog_len(), 1);
}

#[test]
fn submission_is_a_marker_only() {
    let (mut c, ctx) = setup();
    assert_eq!(c.submit_editgroup(ctx.editgroup_id, 250), Ok(()));
    assert_eq!(c.get_editgroup(ctx.editgroup_id).unwrap().submitted_at, Some(250));
    assert!(c.create_entity(&ctx, RELEASE, release("a", "10.1/a")).is_ok());
    assert!(c.accept_editgroup(ctx.editgroup_id, 300).is_ok());
    assert_eq!(c.submit_editgroup(77, 1), Err(FatcatError::NotFound(Resource::Editgroup(77))));
}

#[test]
fn content_is_checked_before_anything_is_written() {
    let (mut c, ctx) = setup();
    assert_eq!(
        c.create_entity(&ctx, RELEASE, release("a", "doi:10.1/a")),
        Err(FatcatError::MalformedExternalId(ExtIdKind::Doi))
    );
    assert_eq!(
        c.create_entity(&ctx, EntityType::Creator, with_id("a", ExtIdKind::Orcid, "0000-0002-1825-0090")),
        Err(FatcatError::MalformedChecksum(ExtIdKind::Orcid))
    );
    assert_eq!(
        c.create_entity(&ctx, EntityType::Work, release("a", "10.1/a")),
        Err(FatcatError::OtherBadRequest(
            "external identifier does not apply to this entity type".to_string()
        ))
    );
    let mut twice = release("a", "10.1/a");
    twice.ext_ids.push(ExternalId { kind: ExtIdKind::Doi, value: "10.1/b".to_string() });
    assert_eq!(
        c.create_entity(&ctx, RELEASE, twice),
        Err(FatcatError::OtherBadRequest("external identifier given twice".to_string()))
    );
    // the first error in the order of the list is the one
    let mut two = with_id("a", ExtIdKind::Pmid, "x1");
    two.ext_ids.push(ExternalId { kind: ExtIdKind::Doi, value: "nope".to_string() });
    assert_eq!(
        c.create_entity(&ctx, RELEASE, two),
        Err(FatcatError::MalformedExternalId(ExtIdKind::Pmid))
    );
    assert_eq!(
        c.get_entity(RELEASE, 1, HideFlags::none()),
        Err(FatcatError::NotFound(Resource::Entity(RELEASE, 1)))
    );
    assert!(c.get_group_edits(ctx.editgroup_id).is_empty());
}

#[test]
fn updates_need_a_live_entity_and_the_revision_that_was_seen() {
    let (mut c, ctx) = setup();
    let wip = c.create_entity(&ctx, RELEASE, release("a", "10.1/a")).unwrap();
    let not_live = Err(FatcatError::OtherBadRequest("entity is not live".to_string()));
    assert_eq!(c.update_entity(&ctx, RELEASE, wip.ident, wip.rev_id, None, release("b", "10.1/a")), not_live);
    assert_eq!(c.delete_entity(&ctx, RELEASE, wip.ident), not_live);
    c.accept_editgroup(ctx.editgroup_id, 300).unwrap();

    let ctx = open_group(&mut c);
    assert_eq!(
        c.update_entity(&ctx, RELEASE, 42, None, None, release("b", "10.1/b")),
        Err(FatcatError::NotFound(Resource::Entity(RELEASE, 42)))
    );
    assert_eq!(
        c.update_entity(&ctx, EntityType::File, wip.ident, wip.rev_id, None, EntityContent::titled("f")),
        Err(FatcatError::NotFound(Resource::Entity(EntityType::File, wip.ident)))
    );
    assert_eq!(
        c.update_entity(&ctx, RELEASE, wip.ident, None, None, release("b", "10.1/a")),
        Err(FatcatError::EditConflict(wip.ident))
    );
    assert_eq!(
        c.update_entity(&ctx, RELEASE, wip.ident, Some(99), None, release("b", "10.1/a")),
        Err(FatcatError::EditConflict(wip.ident))
    );
    assert_eq!(
        c.update_entity(&ctx, RELEASE, wip.ident, wip.rev_id, Some(wip.ident), release("b", "10.1/a")),
        Err(FatcatError::BadRedirect)
    );
    assert_eq!(
        c.update_entity(&ctx, RELEASE, wip.ident, wip.rev_id, Some(42), release("b", "10.1/a")),
        Err(FatcatError::BadRedirect)
    );
    assert!(c.get_group_edits(ctx.editgroup_id).is_empty());
}

#[test]
fn a_second_update_in_an_editgroup_replaces_the_first() {
    let (mut c, _) = setup();
    let r = live(&mut c, RELEASE, release("v1", "10.1/r"));
    let rev1 = entity(&c, RELEASE, r).revision;
    let ctx = open_group(&mut c);
    let first = c.update_entity(&ctx, RELEASE, r, Some(rev1), None, release("v2", "10.1/r")).unwrap();
    let second = c.update_entity(&ctx, RELEASE, r, Some(rev1), None, release("v3", "10.1/r")).unwrap();
    assert_eq!(second.edit_id, first.edit_id);
    assert_ne!(second.rev_id, first.rev_id);
    assert_eq!(c.get_group_edits(ctx.editgroup_id), vec![second]);
    assert_eq!(c.get_edit(RELEASE, first.edit_id), Ok(second));
    // a deletion replaces it as well
    let third = c.delete_entity(&ctx, RELEASE, r).unwrap();
    assert_eq!(third.edit_id, first.edit_id);
    assert_eq!(c.get_group_edits(ctx.editgroup_id), vec![third]);
    // until acceptance the entity is as it was
    assert_eq!(entity(&c, RELEASE, r).revision, rev1);
    c.accept_editgroup(ctx.editgroup_id, 400).unwrap();
    assert_eq!(c.get_entity(RELEASE, r, HideFlags::none()), Ok(Found::Deleted));
}

#[test]
fn an_entity_is_created_again_in_its_editgroup() {
    let (mut c, ctx) = setup();
    let first = c.create_entity(&ctx, RELEASE, release("v1", "10.1/a")).unwrap();
    let again = c.recreate_entity(&ctx, RELEASE, first.ident, release("v2", "10.1/b")).unwrap();
    assert_eq!((again.edit_id, again.ident), (first.edit_id, first.ident));
    assert_ne!(again.rev_id, first.rev_id);
    assert_eq!(c.get_group_edits(ctx.editgroup_id), vec![again]);
    let e = entity(&c, RELEASE, first.ident);
    assert_eq!(e.content.title, "v2");
    assert!(!e.ident.unwrap().is_live);

    let other = open_group(&mut c);
    assert_eq!(
        c.recreate_entity(&other, RELEASE, first.ident, release("v3", "10.1/c")),
        Err(FatcatError::OtherBadRequest("entity was not created in this editgroup".to_string()))
    );
    assert_eq!(
        c.recreate_entity(&ctx, RELEASE, 9, release("v3", "10.1/c")),
        Err(FatcatError::NotFound(Resource::Entity(RELEASE, 9)))
    );
    c.accept_editgroup(ctx.editgroup_id, 300).unwrap();
    assert_eq!(entity(&c, RELEASE, first.ident).content.title, "v2");
    assert_eq!(
        c.recreate_entity(&other, RELEASE, first.ident, release("v3", "10.1/c")),
        Err(FatcatError::OtherBadRequest("entity is live".to_string()))
    );
    assert_eq!(
        c.lookup_entity(RELEASE, ExtIdKind::Doi, "10.1/a", HideFlags::none()),
        Err(FatcatError::NotFound(Resource::ExternalId(RELEASE, ExtIdKind::Doi)))
    );
}

#[test]
fn the_first_conflict_in_the_order_of_types_and_identifiers_is_reported() {
    let (mut c, _) = setup();
    let work = live(&mut c, EntityType::Work, EntityContent::titled("w"));
    let rel = live(&mut c, RELEASE, release("r", "10.1/r"));
    let cont = live(&mut c, EntityType::Container, EntityContent::titled("c"));
    assert!(work < rel && rel < cont);
    let stale = open_group(&mut c);
    for (t, id) in [(EntityType::Work, work), (RELEASE, rel), (EntityType::Container, cont)] {
        let rev = entity(&c, t, id).revision;
        c.update_entity(&stale, t, id, Some(rev), None, EntityContent::titled("stale")).unwrap();
    }
    let fresh = open_group(&mut c);
    for (t, id) in [(EntityType::Work, work), (RELEASE, rel), (EntityType::Container, cont)] {
        let rev = entity(&c, t, id).revision;
        c.update_entity(&fresh, t, id, Some(rev), None, EntityContent::titled("fresh")).unwrap();
    }
    c.accept_editgroup(fresh.editgroup_id, 400).unwrap();
    // containers come before releases and works, whatever their identifiers
    assert_eq!(c.accept_editgroup(stale.editgroup_id, 401), Err(FatcatError::EditConflict(cont)));
}

#[test]
fn redirects_do_not_chain() {
    let (mut c, _) = setup();
    let r1 = live(&mut c, RELEASE, release("r1", "10.1/r1"));
    let r2 = live(&mut c, RELEASE, release("r2", "10.1/r2"));
    let r3 = live(&mut c, RELEASE, release("r3", "10.1/r3"));
    assert!(redirect(&mut c, r2, r1).is_ok());
    // r1 may not become a redirect while r2 redirects to it
    assert_eq!(redirect(&mut c, r1, r3), Err(FatcatError::BadRedirect));
    assert_eq!(entity(&c, RELEASE, r1).content.title, "r1");
    // and nothing may redirect to r2, which redirects
    assert_eq!(redirect(&mut c, r3, r2), Err(FatcatError::BadRedirect));
    assert_eq!(c.get_redirects(RELEASE, r1), Ok(vec![r2]));
}

#[test]
fn a_redirect_needs_a_live_target() {
    let (mut c, ctx) = setup();
    let wip = c.create_entity(&ctx, RELEASE, release("wip", "10.1/w")).unwrap().ident;
    let r = live(&mut c, RELEASE, release("r", "10.1/r"));
    assert_eq!(redirect(&mut c, r, wip), Err(FatcatError::BadRedirect));
    // once the target is live, the same redirect is accepted
    c.accept_editgroup(ctx.editgroup_id, 500).unwrap();
    assert!(redirect(&mut c, r, wip).is_ok());
    assert_eq!(c.get_entity(RELEASE, r, HideFlags::none()), Ok(Found::Redirect(wip)));
}

#[test]
fn a_redirect_to_an_entity_of_another_type_is_refused() {
    let (mut c, _) = setup();
    let r = live(&mut c, RELEASE, release("r", "10.1/r"));
    let w = live(&mut c, EntityType::Work, EntityContent::titled("w"));
    let ctx = open_group(&mut c);
    let rev = entity(&c, RELEASE, r).revision;
    assert_eq!(
        c.update_entity(&ctx, RELEASE, r, Some(rev), Some(w), EntityContent::titled("")),
        Err(FatcatError::BadRedirect)
    );
}

#[test]
fn lookups_that_lead_to_two_entities_are_refused() {
    let (mut c, _) = setup();
    let r1 = live(&mut c, RELEASE, release("r1", "10.1/r1"));
    let r2 = live(&mut c, RELEASE, release("r2", "10.1/r2"));
    redirect(&mut c, r2, r1).unwrap();
    // the identifier that r2 gave up is free again
    let r3 = live(&mut c, RELEASE, release("r3", "10.1/r2"));
    assert_ne!(r3, r1);
    assert_eq!(
        c.lookup_entity(RELEASE, ExtIdKind::Doi, "10.1/r2", HideFlags::none()),
        Err(FatcatError::MultipleMatches)
    );
    let one = c.lookup_entity(RELEASE, ExtIdKind::Doi, "10.1/r1", HideFlags::none()).unwrap();
    assert_eq!(one.ident.unwrap().ident, r1);
}

#[test]
fn a_redirect_to_a_deleted_entity_leads_nowhere() {
    let (mut c, _) = setup();
    let r1 = live(&mut c, RELEASE, release("r1", "10.1/r1"));
    let r2 = live(&mut c, RELEASE, release("r2", "10.1/r2"));
    redirect(&mut c, r2, r1).unwrap();
    let ctx = open_group(&mut c);
    c.delete_entity(&ctx, RELEASE, r1).unwrap();
    c.accept_editgroup(ctx.editgroup_id, 600).unwrap();
    assert_eq!(c.get_entity(RELEASE, r2, HideFlags::none()), Ok(Found::Redirect(r1)));
    assert_eq!(
        c.lookup_entity(RELEASE, ExtIdKind::Doi, "10.1/r2", HideFlags::none()),
        Err(FatcatError::NotFound(Resource::ExternalId(RELEASE, ExtIdKind::Doi)))
    );
}

#[test]
fn the_same_identifier_on_entities_of_two_types_is_no_duplicate() {
    let (mut c, _) = setup();
    let k = live(&mut c, EntityType::Creator, with_id("k", ExtIdKind::WikidataQid, "Q1"));
    let j = live(&mut c, EntityType::Container, with_id("j", ExtIdKind::WikidataQid, "Q1"));
    assert_ne!(k, j);
    let ctx = open_group(&mut c);
    c.create_entity(&ctx, EntityType::Creator, with_id("k2", ExtIdKind::WikidataQid, "Q1")).unwrap();
    assert_eq!(
        c.accept_editgroup(ctx.editgroup_id, 700),
        Err(FatcatError::DuplicateExternalId(ExtIdKind::WikidataQid, "Q1".to_string()))
    );
}

#[test]
fn two_creations_in_one_editgroup_may_not_share_an_identifier() {
    let (mut c, ctx) = setup();
    c.create_entity(&ctx, RELEASE, release("a", "10.1/same")).unwrap();
    c.create_entity(&ctx, RELEASE, release("b", "10.1/SAME")).unwrap();
    assert_eq!(
        c.accept_editgroup(ctx.editgroup_id, 300),
        Err(FatcatError::DuplicateExternalId(ExtIdKind::Doi, "10.1/same".to_string()))
    );
    // an update may keep its own identifier
    let r = live(&mut c, RELEASE, release("c", "10.1/keep"));
    let rev = entity(&c, RELEASE, r).revision;
    let ctx = open_group(&mut c);
    c.update_entity(&ctx, RELEASE, r, Some(rev), None, release("c2", "10.1/keep")).unwrap();
    assert!(c.accept_editgroup(ctx.editgroup_id, 301).is_ok());
}

#[test]
fn hidden_sub_resources_are_left_out_but_stay_stored() {
    let (mut c, _) = setup();
    let mut content = release("r", "10.1/r");
    content.contribs = Some(vec![7, 8]);
    content.refs = Some(vec![9]);
    content.abstracts = Some(vec!["an abstract".to_string()]);
    content.extra = Some("{\"k\":1}".to_string());
    let r = live(&mut c, RELEASE, content);
    let all = entity(&c, RELEASE, r);
    assert_eq!(all.content.contribs, Some(vec![7, 8]));
    assert_eq!(all.content.extra, Some("{\"k\":1}".to_string()));
    let hide = HideFlags { abstracts: true, refs: false, contribs: true };
    let some = match c.get_entity(RELEASE, r, hide).unwrap() {
        Found::Entity(e) => e,
        other => panic!("{:?}", other),
    };
    assert_eq!(some.content.abstracts, None);
    assert_eq!(some.content.contribs, None);
    assert_eq!(some.content.refs, Some(vec![9]));
    assert_eq!(some.content.title, "r");
    assert_eq!(entity(&c, RELEASE, r), all);
    let rev = c.get_revision(RELEASE, all.revision, HideFlags { abstracts: false, refs: true, contribs: false }).unwrap();
    assert_eq!(rev.content.refs, None);
    assert_eq!(rev.content.abstracts, Some(vec!["an abstract".to_string()]));
}

#[test]
fn expansion_attaches_related_entities_one_level_deep() {
    let (mut c, _) = setup();
    let cont = live(&mut c, EntityType::Container, with_id("journal", ExtIdKind::Issnl, "0378-5955"));
    let k1 = live(&mut c, EntityType::Creator, EntityContent::titled("k1"));
    let k2 = live(&mut c, EntityType::Creator, EntityContent::titled("k2"));
    let work = live(&mut c, EntityType::Work, EntityContent::titled("w"));
    let mut content = release("r", "10.1/r");
    content.container_id = Some(cont);
    content.work_id = Some(work);
    content.contribs = Some(vec![k2, 999, k1]);
    let rel = live(&mut c, RELEASE, content);
    let mut file = with_id("f", ExtIdKind::Sha1, "da39a3ee5e6b4b0d3255bfef95601890afd80709");
    file.release_ids = vec![rel, 999];
    let f1 = live(&mut c, EntityType::File, file);
    let mut other = EntityContent::titled("g");
    other.release_ids = vec![998];
    live(&mut c, EntityType::File, other);

    let e = entity(&c, RELEASE, rel);
    let flags = ExpandFlags::from_str("files,container,creator,filesets,releases").unwrap();
    let x = c.expand_entity(&e, flags, HideFlags::none());
    let titles = |v: &Option<Vec<Entity>>| -> Vec<String> {
        v.as_ref().unwrap().iter().map(|e| e.content.title.clone()).collect()
    };
    assert_eq!(titles(&x.files), vec!["f"]);
    assert_eq!(x.files.as_ref().unwrap()[0].ident.unwrap().ident, f1);
    assert_eq!(titles(&x.filesets), Vec::<String>::new());
    assert_eq!(x.webcaptures, None);
    assert_eq!(titles(&x.container), vec!["journal"]);
    assert_eq!(titles(&x.creators), vec!["k2", "k1"]);
    assert_eq!(x.releases, None);

    // what a file holds, and what refers to a work, a creator, a container
    let fe = entity(&c, EntityType::File, f1);
    let all = ExpandFlags::from_str("files,filesets,webcaptures,releases,container,creator,contribs,refs").unwrap();
    let fx = c.expand_entity(&fe, all, HideFlags::none());
    assert_eq!(titles(&fx.releases), vec!["r"]);
    assert_eq!((fx.files, fx.container, fx.creators), (None, None, None));
    for (t, id) in [(EntityType::Work, work), (EntityType::Creator, k1), (EntityType::Container, cont)] {
        let x = c.expand_entity(&entity(&c, t, id), all, HideFlags::none());
        assert_eq!(titles(&x.releases), vec!["r"]);
        assert_eq!(c.get_referrers(RELEASE, t, id, HideFlags::none()).unwrap().len(), 1);
    }
    assert_eq!(c.get_referrers(EntityType::File, RELEASE, rel, HideFlags::none()).unwrap().len(), 1);
    assert_eq!(
        c.get_referrers(EntityType::File, RELEASE, work, HideFlags::none()),
        Err(FatcatError::NotFound(Resource::Entity(RELEASE, work)))
    );
    // hiding the contributors does not hide the creators that were asked for
    let hide = HideFlags { abstracts: false, refs: false, contribs: true };
    let hidden = match c.get_entity(RELEASE, rel, hide).unwrap() {
        Found::Entity(e) => e,
        other => panic!("{:?}", other),
    };
    assert_eq!(hidden.content.contribs, None);
    assert_eq!(titles(&c.expand_entity(&hidden, flags, hide).creators), vec!["k2", "k1"]);
    assert_eq!(c.expand_entity(&e, ExpandFlags::none(), HideFlags::none()).files, None);
}

#[test]
fn roles() {
    let plain = AuthContext { editor_id: 1, is_admin: false, is_bot: false, is_superuser: false };
    let bot = AuthContext { is_bot: true, ..plain };
    let admin = AuthContext { is_admin: true, ..plain };
    let root = AuthContext { is_superuser: true, ..plain };
    let all = [Role::Public, Role::Human, Role::Bot, Role::Editor, Role::Admin, Role::Superuser];
    let held = |a: &AuthContext| -> Vec<bool> { all.iter().map(|r| a.has_role(*r)).collect() };
    assert_eq!(held(&plain), vec![true, true, false, true, false, false]);
    assert_eq!(held(&bot), vec![true, false, true, true, false, false]);
    assert_eq!(held(&admin), vec![true, true, false, true, true, false]);
    assert_eq!(held(&root), vec![true, true, true, true, true, true]);
    assert_eq!(plain.require_role(Role::Editor), Ok(()));
    assert_eq!(
        plain.require_role(Role::Superuser),
        Err(FatcatError::InsufficientPrivileges(Role::Superuser))
    );
}

#[test]
fn credentials() {
    let (c, _) = setup();
    assert_eq!(c.require_auth(&Credential::Missing, 1), Err(FatcatError::InvalidCredentials));
    assert_eq!(c.require_auth(&Credential::Malformed, 1), Err(FatcatError::BadToken));
    assert_eq!(c.require_auth(&Credential::BadSignature, 1), Err(FatcatError::BadToken));
    let claims = TokenClaims { editor_id: 2, issued_at: 100, expires_at: Some(1000) };
    assert_eq!(
        c.require_auth(&Credential::Verified(claims), 999),
        Ok(AuthContext { editor_id: 2, is_admin: true, is_bot: false, is_superuser: false })
    );
    assert_eq!(
        c.require_auth(&Credential::Verified(claims), 1000),
        Err(FatcatError::InvalidCredentials)
    );
    let unknown = TokenClaims { editor_id: 3, ..claims };
    assert_eq!(
        c.require_auth(&Credential::Verified(unknown), 1),
        Err(FatcatError::NotFound(Resource::Editor(3)))
    );
    let early = TokenClaims { issued_at: 99, ..claims };
    assert_eq!(c.require_auth(&Credential::Verified(early), 1), Err(FatcatError::InvalidCredentials));
}

#[test]
fn usernames_are_unique() {
    let (mut c, _) = setup();
    assert_eq!(
        c.create_editor("eda", false, false, false, 1),
        Err(FatcatError::DatabaseError("username is already taken".to_string()))
    );
    assert_eq!(c.create_editor("Eda", false, true, false, 1), Ok(3));
    let e = c.get_editor(3).unwrap();
    assert_eq!((e.username.as_str(), e.is_bot, e.auth_epoch), ("Eda", true, 1));
    assert_eq!(c.get_editor(4), Err(FatcatError::NotFound(Resource::Editor(4))));
}

#[test]
fn no_identifier_points_to_a_revision_and_to_another_identifier() {
    let (mut c, ctx) = setup();
    let r1 = live(&mut c, RELEASE, release("r1", "10.1/r1"));
    let r2 = live(&mut c, RELEASE, release("r2", "10.1/r2"));
    let wip = c.create_entity(&ctx, RELEASE, release("w", "10.1/w")).unwrap().ident;
    redirect(&mut c, r2, r1).unwrap();
    let ctx2 = open_group(&mut c);
    c.delete_entity(&ctx2, RELEASE, r1).unwrap();
    assert!(ctx.check(&c).is_ok());
    for id in [r1, r2, wip] {
        match c.get_entity(RELEASE, id, HideFlags::none()).unwrap() {
            Found::Entity(e) => {
                let row = e.ident.unwrap();
                assert_eq!(row.rev_id, Some(e.revision));
                assert_eq!(row.redirect_id, None);
            }
            Found::Redirect(t) => assert_eq!((id, t), (r2, r1)),
            Found::Deleted => panic!("nothing was deleted yet"),
        }
    }
}

#[test]
fn the_first_duplicate_in_the_order_of_types_and_identifiers_is_reported() {
    let (mut c, _) = setup();
    live(&mut c, RELEASE, release("r", "10.1/r"));
    live(&mut c, EntityType::Creator, with_id("k", ExtIdKind::Orcid, "0000-0002-1825-0097"));
    let ctx = open_group(&mut c);
    let mut two = with_id("r2", ExtIdKind::Pmid, "77");
    two.ext_ids.push(ExternalId { kind: ExtIdKind::Doi, value: "10.1/r".to_string() });
    c.create_entity(&ctx, RELEASE, two).unwrap();
    c.create_entity(&ctx, RELEASE, with_id("r3", ExtIdKind::Pmid, "77")).unwrap();
    c.create_entity(&ctx, EntityType::Creator, with_id("k2", ExtIdKind::Orcid, "0000-0002-1825-0097"))
        .unwrap();
    // creators come before releases
    assert_eq!(
        c.accept_editgroup(ctx.editgroup_id, 300),
        Err(FatcatError::DuplicateExternalId(ExtIdKind::Orcid, "0000-0002-1825-0097".to_string()))
    );
    // without the creator: of the first release, the first identifier that is shared
    c.delete_edit(EntityType::Creator, 5).unwrap();
    assert_eq!(
        c.accept_editgroup(ctx.editgroup_id, 301),
        Err(FatcatError::DuplicateExternalId(ExtIdKind::Pmid, "77".to_string()))
    );
}

#[test]
fn the_metadata_of_an_edit_follows_the_edit() {
    let (mut c, ctx) = setup();
    let mut first = release("v1", "10.1/m");
    first.edit_extra = Some("one".to_string());
    let made = c.create_entity(&ctx, RELEASE, first).unwrap();
    assert_eq!(c.read_edit(RELEASE, made.edit_id).unwrap().extra, Some("one".to_string()));
    // creating again replaces the edit and its metadata
    let mut again = release("v2", "10.1/m");
    again.edit_extra = Some("two".to_string());
    let remade = c.recreate_entity(&ctx, RELEASE, made.ident, again).unwrap();
    let read = c.read_edit(RELEASE, made.edit_id).unwrap();
    assert_eq!((read.row, read.extra), (remade, Some("two".to_string())));
    assert_eq!(entity(&c, RELEASE, made.ident).content.edit_extra, None);
    c.accept_editgroup(ctx.editgroup_id, 300).unwrap();
    assert_eq!(c.read_edit(RELEASE, made.edit_id).unwrap().extra, Some("two".to_string()));

    // an update keeps its own; a deletion in its place has none
    let ctx = open_group(&mut c);
    let mut third = release("v3", "10.1/m");
    third.edit_extra = Some("three".to_string());
    let up = c.update_entity(&ctx, RELEASE, made.ident, remade.rev_id, None, third).unwrap();
    assert_eq!(c.read_edit(RELEASE, up.edit_id).unwrap().extra, Some("three".to_string()));
    let del = c.delete_entity(&ctx, RELEASE, made.ident).unwrap();
    assert_eq!(del.edit_id, up.edit_id);
    assert_eq!(c.read_edit(RELEASE, up.edit_id).unwrap().extra, None);
    let mut fourth = release("v4", "10.1/m");
    fourth.edit_extra = Some("four".to_string());
    c.update_entity(&ctx, RELEASE, made.ident, remade.rev_id, None, fourth).unwrap();
    assert_eq!(c.read_edit(RELEASE, up.edit_id).unwrap().extra, Some("four".to_string()));
    // a removed edit is gone with its metadata
    c.delete_edit(RELEASE, up.edit_id).unwrap();
    assert_eq!(
        c.read_edit(RELEASE, up.edit_id),
        Err(FatcatError::NotFound(Resource::Edit(RELEASE, up.edit_id)))
    );
    assert_eq!(
        c.read_edit(EntityType::Work, made.edit_id),
        Err(FatcatError::NotFound(Resource::Edit(EntityType::Work, made.edit_id)))
    );
}

#[test]
fn a_batch_that_fails_leaves_no_metadata_behind() {
    let (mut c, ctx) = setup();
    let mut good = release("a", "10.1/a");
    good.edit_extra = Some("kept?".to_string());
    let bad = release("b", "not a doi");
    assert_eq!(
        c.create_entities(&ctx, RELEASE, &vec![good, bad]),
        Err(FatcatError::MalformedExternalId(ExtIdKind::Doi))
    );
    let mut next = release("c", "10.1/c");
    next.edit_extra = Some("mine".to_string());
    let edits = c.create_entities(&ctx, RELEASE, &vec![next, release("d", "10.1/d")]).unwrap();
    assert_eq!(edits[0].edit_id, 1);
    assert_eq!(c.read_edit(RELEASE, 1).unwrap().extra, Some("mine".to_string()));
    assert_eq!(c.read_edit(RELEASE, 2).unwrap().extra, None);
}

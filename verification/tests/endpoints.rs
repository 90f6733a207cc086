use fatcat::auth::{Credential, TokenClaims};
use fatcat::catalog::Catalog;
use fatcat::errors::{EntityType, ExtIdKind, FatcatError, Resource, Role};
use fatcat::fcid::FatcatId;
use fatcat::model::{EntityContent, ExternalId};
use fatcat::reading::Found;
use fatcat::server::{Metric, MetricCount, Reply, Response, Server};

const RELEASE: EntityType = EntityType::Release;

fn token(editor: u128) -> Credential {
    Credential::Verified(TokenClaims { editor_id: editor, issued_at: 150, expires_at: None })
}

fn fcid(id: u128) -> String {
    FatcatId(id).to_string()
}

fn release(title: &str, doi: &str) -> EntityContent {
    let mut c = EntityContent::titled(title);
    c.ext_ids.push(ExternalId { kind: ExtIdKind::Doi, value: doi.to_string() });
    c
}

/// Editors: `eda` (1), `edb` (2), admin `adm` (3), superuser `root` (4), bot `bot` (5).
fn server() -> Server {
    let mut c = Catalog::new();
    c.create_editor("eda", false, false, false, 100).unwrap();
    c.create_editor("edb", false, false, false, 100).unwrap();
    c.create_editor("adm", true, false, false, 100).unwrap();
    c.create_editor("root", false, false, true, 100).unwrap();
    c.create_editor("bot", false, true, false, 100).unwrap();
    Server::with_catalog(c)
}

fn created<T: std::fmt::Debug>(reply: Reply<T>) -> T {
    match reply.response {
        Response::Created(v) => v,
        other => panic!("not created: {:?}", other),
    }
}

fn found<T: std::fmt::Debug>(reply: Reply<T>) -> T {
    match reply.response {
        Response::Found(v) => v,
        other => panic!("not found: {:?}", other),
    }
}

fn one(metric: Metric) -> Vec<MetricCount> {
    vec![MetricCount { metric, count: 1 }]
}

#[test]
fn create_release_through_the_boundary() {
    let mut s = server();
    let eg = s.create_editgroup(None, &Some("first".to_string()), &None, &token(1), 200);
    assert_eq!(eg.metrics, one(Metric::EditgroupCreated));
    assert!(!eg.reported);
    let eg = created(eg);
    assert_eq!(eg.editor_id, 1);
    assert_eq!(eg.description, Some("first".to_string()));
    let g = fcid(eg.editgroup_id);

    let reply = s.create_entity(RELEASE, release("Foo", "10.1/FOO"), &g, &token(1), 210);
    assert_eq!(reply.metrics, one(Metric::EntitiesCreated));
    let edit = created(reply);

    // another editor may not write into the editgroup, an admin may
    let refused = s.create_entity(RELEASE, release("Bar", "10.1/bar"), &g, &token(2), 211);
    assert_eq!(
        refused.response,
        Response::Forbidden(FatcatError::InsufficientPrivileges(Role::Admin))
    );
    assert!(refused.metrics.is_empty());
    let by_admin = s.create_entity(RELEASE, release("Bar", "10.1/bar"), &g, &token(3), 212);
    assert!(matches!(by_admin.response, Response::Created(_)));

    // only an admin accepts
    let no = s.accept_editgroup(&g, &token(1), 220);
    assert_eq!(
        no.response,
        Response::Forbidden(FatcatError::InsufficientPrivileges(Role::Admin))
    );
    let yes = s.accept_editgroup(&g, &token(3), 221);
    assert_eq!(yes.metrics, one(Metric::EditgroupAccepted));
    let ok = found(yes);
    assert!(ok.success);
    assert_eq!(ok.message, "horray!");
    let again = s.accept_editgroup(&g, &token(3), 222);
    assert_eq!(again.response, Response::BadRequest(FatcatError::EditgroupAlreadyAccepted));

    // the DOI is stored in lower case and found in any case
    let looked = found(s.lookup_release(Some("10.1/Foo"), None, None, None, None, None, None, None));
    match looked.found {
        Found::Entity(e) => {
            assert_eq!(e.ident.unwrap().ident, edit.ident);
            assert_eq!(e.content.ext_ids[0].value, "10.1/foo");
        }
        other => panic!("{:?}", other),
    }
    assert_eq!(edit.ident, 1);
}

#[test]
fn malformed_parameters_are_bad_requests() {
    let mut s = server();
    let r = s.get_entity(RELEASE, "not-an-id", None, None);
    assert_eq!(r.response, Response::BadRequest(FatcatError::MalformedFatcatId));
    let r = s.get_entity(RELEASE, &fcid(1), None, Some("bogus"));
    assert_eq!(r.response, Response::BadRequest(FatcatError::MalformedFlag));
    let r = s.get_entity(RELEASE, &fcid(1), Some("files,"), None);
    assert_eq!(r.response, Response::BadRequest(FatcatError::MalformedFlag));
    let r = s.get_entity(RELEASE, &fcid(1), None, None);
    assert_eq!(
        r.response,
        Response::NotFound(FatcatError::NotFound(Resource::Entity(RELEASE, 1)))
    );
    let r = s.get_entity_revision(RELEASE, "zzz", None, None);
    assert_eq!(
        r.response,
        Response::BadRequest(FatcatError::OtherBadRequest("malformed UUID".to_string()))
    );
    let r = s.create_entity(RELEASE, release("x", "10.1/x"), "zzz", &token(1), 1);
    assert_eq!(r.response, Response::BadRequest(FatcatError::MalformedFatcatId));
    let r = s.create_entity(RELEASE, release("x", "10.1/x"), &fcid(9), &Credential::Missing, 1);
    assert_eq!(r.response, Response::Forbidden(FatcatError::InvalidCredentials));
    let r = s.create_entity(RELEASE, release("x", "10.1/x"), &fcid(9), &Credential::Malformed, 1);
    assert_eq!(r.response, Response::Forbidden(FatcatError::BadToken));
    let r = s.create_entity(RELEASE, release("x", "10.1/x"), &fcid(9), &Credential::BadSignature, 1);
    assert_eq!(r.response, Response::Forbidden(FatcatError::BadToken));
    let r = s.create_entity(RELEASE, release("x", "10.1/x"), &fcid(9), &token(77), 1);
    assert_eq!(
        r.response,
        Response::NotFound(FatcatError::NotFound(Resource::Editor(77)))
    );
    let r = s.create_entity(RELEASE, release("x", "10.1/x"), &fcid(9), &token(1), 200);
    assert_eq!(
        r.response,
        Response::NotFound(FatcatError::NotFound(Resource::Editgroup(9)))
    );
}

#[test]
fn revisions_and_edits_are_read_by_uuid() {
    let mut s = server();
    let g = fcid(created(s.create_editgroup(None, &None, &None, &token(1), 200)).editgroup_id);
    let edit = created(s.create_entity(RELEASE, release("Foo", "10.1/foo"), &g, &token(1), 210));
    assert_eq!((edit.edit_id, edit.rev_id), (1, Some(1)));

    let rev = found(s.get_entity_revision(
        RELEASE,
        "00000000-0000-0000-0000-000000000001",
        None,
        None,
    ));
    match rev.found {
        Found::Entity(e) => {
            assert_eq!(e.revision, 1);
            assert_eq!(e.content.title, "Foo");
        }
        other => panic!("{:?}", other),
    }
    // the same UUID without hyphens
    let rev = s.get_entity_revision(RELEASE, "00000000000000000000000000000001", None, None);
    assert!(matches!(rev.response, Response::Found(_)));
    let none = s.get_entity_revision(RELEASE, "00000000-0000-0000-0000-000000000002", None, None);
    assert_eq!(
        none.response,
        Response::NotFound(FatcatError::NotFound(Resource::Revision(RELEASE, 2)))
    );
    let e = found(s.get_entity_edit(RELEASE, "00000000-0000-0000-0000-000000000001"));
    assert_eq!(e.row, edit);
    assert_eq!(e.extra, None);
    let wrong_type = s.get_entity_edit(EntityType::Work, "00000000-0000-0000-0000-000000000001");
    assert_eq!(
        wrong_type.response,
        Response::NotFound(FatcatError::NotFound(Resource::Edit(EntityType::Work, 1)))
    );
}

#[test]
fn deleting_an_edit_confirms_with_its_uuid() {
    let mut s = server();
    let g = fcid(created(s.create_editgroup(None, &None, &None, &token(1), 200)).editgroup_id);
    created(s.create_entity(RELEASE, release("a", "10.1/a"), &g, &token(1), 210));
    created(s.create_entity(RELEASE, release("b", "10.1/b"), &g, &token(1), 211));
    let by_other =
        s.delete_entity_edit(RELEASE, "00000000-0000-0000-0000-000000000002", &token(2), 212);
    assert_eq!(
        by_other.response,
        Response::Forbidden(FatcatError::InsufficientPrivileges(Role::Admin))
    );
    let ok = found(s.delete_entity_edit(
        RELEASE,
        "{00000000-0000-0000-0000-000000000002}",
        &token(1),
        213,
    ));
    assert!(ok.success);
    assert_eq!(
        ok.message,
        "Successfully deleted work-in-progress ReleaseEntity edit: 00000000-0000-0000-0000-000000000002"
    );
    // removing it again: it is gone
    let gone = s.delete_entity_edit(RELEASE, "00000000-0000-0000-0000-000000000002", &token(1), 214);
    assert_eq!(
        gone.response,
        Response::NotFound(FatcatError::NotFound(Resource::Edit(RELEASE, 2)))
    );
    // after acceptance, no edit is removed
    found(s.accept_editgroup(&g, &token(3), 220));
    let late = s.delete_entity_edit(RELEASE, "00000000-0000-0000-0000-000000000001", &token(1), 221);
    assert_eq!(late.response, Response::BadRequest(FatcatError::EditgroupAlreadyAccepted));
    let eg = found(s.get_editgroup(&g));
    assert_eq!(eg.edits.len(), 1);
    assert_eq!(eg.edits[0].edit_id, 1);
}

#[test]
fn lookup_wants_exactly_one_identifier() {
    let s = server();
    let none = s.lookup_release(None, None, None, None, None, None, None, None);
    assert_eq!(none.response, Response::BadRequest(FatcatError::MissingOrMultipleExternalId));
    let empty = s.lookup_release(Some(""), None, None, None, None, None, None, None);
    assert_eq!(empty.response, Response::BadRequest(FatcatError::MissingOrMultipleExternalId));
    let two = s.lookup_release(Some("10.1/a"), None, None, Some("123"), None, None, None, None);
    assert_eq!(two.response, Response::BadRequest(FatcatError::MultipleQueryParams));
    let bad = s.lookup_release(Some("nope"), None, None, None, None, None, None, None);
    assert_eq!(
        bad.response,
        Response::BadRequest(FatcatError::MalformedExternalId(ExtIdKind::Doi))
    );
    let flag = s.lookup_release(Some("10.1/a"), None, None, None, None, None, Some("x"), None);
    assert_eq!(flag.response, Response::BadRequest(FatcatError::MalformedFlag));
    let missing = s.lookup_file(None, Some("da39a3ee5e6b4b0d3255bfef95601890afd80709"), None, None, None);
    assert_eq!(
        missing.response,
        Response::NotFound(FatcatError::NotFound(Resource::ExternalId(
            EntityType::File,
            ExtIdKind::Sha1
        )))
    );
    let orcid = s.lookup_creator(Some("0000-0002-1825-0098"), None, None, None);
    assert_eq!(
        orcid.response,
        Response::BadRequest(FatcatError::MalformedChecksum(ExtIdKind::Orcid))
    );
    let issn = s.lookup_container(None, Some("Q42"), None, None);
    assert_eq!(
        issn.response,
        Response::NotFound(FatcatError::NotFound(Resource::ExternalId(
            EntityType::Container,
            ExtIdKind::WikidataQid
        )))
    );
}

#[test]
fn auth_check_names_roles_in_any_case() {
    let s = server();
    let ok = found(s.auth_check(None, &token(1), 200));
    assert_eq!(ok.message, "auth check successful!");
    assert!(matches!(s.auth_check(Some("Editor"), &token(1), 200).response, Response::Found(_)));
    assert!(matches!(s.auth_check(Some("HUMAN"), &token(1), 200).response, Response::Found(_)));
    assert!(matches!(s.auth_check(Some("bot"), &token(5), 200).response, Response::Found(_)));
    assert!(matches!(s.auth_check(Some("superuser"), &token(4), 200).response, Response::Found(_)));
    assert!(matches!(s.auth_check(Some("bot"), &token(4), 200).response, Response::Found(_)));
    assert_eq!(
        s.auth_check(Some("bot"), &token(1), 200).response,
        Response::Forbidden(FatcatError::InsufficientPrivileges(Role::Bot))
    );
    assert_eq!(
        s.auth_check(Some("human"), &token(5), 200).response,
        Response::Forbidden(FatcatError::InsufficientPrivileges(Role::Human))
    );
    assert_eq!(
        s.auth_check(Some("admin"), &token(1), 200).response,
        Response::Forbidden(FatcatError::InsufficientPrivileges(Role::Admin))
    );
    assert_eq!(
        s.auth_check(Some("superuser"), &token(3), 200).response,
        Response::Forbidden(FatcatError::InsufficientPrivileges(Role::Superuser))
    );
    assert_eq!(
        s.auth_check(Some("wizard"), &token(1), 200).response,
        Response::BadRequest(FatcatError::OtherBadRequest("unknown auth role: wizard".to_string()))
    );
    assert_eq!(
        s.auth_check(None, &Credential::Missing, 200).response,
        Response::Forbidden(FatcatError::InvalidCredentials)
    );
    let expired =
        Credential::Verified(TokenClaims { editor_id: 1, issued_at: 150, expires_at: Some(200) });
    assert!(matches!(s.auth_check(None, &expired, 199).response, Response::Found(_)));
    assert_eq!(
        s.auth_check(None, &expired, 200).response,
        Response::Forbidden(FatcatError::InvalidCredentials)
    );
    let early = Credential::Verified(TokenClaims { editor_id: 1, issued_at: 99, expires_at: None });
    assert_eq!(
        s.auth_check(None, &early, 200).response,
        Response::Forbidden(FatcatError::InvalidCredentials)
    );
}

#[test]
fn sign_in_creates_an_editor_once() {
    let mut s = server();
    let refused = s.auth_oidc("gitlab", "u-1", "https://gitlab.example", "eda", &token(3), 1000);
    assert_eq!(
        refused.response,
        Response::Forbidden(FatcatError::InsufficientPrivileges(Role::Superuser))
    );
    let first = s.auth_oidc("gitlab", "u-1", "https://gitlab.example", "carol", &token(4), 1000);
    assert_eq!(first.metrics, one(Metric::AccountSignup));
    let first = created(first);
    assert_eq!(first.editor.username, "carol");
    assert_eq!(first.editor.editor_id, 6);
    assert!(!first.editor.is_admin && !first.editor.is_bot && !first.editor.is_superuser);
    assert_eq!(
        first.token,
        TokenClaims { editor_id: 6, issued_at: 1000, expires_at: Some(1000 + 31 * 86_400) }
    );
    let again = s.auth_oidc("gitlab", "u-1", "https://gitlab.example", "other", &token(4), 2000);
    assert_eq!(again.metrics, one(Metric::AccountLogin));
    let again = found(again);
    assert_eq!(again.editor, first.editor);
    assert_eq!(again.token.expires_at, Some(2000 + 2_678_400));
    // a username that is in use is made free: longer than every username there is
    let clash = created(s.auth_oidc("gitlab", "u-2", "https://gitlab.example", "eda", &token(4), 3000));
    assert_eq!(clash.editor.username, "eda___");
    assert_eq!(clash.editor.editor_id, 7);
    // the token that was handed out signs the new editor in
    let c = Credential::Verified(first.token);
    assert!(matches!(s.auth_check(Some("editor"), &c, 1001).response, Response::Found(_)));
    assert_eq!(
        s.auth_check(Some("editor"), &c, 1000 + 31 * 86_400).response,
        Response::Forbidden(FatcatError::InvalidCredentials)
    );
    let late = s.auth_oidc("gitlab", "u-3", "x", "dave", &token(4), i64::MAX - 10);
    assert_eq!(
        late.response,
        Response::GenericError(FatcatError::InternalError("time is out of range".to_string()))
    );
    assert!(late.reported);
}

#[test]
fn editors_rename_themselves_and_admins_rename_anyone() {
    let mut s = server();
    let me = fcid(1);
    let other = fcid(2);
    let r = s.update_editor(&me, Some(&other), "x", &token(1), 200);
    assert_eq!(
        r.response,
        Response::BadRequest(FatcatError::OtherBadRequest("editor_id doesn't match".to_string()))
    );
    let r = s.update_editor(&me, None, "x", &token(1), 200);
    assert!(matches!(r.response, Response::BadRequest(FatcatError::OtherBadRequest(_))));
    let r = found(s.update_editor(&me, Some(&me), "eda2", &token(1), 200));
    assert_eq!((r.editor_id, r.username.as_str()), (1, "eda2"));
    let r = s.update_editor(&other, Some(&other), "nope", &token(1), 200);
    assert_eq!(
        r.response,
        Response::Forbidden(FatcatError::InsufficientPrivileges(Role::Admin))
    );
    let r = found(s.update_editor(&other, Some(&other), "edb2", &token(3), 200));
    assert_eq!(r.username, "edb2");
    let taken = s.update_editor(&other, Some(&other), "eda2", &token(3), 200);
    assert_eq!(
        taken.response,
        Response::GenericError(FatcatError::DatabaseError("username is already taken".to_string()))
    );
    assert!(taken.reported);
    let same = found(s.update_editor(&other, Some(&other), "edb2", &token(3), 200));
    assert_eq!(same.username, "edb2");
    let nobody = fcid(99);
    let r = s.update_editor(&nobody, Some(&nobody), "x", &token(3), 200);
    assert_eq!(
        r.response,
        Response::NotFound(FatcatError::NotFound(Resource::Editor(99)))
    );
    assert_eq!(found(s.get_editor(&me)).username, "eda2");
}

#[test]
fn editgroups_in_the_name_of_another_need_an_admin() {
    let mut s = server();
    let other = fcid(2);
    let r = s.create_editgroup(Some(&other), &None, &None, &token(1), 200);
    assert_eq!(
        r.response,
        Response::Forbidden(FatcatError::InsufficientPrivileges(Role::Admin))
    );
    let own = fcid(1);
    let r = created(s.create_editgroup(Some(&own), &None, &None, &token(1), 200));
    assert_eq!((r.editgroup_id, r.editor_id, r.created_at), (1, 1, 200));
    let r = created(s.create_editgroup(Some(&other), &None, &Some("{}".to_string()), &token(3), 201));
    assert_eq!((r.editgroup_id, r.editor_id), (2, 2));
    assert_eq!(r.extra, Some("{}".to_string()));
    let r = s.create_editgroup(Some("junk"), &None, &None, &token(3), 202);
    assert_eq!(r.response, Response::BadRequest(FatcatError::MalformedFatcatId));
    let nobody = fcid(42);
    let r = s.create_editgroup(Some(&nobody), &None, &None, &token(3), 202);
    assert_eq!(
        r.response,
        Response::NotFound(FatcatError::NotFound(Resource::Editor(42)))
    );
}

#[test]
fn a_batch_is_created_whole_or_not_at_all() {
    let mut s = server();
    let good = vec![release("a", "10.1/a"), release("b", "10.1/b")];
    let reply = s.create_entity_batch(RELEASE, &good, Some(true), None, &token(5), 300);
    assert_eq!(
        reply.metrics,
        vec![
            MetricCount { metric: Metric::EntitiesCreated, count: 2 },
            MetricCount { metric: Metric::EditgroupCreated, count: 1 },
            MetricCount { metric: Metric::EditgroupAccepted, count: 1 },
        ]
    );
    let edits = created(reply);
    assert_eq!(edits.len(), 2);
    assert_eq!(found(s.get_changelog(None)).len(), 1);
    let e = found(s.get_entity(RELEASE, &fcid(edits[1].ident), None, None));
    assert!(matches!(e.found, Found::Entity(ref x) if x.ident.unwrap().is_live));

    // the second content is refused: nothing of the batch stays
    let bad = vec![release("c", "10.1/c"), release("d", "not a doi")];
    let reply = s.create_entity_batch(RELEASE, &bad, Some(true), None, &token(5), 301);
    assert_eq!(
        reply.response,
        Response::BadRequest(FatcatError::MalformedExternalId(ExtIdKind::Doi))
    );
    assert_eq!(found(s.get_changelog(None)).len(), 1);
    assert!(matches!(s.get_entity(RELEASE, &fcid(3), None, None).response, Response::NotFound(_)));
    assert!(matches!(s.get_editgroup(&fcid(2)).response, Response::NotFound(_)));

    // acceptance is refused: nothing of the batch stays
    let dup = vec![release("e", "10.1/e"), release("f", "10.1/a")];
    let reply = s.create_entity_batch(RELEASE, &dup, Some(true), None, &token(5), 302);
    assert_eq!(
        reply.response,
        Response::BadRequest(FatcatError::DuplicateExternalId(ExtIdKind::Doi, "10.1/a".to_string()))
    );
    assert!(matches!(s.get_entity(RELEASE, &fcid(3), None, None).response, Response::NotFound(_)));
    assert!(matches!(s.get_editgroup(&fcid(2)).response, Response::NotFound(_)));

    // without an editgroup and without autoaccept there is nowhere to edit
    let reply = s.create_entity_batch(RELEASE, &good, None, None, &token(5), 303);
    assert_eq!(reply.response, Response::BadRequest(FatcatError::EditgroupRequired));

    // into an editgroup, without acceptance
    let g = created(s.create_editgroup(None, &None, &None, &token(5), 304)).editgroup_id;
    let more = vec![release("g", "10.1/g")];
    let reply = s.create_entity_batch(RELEASE, &more, None, Some(&fcid(g)), &token(5), 305);
    assert_eq!(reply.metrics, vec![MetricCount { metric: Metric::EntitiesCreated, count: 1 }]);
    let edits = created(reply);
    let e = found(s.get_entity(RELEASE, &fcid(edits[0].ident), None, None));
    assert!(matches!(e.found, Found::Entity(ref x) if !x.ident.unwrap().is_live));
}

#[test]
fn changelog_entries_count_up_from_one() {
    let mut s = server();
    for n in 1..=3i64 {
        let g = created(s.create_editgroup(None, &None, &None, &token(1), 100 + n)).editgroup_id;
        found(s.accept_editgroup(&fcid(g), &token(3), 200 + n));
        let entry = found(s.get_changelog_entry(n));
        assert_eq!(entry.entry.id, n);
        assert_eq!(entry.entry.editgroup_id, g);
        assert_eq!(entry.editgroup.changelog_id, Some(n));
        assert!(entry.edits.is_empty());
    }
    let ids: Vec<i64> = found(s.get_changelog(None)).iter().map(|r| r.id).collect();
    assert_eq!(ids, vec![3, 2, 1]);
    let ids: Vec<i64> = found(s.get_changelog(Some(2))).iter().map(|r| r.id).collect();
    assert_eq!(ids, vec![3, 2]);
    assert!(found(s.get_changelog(Some(-1))).is_empty());
    for bad in [0i64, 4, -1, i64::MAX, i64::MIN] {
        assert_eq!(
            s.get_changelog_entry(bad).response,
            Response::NotFound(FatcatError::NotFound(Resource::ChangelogEntry(bad)))
        );
    }
    let mine: Vec<i64> = found(s.get_editor_changelog(&fcid(1))).iter().map(|r| r.id).collect();
    assert_eq!(mine, vec![3, 2, 1]);
    assert!(found(s.get_editor_changelog(&fcid(2))).is_empty());
}

#[test]
fn an_update_reads_its_revision_and_redirect_from_text() {
    let mut s = server();
    let g = fcid(created(s.create_editgroup(None, &None, &None, &token(1), 200)).editgroup_id);
    let a = created(s.create_entity(RELEASE, release("a", "10.1/a"), &g, &token(1), 210));
    let b = created(s.create_entity(RELEASE, release("b", "10.1/b"), &g, &token(1), 211));
    found(s.accept_editgroup(&g, &token(3), 220));

    let g = fcid(created(s.create_editgroup(None, &None, &None, &token(1), 230)).editgroup_id);
    let rev_a = "00000000-0000-0000-0000-000000000001";
    let bad = s.update_entity(RELEASE, &fcid(a.ident), release("a2", "10.1/a"), Some("x"), None, &g, &token(1), 231);
    assert_eq!(
        bad.response,
        Response::BadRequest(FatcatError::OtherBadRequest("malformed UUID".to_string()))
    );
    let bad = s.update_entity(RELEASE, &fcid(a.ident), release("a2", "10.1/a"), Some(rev_a), Some("x"), &g, &token(1), 231);
    assert_eq!(bad.response, Response::BadRequest(FatcatError::MalformedFatcatId));
    let stale = s.update_entity(
        RELEASE,
        &fcid(a.ident),
        release("a2", "10.1/a"),
        Some("00000000-0000-0000-0000-000000000002"),
        None,
        &g,
        &token(1),
        232,
    );
    assert_eq!(stale.response, Response::BadRequest(FatcatError::EditConflict(a.ident)));
    let reply = s.update_entity(RELEASE, &fcid(a.ident), release("a2", "10.1/a"), Some(rev_a), None, &g, &token(1), 233);
    assert_eq!(reply.metrics, one(Metric::EntitiesUpdated));
    let edit = found(reply);
    assert_eq!((edit.prev_rev, edit.rev_id), (Some(1), Some(3)));
    let to_a = fcid(a.ident);
    let gone = found(s.update_entity(
        RELEASE,
        &fcid(b.ident),
        EntityContent::titled(""),
        Some("00000000-0000-0000-0000-000000000002"),
        Some(&to_a),
        &g,
        &token(1),
        234,
    ));
    assert_eq!((gone.rev_id, gone.redirect_id), (None, Some(a.ident)));
    let del = s.delete_entity(RELEASE, &fcid(77), &g, &token(1), 235);
    assert_eq!(
        del.response,
        Response::NotFound(FatcatError::NotFound(Resource::Entity(RELEASE, 77)))
    );
    found(s.accept_editgroup(&g, &token(3), 240));
    assert_eq!(found(s.get_entity_redirects(RELEASE, &to_a)), vec![fcid(b.ident)]);
    let h = found(s.get_entity_history(RELEASE, &to_a, None));
    assert_eq!(h.len(), 2);
    assert_eq!(fatcat::server::write_uuid(0xa1a2a3a4_b1b2_c1c2_d1d2_d3d4d5d6d7d8), "a1a2a3a4-b1b2-c1c2-d1d2-d3d4d5d6d7d8");
}

#[test]
fn credentials_and_privileges_that_do_not_suffice_are_forbidden_everywhere() {
    let mut s = server();
    let none = Credential::Missing;
    assert!(matches!(s.create_editgroup(None, &None, &None, &none, 1).response, Response::Forbidden(_)));
    assert!(matches!(s.auth_check(None, &none, 1).response, Response::Forbidden(_)));
    assert!(matches!(s.auth_oidc("p", "s", "i", "u", &none, 1).response, Response::Forbidden(_)));
    let me = fcid(1);
    assert!(matches!(s.update_editor(&me, Some(&me), "x", &none, 1).response, Response::Forbidden(_)));
    assert!(matches!(
        s.update_editor(&me, Some(&me), "x", &Credential::Malformed, 1).response,
        Response::Forbidden(FatcatError::BadToken)
    ));
    // an editor that does not exist is not found, on these endpoints too
    assert_eq!(
        s.auth_check(None, &token(77), 200).response,
        Response::NotFound(FatcatError::NotFound(Resource::Editor(77)))
    );
    assert_eq!(
        s.auth_oidc("p", "s", "i", "u", &token(77), 200).response,
        Response::NotFound(FatcatError::NotFound(Resource::Editor(77)))
    );
    // nothing was created, renamed or counted
    assert_eq!(found(s.get_editor(&me)).username, "eda");
    assert!(matches!(s.get_editgroup(&fcid(1)).response, Response::NotFound(_)));
    assert!(s.auth_oidc("p", "s", "i", "u", &token(1), 200).metrics.is_empty());
}

#[test]
fn an_edit_is_read_with_the_metadata_that_came_with_its_content() {
    let mut s = server();
    let g = fcid(created(s.create_editgroup(None, &None, &None, &token(1), 200)).editgroup_id);
    let mut content = release("Foo", "10.1/foo");
    content.edit_extra = Some("{\"source\":\"import\"}".to_string());
    let edit = created(s.create_entity(RELEASE, content, &g, &token(1), 210));
    let read = found(s.get_entity_edit(RELEASE, "00000000-0000-0000-0000-000000000001"));
    assert_eq!(read.row, edit);
    assert_eq!(read.extra, Some("{\"source\":\"import\"}".to_string()));
    // the revision does not hold it
    let e = found(s.get_entity(RELEASE, &fcid(edit.ident), None, None));
    match e.found {
        Found::Entity(e) => {
            assert_eq!(e.content.edit_extra, None);
            assert_eq!(e.content.title, "Foo");
        }
        other => panic!("{:?}", other),
    }
}

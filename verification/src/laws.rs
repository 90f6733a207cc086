//! What holds of the catalog whatever is done to it, and what reading gives
//! back after writing.

use vstd::prelude::*;
use crate::accept::{
    accept_error, accept_ok, accepted_entry, accepted_row, after_accept, first_clash,
    first_conflict, first_shared, lemma_after_accept_wf, lemma_group_edit_is,
};
use crate::catalog::{has_accepted_edit, holds_ext_id, is_accepted_edit_at, CatalogView};
use crate::editing::{
    lemma_group_edit_same, after_create, after_update, create_verdict, created_edit,
    ext_ids_verdict, lemma_after_create_wf, lemma_group_edit_from, lemma_with_edit_wf,
    lemma_with_revision_wf, update_verdict, updated_edit, EditContext,
};
use crate::errors::{EntityType, ErrorView, ExtIdKind};
use crate::extids::{ext_id_verdict, lemma_stored_form_is_fixed};
use crate::flags::HideFlags;
use crate::model::{revision_content, ContentView, EditRow, IdentRow};
use crate::reading::{
    get_verdict, hidden, history, history_upto, EntityView, FoundView, HistoryEntryView,
};

verus! {

/// The hide flags that hide nothing.
pub open spec fn hide_nothing() -> HideFlags {
    HideFlags { abstracts: false, refs: false, contribs: false }
}

/// No identifier row points both to a revision and to another identifier.
pub proof fn law_pointers_exclusive(c: CatalogView, id: u128)
    requires
        c.wf(),
        c.has_ident(id),
    ensures
        !(c.ident(id).rev_id is Some && c.ident(id).redirect_id is Some),
{
    assert(c.idents[id - 1].ident == id);
}

/// An identifier that redirects does so to a live identifier of its own type
/// that does not redirect: there are no chains of redirects.
pub proof fn law_no_redirect_chains(c: CatalogView, id: u128)
    requires
        c.wf(),
        c.has_ident(id),
        c.ident(id).redirect_id is Some,
    ensures
        c.has_entity(c.ident(id).entity_type, c.ident(id).redirect_id->0),
        c.ident(c.ident(id).redirect_id->0).is_live,
        c.ident(c.ident(id).redirect_id->0).redirect_id is None,
{
    assert(c.idents[id - 1].ident == id);
}

/// No external identifier is held by two live entities of one type.
pub proof fn law_ext_ids_unique(c: CatalogView, a: u128, b: u128, k: ExtIdKind, v: Seq<char>)
    requires
        c.wf(),
        c.has_ident(a),
        c.has_ident(b),
        c.ident(a).entity_type == c.ident(b).entity_type,
        c.holds_ext_id(c.ident(a), k, v),
        c.holds_ext_id(c.ident(b), k, v),
    ensures
        a == b,
{
    if a != b {
        assert(holds_ext_id(c.revisions, c.idents[a - 1], k, v));
        assert(holds_ext_id(c.revisions, c.idents[b - 1], k, v));
    }
}

/// Changelog ids count up from one without a gap.
pub proof fn law_changelog_contiguous(c: CatalogView, i: int)
    requires
        c.wf(),
        0 <= i < c.changelog.len(),
    ensures
        c.changelog[i].id == i + 1,
{
}

/// Acceptance appends one changelog entry, whose id is one more than the
/// greatest before, and changes no other entry.
pub proof fn law_accept_appends_entry(c: CatalogView, g: u128, now: i64)
    requires
        c.wf(),
        accept_ok(c, g),
    ensures
        after_accept(c, g, now).changelog.len() == c.changelog.len() + 1,
        after_accept(c, g, now).changelog.last().id == c.changelog.len() + 1,
        after_accept(c, g, now).changelog.last().editgroup_id == g,
        after_accept(c, g, now).changelog.drop_last() == c.changelog,
        after_accept(c, g, now).editgroup(g).changelog_id == Some((c.changelog.len() + 1) as i64),
{
    assert(after_accept(c, g, now).changelog.drop_last() =~= c.changelog);
}

/// After an entity is created and its editgroup accepted, reading its
/// identifier gives the revision that was created, and the identifier is live.
pub proof fn law_get_after_create_accept(
    c: CatalogView,
    ctx: EditContext,
    t: EntityType,
    content: ContentView,
    now: i64,
    hide: HideFlags,
)
    requires
        c.wf(),
        create_verdict(c, ctx, t, content) is Ok,
        accept_ok(
            after_create(c, ctx, t, create_verdict(c, ctx, t, content)->Ok_0),
            ctx.editgroup_id,
        ),
    ensures
        ({
            let stored = create_verdict(c, ctx, t, content)->Ok_0;
            let e = created_edit(c, ctx, t);
            let d = after_accept(after_create(c, ctx, t, stored), ctx.editgroup_id, now);
            get_verdict(d, t, e.ident, hide) == Ok::<FoundView, ErrorView>(
                FoundView::Entity(
                    EntityView {
                        entity_type: t,
                        ident: Some(
                            IdentRow {
                                entity_type: t,
                                ident: e.ident,
                                is_live: true,
                                rev_id: e.rev_id,
                                redirect_id: None,
                            },
                        ),
                        revision: e.rev_id->0,
                        content: hidden(revision_content(stored), hide),
                    },
                ),
            )
        }),
{
    let stored = create_verdict(c, ctx, t, content)->Ok_0;
    let e = created_edit(c, ctx, t);
    let c1 = after_create(c, ctx, t, stored);
    lemma_after_create_wf(c, ctx, t, stored);
    let k = c.edits.len() as int;
    assert(c1.is_group_edit_at(k, ctx.editgroup_id, e.ident));
    lemma_group_edit_is(c1, k, ctx.editgroup_id, e.ident);
    let d = after_accept(c1, ctx.editgroup_id, now);
    assert(d.idents[e.ident - 1] == accepted_row(c1.idents[e.ident - 1], e));
}

/// Before its editgroup is accepted, an entity that was created can be read
/// by its identifier: the revision holds the content that was given, with
/// each external identifier in its stored form and without the metadata of
/// the edit, which the edit keeps; and the identifier is not live yet.
pub proof fn law_get_after_create(
    c: CatalogView,
    ctx: EditContext,
    t: EntityType,
    content: ContentView,
)
    requires
        c.wf(),
        create_verdict(c, ctx, t, content) is Ok,
    ensures
        ({
            let stored = create_verdict(c, ctx, t, content)->Ok_0;
            let e = created_edit(c, ctx, t);
            let d = after_create(c, ctx, t, stored);
            &&& stored == (ContentView { ext_ids: stored.ext_ids, ..content })
            &&& d.has_edit(e.edit_id)
            &&& d.edit(e.edit_id) == e
            &&& d.edit_extra(e.edit_id) == content.edit_extra
            &&& ext_ids_verdict(t, content.ext_ids) == Ok::<Seq<(ExtIdKind, Seq<char>)>, ErrorView>(
                stored.ext_ids,
            )
            &&& get_verdict(d, t, e.ident, hide_nothing()) == Ok::<FoundView, ErrorView>(
                FoundView::Entity(
                    EntityView {
                        entity_type: t,
                        ident: Some(
                            IdentRow {
                                entity_type: t,
                                ident: e.ident,
                                is_live: false,
                                rev_id: e.rev_id,
                                redirect_id: None,
                            },
                        ),
                        revision: e.rev_id->0,
                        content: revision_content(stored),
                    },
                ),
            )
        }),
{
}

/// External identifiers that are in their stored forms are stored as they
/// are: content that was read can be written back unchanged.
pub proof fn law_stored_ext_ids_fixed(t: EntityType, ids: Seq<(ExtIdKind, Seq<char>)>)
    requires
        ext_ids_verdict(t, ids) is Ok,
    ensures
        ext_ids_verdict(t, ids)->Ok_0.len() == ids.len(),
        forall|i: int|
            0 <= i < ids.len() ==> (#[trigger] ext_ids_verdict(t, ids)->Ok_0[i]).0 == ids[i].0,
        ext_ids_verdict(t, ext_ids_verdict(t, ids)->Ok_0) == ext_ids_verdict(t, ids),
    decreases ids.len(),
{
    if ids.len() > 0 {
        let init = ids.drop_last();
        law_stored_ext_ids_fixed(t, init);
        let before = ext_ids_verdict(t, init)->Ok_0;
        let (k, v) = ids.last();
        let stored = ext_id_verdict(k, v)->Ok_0;
        lemma_stored_form_is_fixed(k, v);
        let out = before.push((k, stored));
        assert(out.drop_last() =~= before);
    }
}

/// The changelog ids of a history fall from each entry to the next: the
/// history lists the accepted edits in the order of their acceptance, newest
/// first.
pub proof fn law_history_ordered(c: CatalogView, id: u128, n: int)
    requires
        c.wf(),
        0 <= n <= c.changelog.len(),
    ensures
        forall|i: int|
            0 <= i < history_upto(c, id, n).len() ==> 1 <= (#[trigger] history_upto(
                c,
                id,
                n,
            )[i]).changelog_id <= n,
        forall|i: int, j: int|
            0 <= i < j < history_upto(c, id, n).len() ==> (#[trigger] history_upto(
                c,
                id,
                n,
            )[i]).changelog_id > (#[trigger] history_upto(c, id, n)[j]).changelog_id,
    decreases n,
{
    if n > 0 {
        law_history_ordered(c, id, n - 1);
    }
}

/// Writing an edit of one editgroup leaves the edits of every other
/// editgroup where they were.
pub proof fn lemma_other_group_edits(c: CatalogView, e: EditRow, g: u128, id: u128, from: int)
    requires
        e.editgroup_id != g,
        1 <= e.edit_id <= c.edits.len() + 1,
        e.edit_id - 1 < c.edits.len() ==> c.edits[e.edit_id - 1] is Some && c.edits[e.edit_id
            - 1]->0.editgroup_id == e.editgroup_id,
        0 <= from,
    ensures
        c.with_edit(e).group_edit_from(g, id, from) == c.group_edit_from(g, id, from),
        from == 0 ==> c.with_edit(e).group_edit(g, id) == c.group_edit(g, id),
    decreases c.edits.len() + 1 - from,
{
    let d = c.with_edit(e);
    if from < d.edits.len() {
        if from < c.edits.len() {
            if !c.is_group_edit_at(from, g, id) {
                lemma_other_group_edits(c, e, g, id, from + 1);
            }
        } else {
            lemma_other_group_edits(c, e, g, id, from + 1);
        }
    }
    if from == 0 {
        lemma_group_edit_from(c, g, id, 0);
    }
}

/// The history of an identifier up to an entry is the same in two catalogs
/// that agree on the changelog up to that entry, on the editgroups of its
/// entries, and on the edits of those editgroups.
pub proof fn lemma_history_frame(c: CatalogView, d: CatalogView, id: u128, n: int)
    requires
        0 <= n <= c.changelog.len(),
        n <= d.changelog.len(),
        forall|m: int| 0 <= m < n ==> (#[trigger] d.changelog[m]) == c.changelog[m],
        forall|m: int|
            0 <= m < n ==> d.editgroup((#[trigger] c.changelog[m]).editgroup_id) == c.editgroup(
                c.changelog[m].editgroup_id,
            ) && d.group_edit(c.changelog[m].editgroup_id, id) == c.group_edit(
                c.changelog[m].editgroup_id,
                id,
            ),
    ensures
        history_upto(d, id, n) == history_upto(c, id, n),
    decreases n,
{
    if n > 0 {
        lemma_history_frame(c, d, id, n - 1);
        assert(d.changelog[n - 1] == c.changelog[n - 1]);
    }
}

/// After a live entity is updated and the editgroup accepted, reading its
/// identifier gives the new revision, and its history is the accepted edit
/// followed by the history that it had.
pub proof fn law_get_after_update_accept(
    c: CatalogView,
    ctx: EditContext,
    t: EntityType,
    id: u128,
    revision: Option<u128>,
    content: ContentView,
    now: i64,
    hide: HideFlags,
)
    requires
        c.wf(),
        update_verdict(c, ctx, t, id, revision, None, content) is Ok,
        accept_ok(
            after_update(
                c,
                ctx,
                t,
                id,
                None,
                update_verdict(c, ctx, t, id, revision, None, content)->Ok_0,
            ),
            ctx.editgroup_id,
        ),
    ensures
        ({
            let stored = update_verdict(c, ctx, t, id, revision, None, content)->Ok_0;
            let e = updated_edit(c, ctx, t, id, None);
            let d = after_accept(
                after_update(c, ctx, t, id, None, stored),
                ctx.editgroup_id,
                now,
            );
            &&& stored is Some
            &&& e.rev_id == Some(c.next_rev())
            &&& e.prev_rev == revision
            &&& get_verdict(d, t, id, hide) == Ok::<FoundView, ErrorView>(
                FoundView::Entity(
                    EntityView {
                        entity_type: t,
                        ident: Some(
                            IdentRow {
                                entity_type: t,
                                ident: id,
                                is_live: true,
                                rev_id: Some(c.next_rev()),
                                redirect_id: None,
                            },
                        ),
                        revision: c.next_rev(),
                        content: hidden(revision_content(stored->0), hide),
                    },
                ),
            )
            &&& history(d, id) == seq![
                HistoryEntryView {
                    changelog_id: (c.changelog.len() + 1) as i64,
                    editgroup: d.editgroup(ctx.editgroup_id),
                    edit: e,
                },
            ] + history(c, id)
        }),
{
    let g = ctx.editgroup_id;
    let stored = update_verdict(c, ctx, t, id, revision, None, content)->Ok_0;
    let e = updated_edit(c, ctx, t, id, None);
    let cr = c.with_revision(t, stored->0);
    let ce = cr.with_edit(e);
    let c1 = after_update(c, ctx, t, id, None, stored);
    assert(c1 == ce.with_edit_extra(e.edit_id, stored->0.edit_extra));
    lemma_with_revision_wf(c, t, stored->0);
    lemma_group_edit_from(c, g, id, 0);
    assert(c.idents[id - 1].ident == id);
    lemma_with_edit_wf(cr, e);
    crate::editing::lemma_with_edit_extra_wf(ce, e.edit_id, stored->0.edit_extra);
    let p = e.edit_id - 1;
    assert(c1.is_group_edit_at(p, g, id));
    lemma_group_edit_is(c1, p, g, id);
    let d = after_accept(c1, g, now);
    assert(d.idents[id - 1] == accepted_row(c1.idents[id - 1], e));
    let n = c.changelog.len() as int;
    assert forall|m: int| 0 <= m < n implies d.editgroup((#[trigger] c.changelog[m]).editgroup_id)
        == c.editgroup(c.changelog[m].editgroup_id) && d.group_edit(c.changelog[m].editgroup_id, id)
        == c.group_edit(c.changelog[m].editgroup_id, id) by {
        let g2 = c.changelog[m].editgroup_id;
        assert(c.editgroups[g2 - 1].changelog_id is Some);
        assert(c.is_open(g));
        assert(g2 != g);
        lemma_group_edit_same(c, cr, g2, id, 0);
        lemma_other_group_edits(cr, e, g2, id, 0);
        lemma_group_edit_same(ce, c1, g2, id, 0);
        lemma_group_edit_same(c1, d, g2, id, 0);
        assert(cr.group_edit(g2, id) == c.group_edit(g2, id));
        assert(c1.group_edit(g2, id) == cr.group_edit(g2, id));
        assert(d.group_edit(g2, id) == c1.group_edit(g2, id));
    }
    lemma_history_frame(c, d, id, n);
    assert(d.changelog[n] == accepted_entry(c1, g, now));
    assert(stored is Some);
    assert(e.prev_rev == revision);
    assert(d.has_entity(t, id));
    assert(d.ident(id).rev_id == Some(c.next_rev()));
    assert(d.revision(c.next_rev()).content == revision_content(stored->0));
    assert(get_verdict(d, t, id, hide) is Ok);
    assert(d.group_edit(g, id) == Some(e)) by {
        lemma_group_edit_same(c1, d, g, id, 0);
    }
    assert(history(d, id) == history_upto(d, id, n + 1));
    assert(history_upto(d, id, n + 1) == seq![
        HistoryEntryView {
            changelog_id: (c.changelog.len() + 1) as i64,
            editgroup: d.editgroup(g),
            edit: e,
        },
    ] + history_upto(d, id, n));
}

/// After acceptance, the identifier of every edit of the editgroup is live
/// and points to what the edit says: to its revision, to the identifier it
/// redirects to, or to nothing. Every other identifier is as it was. An
/// editgroup's edit on an identifier is its only edit on it.
pub proof fn law_accept_applies_edits(c: CatalogView, g: u128, now: i64, id: u128)
    requires
        c.wf(),
        accept_ok(c, g),
        c.has_ident(id),
    ensures
        after_accept(c, g, now).consistent(),
        after_accept(c, g, now).has_ident(id),
        match c.group_edit(g, id) {
            Some(e) => after_accept(c, g, now).ident(id) == (IdentRow {
                is_live: true,
                rev_id: e.rev_id,
                redirect_id: e.redirect_id,
                ..c.ident(id)
            }),
            None => after_accept(c, g, now).ident(id) == c.ident(id),
        },
        forall|k: int|
            0 <= k < c.edits.len() && (#[trigger] c.edits[k]) is Some && c.edits[k]->0.editgroup_id
                == g && c.edits[k]->0.ident == id ==> c.group_edit(g, id) == c.edits[k],
{
    lemma_after_accept_wf(c, g, now);
    assert forall|k: int|
        0 <= k < c.edits.len() && (#[trigger] c.edits[k]) is Some && c.edits[k]->0.editgroup_id == g
            && c.edits[k]->0.ident == id implies c.group_edit(g, id) == c.edits[k] by {
        lemma_group_edit_is(c, k, g, id);
    }
}

/// An identifier is live exactly when an accepted editgroup holds an edit on it.
pub proof fn law_live_iff_accepted(c: CatalogView, id: u128)
    requires
        c.wf(),
        c.has_ident(id),
    ensures
        c.ident(id).is_live <==> exists|k: int|
            0 <= k < c.edits.len() && (#[trigger] c.edits[k]) is Some && c.edits[k]->0.ident == id
                && c.is_accepted(c.edits[k]->0.editgroup_id),
{
    let idn = id as int;
    assert(c.idents[id - 1].ident == id);
    if c.ident(id).is_live {
        assert(has_accepted_edit(c.edits, c.editgroups, idn));
        let k = choose|k: int| #[trigger] is_accepted_edit_at(c.edits, c.editgroups, k, idn);
        assert(c.edits[k] is Some);
    }
    if exists|k: int|
        0 <= k < c.edits.len() && (#[trigger] c.edits[k]) is Some && c.edits[k]->0.ident == id
            && c.is_accepted(c.edits[k]->0.editgroup_id) {
        let k = choose|k: int|
            0 <= k < c.edits.len() && (#[trigger] c.edits[k]) is Some && c.edits[k]->0.ident == id
                && c.is_accepted(c.edits[k]->0.editgroup_id);
        assert(is_accepted_edit_at(c.edits, c.editgroups, k, idn));
    }
}

/// An editgroup holds at most one edit on an identifier.
pub proof fn law_one_edit_per_identifier(c: CatalogView, a: int, b: int)
    requires
        c.wf(),
        0 <= a < c.edits.len(),
        0 <= b < c.edits.len(),
        c.edits[a] is Some,
        c.edits[b] is Some,
        c.edits[a]->0.editgroup_id == c.edits[b]->0.editgroup_id,
        c.edits[a]->0.ident == c.edits[b]->0.ident,
    ensures
        a == b,
{
}

/// Creating an entity again in its editgroup leaves the editgroup with one
/// edit on it, and reading the identifier gives the new content.
pub proof fn law_recreate_replaces(
    c: CatalogView,
    ctx: EditContext,
    t: EntityType,
    id: u128,
    content: ContentView,
)
    requires
        c.wf(),
        crate::editing::recreate_verdict(c, ctx, t, id, content) is Ok,
    ensures
        ({
            let stored = crate::editing::recreate_verdict(c, ctx, t, id, content)->Ok_0;
            let d = crate::editing::after_recreate(c, ctx, t, id, stored);
            &&& d.edits.len() == c.edits.len()
            &&& d.idents.len() == c.idents.len()
            &&& d.group_edit(ctx.editgroup_id, id) == Some(
                crate::editing::recreated_edit(c, ctx, t, id),
            )
            &&& get_verdict(d, t, id, hide_nothing()) == Ok::<FoundView, ErrorView>(
                FoundView::Entity(
                    EntityView {
                        entity_type: t,
                        ident: Some(IdentRow { rev_id: Some(c.next_rev()), ..c.ident(id) }),
                        revision: c.next_rev(),
                        content: revision_content(stored),
                    },
                ),
            )
        }),
{
    let g = ctx.editgroup_id;
    let stored = crate::editing::recreate_verdict(c, ctx, t, id, content)->Ok_0;
    let e = crate::editing::recreated_edit(c, ctx, t, id);
    let d = crate::editing::after_recreate(c, ctx, t, id, stored);
    crate::editing::lemma_after_recreate_wf(c, ctx, t, id, stored);
    lemma_group_edit_from(c, g, id, 0);
    let p = e.edit_id - 1;
    assert(d.is_group_edit_at(p, g, id));
    lemma_group_edit_is(d, p, g, id);
    assert(c.idents[id - 1].ident == id);
}


/// The error with which an acceptance is refused is one: whatever else is
/// wrong with the editgroup, it is the first thing wrong that is reported.
pub proof fn law_accept_error_is_one(c: CatalogView, g: u128, a: ErrorView, b: ErrorView)
    requires
        accept_error(c, g, a),
        accept_error(c, g, b),
    ensures
        a == b,
        !accept_ok(c, g),
{
    if a is EditConflict && b is EditConflict {
        assert(first_conflict(c, g, a->EditConflict_0));
        assert(first_conflict(c, g, b->EditConflict_0));
    }
    if a is DuplicateExternalId && b is DuplicateExternalId {
        let (ia, xa) = choose|id: u128, x: int|
            first_clash(c, g, id) && #[trigger] first_shared(c, g, id, x)
                && crate::catalog::held_ext_ids(
                c.revisions,
                crate::accept::candidate_rows(c, g)[id - 1],
            )[x] == (a->DuplicateExternalId_0, a->DuplicateExternalId_1);
        let (ib, xb) = choose|id: u128, x: int|
            first_clash(c, g, id) && #[trigger] first_shared(c, g, id, x)
                && crate::catalog::held_ext_ids(
                c.revisions,
                crate::accept::candidate_rows(c, g)[id - 1],
            )[x] == (b->DuplicateExternalId_0, b->DuplicateExternalId_1);
        assert(ia == ib);
        assert(xa == xb);
    }
}


/// What a lookup gives is one: the contract of a lookup leaves no choice.
pub proof fn law_lookup_result_is_one(
    c: CatalogView,
    t: EntityType,
    k: ExtIdKind,
    text: Seq<char>,
    hide: HideFlags,
    a: Result<EntityView, ErrorView>,
    b: Result<EntityView, ErrorView>,
)
    requires
        crate::lookup::lookup_result(c, t, k, text, hide, a),
        crate::lookup::lookup_result(c, t, k, text, hide, b),
    ensures
        a == b,
{
}

/// What a batch gives, and the catalog that it leaves, are one.
pub proof fn law_batch_result_is_one(
    c: CatalogView,
    editor_id: u128,
    editgroup_id: Option<u128>,
    autoaccept: bool,
    t: EntityType,
    contents: Seq<ContentView>,
    now: i64,
    after_a: CatalogView,
    a: Result<Seq<EditRow>, ErrorView>,
    after_b: CatalogView,
    b: Result<Seq<EditRow>, ErrorView>,
)
    requires
        crate::batch::batch_result(c, editor_id, editgroup_id, autoaccept, t, contents, now, after_a, a),
        crate::batch::batch_result(c, editor_id, editgroup_id, autoaccept, t, contents, now, after_b, b),
    ensures
        a == b,
        after_a == after_b,
{
    let ctx = crate::editing::edit_context_verdict(c, editor_id, editgroup_id, autoaccept);
    if ctx is Ok {
        let made = crate::batch::batch_all(
            crate::batch::batch_start(c, editor_id, editgroup_id, now),
            ctx->Ok_0,
            t,
            contents,
        );
        if made is Ok && autoaccept && !accept_ok(made->Ok_0.0, ctx->Ok_0.editgroup_id) {
            law_accept_error_is_one(made->Ok_0.0, ctx->Ok_0.editgroup_id, a->Err_0, b->Err_0);
        }
    }
}


/// `e` is an edit of editgroup `g`, and the only one.
pub open spec fn only_edit(c: CatalogView, g: u128, e: EditRow) -> bool {
    &&& e.editgroup_id == g
    &&& exists|k: int| 0 <= k < c.edits.len() && #[trigger] c.edits[k] == Some(e)
    &&& forall|k: int|
        0 <= k < c.edits.len() && (#[trigger] c.edits[k]) is Some && c.edits[k]->0.editgroup_id == g
            ==> c.edits[k] == Some(e)
}

/// Editgroup `g` holds no edit.
pub open spec fn no_edits(c: CatalogView, g: u128) -> bool {
    forall|k: int|
        0 <= k < c.edits.len() && (#[trigger] c.edits[k]) is Some ==> c.edits[k]->0.editgroup_id != g
}

/// No row of an entity of type `t`, but that of `id`, holds one of the
/// external identifiers `ids`.
pub open spec fn held_by_no_other(
    c: CatalogView,
    t: EntityType,
    id: u128,
    ids: Seq<(ExtIdKind, Seq<char>)>,
) -> bool {
    forall|j: int, k: ExtIdKind, v: Seq<char>|
        0 <= j < c.idents.len() && j != id - 1 && c.idents[j].entity_type == t
            && #[trigger] holds_ext_id(c.revisions, c.idents[j], k, v) ==> !ids.contains((k, v))
}

/// No identifier redirects to `id`.
pub open spec fn no_redirect_to(c: CatalogView, id: u128) -> bool {
    forall|j: int| 0 <= j < c.idents.len() ==> (#[trigger] c.idents[j]).redirect_id != Some(id)
}

/// Where an editgroup holds one edit, applying its edits rewrites one row.
pub proof fn lemma_single_candidate(c: CatalogView, g: u128, e: EditRow)
    requires
        c.wf(),
        only_edit(c, g, e),
    ensures
        c.has_ident(e.ident),
        c.ident(e.ident).entity_type == e.entity_type,
        c.group_edit(g, e.ident) == Some(e),
        forall|id: u128| id != e.ident ==> c.group_edit(g, id) is None,
        crate::accept::candidate_rows(c, g) == c.idents.update(
            e.ident - 1,
            accepted_row(c.ident(e.ident), e),
        ),
{
    let k = choose|k: int| 0 <= k < c.edits.len() && #[trigger] c.edits[k] == Some(e);
    assert(crate::catalog::edit_ok(e, k, c.editgroups.len(), c.idents, c.revisions));
    lemma_group_edit_is(c, k, g, e.ident);
    assert forall|id: u128| id != e.ident implies c.group_edit(g, id) is None by {
        lemma_group_edit_from(c, g, id, 0);
    }
    let rows = crate::accept::candidate_rows(c, g);
    let want = c.idents.update(e.ident - 1, accepted_row(c.ident(e.ident), e));
    assert forall|i: int| 0 <= i < rows.len() implies rows[i] == want[i] by {
        let id = (i + 1) as u128;
        if id != e.ident {
            assert(c.group_edit(g, id) is None);
        }
    }
    assert(rows =~= want);
}

/// The acceptance of an editgroup that holds one edit succeeds where the
/// editgroup is open, the changelog is not full, the edit was made against
/// the revision that its identifier, if live, points to, no other row holds
/// an external identifier of the edit's revision, and, for a redirect, the
/// target is another identifier that is live and does not redirect, and
/// nothing redirects to the identifier itself.
pub proof fn law_single_edit_is_accepted(c: CatalogView, g: u128, e: EditRow)
    requires
        c.wf(),
        c.is_open(g),
        c.changelog.len() + 1 < i64::MAX,
        only_edit(c, g, e),
        c.has_ident(e.ident) && c.ident(e.ident).is_live ==> e.prev_rev == c.ident(e.ident).rev_id,
        e.rev_id is Some ==> held_by_no_other(
            c,
            e.entity_type,
            e.ident,
            c.revision(e.rev_id->0).content.ext_ids,
        ),
        e.redirect_id is Some ==> e.redirect_id->0 != e.ident && crate::catalog::redirect_ok(
            c.idents,
            e.entity_type,
            e.redirect_id->0,
        ) && no_redirect_to(c, e.ident),
    ensures
        accept_ok(c, g),
{
    lemma_single_candidate(c, g, e);
    let p = e.ident - 1;
    let rows = crate::accept::candidate_rows(c, g);
    let revs = c.revisions;
    let k0 = choose|k: int| 0 <= k < c.edits.len() && #[trigger] c.edits[k] == Some(e);
    assert(crate::catalog::edit_ok(e, k0, c.editgroups.len(), c.idents, c.revisions));
    assert forall|id: u128| !crate::accept::conflicts(c, g, id) by {
        if id != e.ident {
            assert(c.group_edit(g, id) is None);
        }
    }
    assert forall|i: int, j: int, k: ExtIdKind, v: Seq<char>|
        0 <= i < rows.len() && 0 <= j < rows.len() && i != j && rows[i].entity_type
            == rows[j].entity_type && #[trigger] holds_ext_id(revs, rows[i], k, v)
            && #[trigger] holds_ext_id(revs, rows[j], k, v) implies false by {
        if i != p && j != p {
            assert(holds_ext_id(revs, c.idents[i], k, v));
            assert(holds_ext_id(revs, c.idents[j], k, v));
        } else if i == p {
            assert(holds_ext_id(revs, c.idents[j], k, v));
        } else {
            assert(holds_ext_id(revs, c.idents[i], k, v));
        }
    }
    assert forall|i: int| 0 <= i < rows.len() && (#[trigger] rows[i]).redirect_id is Some implies rows[i].is_live
        && crate::catalog::redirect_ok(rows, rows[i].entity_type, rows[i].redirect_id->0) by {
        if i != p {
            assert(c.idents[i].redirect_id is Some);
            assert(crate::catalog::redirect_ok(
                c.idents,
                c.idents[i].entity_type,
                c.idents[i].redirect_id->0,
            ));
        }
    }
}

/// The acceptance of an editgroup whose one edit was made against a revision
/// that its identifier, which is live, no longer points to is refused with
/// an edit conflict on that identifier, and with nothing else.
pub proof fn law_stale_edit_conflicts(c: CatalogView, g: u128, e: EditRow)
    requires
        c.wf(),
        c.is_open(g),
        c.changelog.len() + 1 < i64::MAX,
        only_edit(c, g, e),
        c.ident(e.ident).is_live,
        e.prev_rev != c.ident(e.ident).rev_id,
    ensures
        !accept_ok(c, g),
        accept_error(c, g, ErrorView::EditConflict(e.ident)),
        forall|err: ErrorView| accept_error(c, g, err) ==> err == ErrorView::EditConflict(e.ident),
{
    lemma_single_candidate(c, g, e);
    assert(crate::accept::conflicts(c, g, e.ident));
    assert forall|o: u128| crate::accept::conflicts(c, g, o) implies crate::accept::applied_before(
        c,
        e.ident,
        o,
    ) by {
        if o != e.ident {
            assert(c.group_edit(g, o) is None);
        }
    }
    assert(first_conflict(c, g, e.ident));
    assert forall|err: ErrorView| accept_error(c, g, err) implies err == ErrorView::EditConflict(
        e.ident,
    ) by {
        law_accept_error_is_one(c, g, err, ErrorView::EditConflict(e.ident));
    }
}

/// Writing an edit into an editgroup that holds none leaves it with that
/// edit alone, in a new row.
pub proof fn lemma_first_edit_of_group(c: CatalogView, e: EditRow)
    requires
        c.consistent(),
        no_edits(c, e.editgroup_id),
        e.edit_id == c.edit_slot(e.editgroup_id, e.ident) + 1,
    ensures
        e.edit_id == c.edits.len() + 1,
        c.with_edit(e).edits == c.edits.push(Some(e)),
        only_edit(c.with_edit(e), e.editgroup_id, e),
{
    lemma_group_edit_from(c, e.editgroup_id, e.ident, 0);
    let d = c.with_edit(e);
    assert(d.edits[c.edits.len() as int] == Some(e));
}

/// An entity that was created in an editgroup of its own is accepted with
/// it, where the changelog is not full and no live entity of its type holds
/// one of its external identifiers; it is then live and is read back.
pub proof fn law_create_then_accept(
    c: CatalogView,
    ctx: EditContext,
    t: EntityType,
    content: ContentView,
    now: i64,
    hide: HideFlags,
)
    requires
        c.wf(),
        create_verdict(c, ctx, t, content) is Ok,
        no_edits(c, ctx.editgroup_id),
        c.changelog.len() + 1 < i64::MAX,
        held_by_no_other(
            c,
            t,
            c.next_ident(),
            create_verdict(c, ctx, t, content)->Ok_0.ext_ids,
        ),
        after_create(c, ctx, t, create_verdict(c, ctx, t, content)->Ok_0).sizes_ok(),
    ensures
        ({
            let stored = create_verdict(c, ctx, t, content)->Ok_0;
            let e = created_edit(c, ctx, t);
            let made = after_create(c, ctx, t, stored);
            let d = after_accept(made, ctx.editgroup_id, now);
            &&& accept_ok(made, ctx.editgroup_id)
            &&& d.ident(e.ident) == (IdentRow {
                entity_type: t,
                ident: e.ident,
                is_live: true,
                rev_id: e.rev_id,
                redirect_id: None,
            })
            &&& get_verdict(d, t, e.ident, hide) is Ok
            &&& get_verdict(d, t, e.ident, hide)->Ok_0 is Entity
            &&& get_verdict(d, t, e.ident, hide)->Ok_0->Entity_0.revision == e.rev_id->0
            &&& get_verdict(d, t, e.ident, hide)->Ok_0->Entity_0.content == hidden(
                revision_content(stored),
                hide,
            )
        }),
{
    let g = ctx.editgroup_id;
    let stored = create_verdict(c, ctx, t, content)->Ok_0;
    let e = created_edit(c, ctx, t);
    let made = after_create(c, ctx, t, stored);
    lemma_after_create_wf(c, ctx, t, stored);
    assert(made.edits[c.edits.len() as int] == Some(e));
    assert(only_edit(made, g, e));
    assert forall|j: int, k: ExtIdKind, v: Seq<char>|
        0 <= j < made.idents.len() && j != e.ident - 1 && made.idents[j].entity_type == t
            && #[trigger] holds_ext_id(made.revisions, made.idents[j], k, v) implies !stored.ext_ids.contains(
        (k, v),
    ) by {
        assert(holds_ext_id(c.revisions, c.idents[j], k, v));
    }
    law_single_edit_is_accepted(made, g, e);
    law_get_after_create_accept(c, ctx, t, content, now, hide);
}

/// An update of a live entity in an editgroup of its own is accepted with
/// it, where the changelog is not full and no other live entity of its type
/// holds one of the new revision's external identifiers.
pub proof fn law_update_then_accept(
    c: CatalogView,
    ctx: EditContext,
    t: EntityType,
    id: u128,
    revision: Option<u128>,
    content: ContentView,
)
    requires
        c.wf(),
        update_verdict(c, ctx, t, id, revision, None, content) is Ok,
        no_edits(c, ctx.editgroup_id),
        c.changelog.len() + 1 < i64::MAX,
        held_by_no_other(
            c,
            t,
            id,
            update_verdict(c, ctx, t, id, revision, None, content)->Ok_0->0.ext_ids,
        ),
        after_update(
            c,
            ctx,
            t,
            id,
            None,
            update_verdict(c, ctx, t, id, revision, None, content)->Ok_0,
        ).sizes_ok(),
    ensures
        accept_ok(
            after_update(
                c,
                ctx,
                t,
                id,
                None,
                update_verdict(c, ctx, t, id, revision, None, content)->Ok_0,
            ),
            ctx.editgroup_id,
        ),
{
    let g = ctx.editgroup_id;
    let stored = update_verdict(c, ctx, t, id, revision, None, content)->Ok_0;
    let e = updated_edit(c, ctx, t, id, None);
    let cr = c.with_revision(t, stored->0);
    let made = after_update(c, ctx, t, id, None, stored);
    lemma_with_revision_wf(c, t, stored->0);
    lemma_group_edit_from(c, g, id, 0);
    assert(c.idents[id - 1].ident == id);
    lemma_with_edit_wf(cr, e);
    lemma_first_edit_of_group(cr, e);
    assert forall|j: int, k: ExtIdKind, v: Seq<char>|
        0 <= j < made.idents.len() && j != id - 1 && made.idents[j].entity_type == t
            && #[trigger] holds_ext_id(made.revisions, made.idents[j], k, v) implies !made.revision(
        e.rev_id->0,
    ).content.ext_ids.contains((k, v)) by {
        assert(holds_ext_id(c.revisions, c.idents[j], k, v));
    }
    law_single_edit_is_accepted(made, g, e);
}

/// A redirect of a live entity, written in an editgroup of its own, is
/// accepted with it, where the changelog is not full, the target is live and
/// does not redirect, and nothing redirects to the entity. The entity then
/// reads as a redirect to the target, and the target is as it was.
pub proof fn law_redirect_then_accept(
    c: CatalogView,
    ctx: EditContext,
    t: EntityType,
    id: u128,
    revision: Option<u128>,
    target: u128,
    content: ContentView,
    now: i64,
    hide: HideFlags,
)
    requires
        c.wf(),
        update_verdict(c, ctx, t, id, revision, Some(target), content) is Ok,
        no_edits(c, ctx.editgroup_id),
        c.changelog.len() + 1 < i64::MAX,
        c.ident(target).is_live,
        c.ident(target).redirect_id is None,
        no_redirect_to(c, id),
        after_update(c, ctx, t, id, Some(target), None).sizes_ok(),
    ensures
        ({
            let made = after_update(c, ctx, t, id, Some(target), None);
            let d = after_accept(made, ctx.editgroup_id, now);
            &&& update_verdict(c, ctx, t, id, revision, Some(target), content)->Ok_0 is None
            &&& accept_ok(made, ctx.editgroup_id)
            &&& d.ident(id) == (IdentRow {
                is_live: true,
                rev_id: None,
                redirect_id: Some(target),
                ..c.ident(id)
            })
            &&& d.ident(target) == c.ident(target)
            &&& get_verdict(d, t, id, hide) == Ok::<FoundView, ErrorView>(FoundView::Redirect(target))
        }),
{
    let g = ctx.editgroup_id;
    let e = updated_edit(c, ctx, t, id, Some(target));
    let made = after_update(c, ctx, t, id, Some(target), None);
    lemma_group_edit_from(c, g, id, 0);
    assert(c.idents[id - 1].ident == id);
    assert(c.idents[target - 1].ident == target);
    lemma_with_edit_wf(c, e);
    lemma_first_edit_of_group(c, e);
    law_single_edit_is_accepted(made, g, e);
    lemma_single_candidate(made, g, e);
}


/// No revision holds the metadata of an edit, and every edit that was
/// removed has lost its own.
pub proof fn law_edit_metadata_is_kept_apart(c: CatalogView, r: u128, e: u128)
    requires
        c.wf(),
    ensures
        c.has_revision(r) ==> c.revision(r).content.edit_extra is None,
        c.edit_extras.len() == c.edits.len(),
        1 <= e <= c.edits.len() && !c.has_edit(e) ==> c.edit_extra(e) is None,
{
    if 1 <= e <= c.edits.len() && !c.has_edit(e) {
        assert(c.edit_extras[e - 1] is None);
    }
}


/// No identifier held the external identifier `(k, v)` when it was
/// redirected, but perhaps `id`.
pub open spec fn once_held_by_no_other(c: CatalogView, id: u128, k: ExtIdKind, v: Seq<char>) -> bool {
    forall|o: u128| o != id ==> !#[trigger] crate::lookup::once_held(c, o, k, v)
}

/// After the acceptance of an editgroup that holds one edit, an identifier
/// other than the edit's held an external identifier when it was redirected
/// only if it did before.
proof fn lemma_once_held_after_accept(
    c: CatalogView,
    g: u128,
    e: EditRow,
    now: i64,
    o: u128,
    k: ExtIdKind,
    v: Seq<char>,
)
    requires
        c.wf(),
        accept_ok(c, g),
        only_edit(c, g, e),
        o != e.ident,
        crate::lookup::once_held(after_accept(c, g, now), o, k, v),
    ensures
        crate::lookup::once_held(c, o, k, v),
{
    let d = after_accept(c, g, now);
    let p = choose|p: int| #[trigger] crate::lookup::redirected_from(d, o, k, v, p);
    assert(crate::catalog::edit_ok(c.edits[p]->0, p, c.editgroups.len(), c.idents, c.revisions));
    if c.edits[p]->0.editgroup_id == g {
        assert(c.edits[p] == Some(e));
    }
    assert(crate::lookup::redirected_from(c, o, k, v, p));
}

/// After an editgroup is accepted whose one edit gives its identifier a
/// revision, a lookup by an external identifier of that revision finds the
/// entity, where no other live entity of the type holds the external
/// identifier and no other identifier held it when it was redirected.
pub proof fn law_lookup_after_accept(
    c: CatalogView,
    g: u128,
    e: EditRow,
    now: i64,
    k: ExtIdKind,
    text: Seq<char>,
    hide: HideFlags,
)
    requires
        c.wf(),
        accept_ok(c, g),
        only_edit(c, g, e),
        e.rev_id is Some,
        crate::extids::kind_applies(e.entity_type, k),
        ext_id_verdict(k, text) is Ok,
        c.revision(e.rev_id->0).content.ext_ids.contains((k, ext_id_verdict(k, text)->Ok_0)),
        held_by_no_other(c, e.entity_type, e.ident, seq![(k, ext_id_verdict(k, text)->Ok_0)]),
        once_held_by_no_other(c, e.ident, k, ext_id_verdict(k, text)->Ok_0),
    ensures
        ({
            let d = after_accept(c, g, now);
            crate::lookup::lookup_result(
                d,
                e.entity_type,
                k,
                text,
                hide,
                Ok::<EntityView, ErrorView>(crate::reading::entity_of(d, d.ident(e.ident), hide)),
            )
        }),
{
    let t = e.entity_type;
    let v = ext_id_verdict(k, text)->Ok_0;
    let d = after_accept(c, g, now);
    let p = e.ident - 1;
    lemma_single_candidate(c, g, e);
    let k0 = choose|k0: int| 0 <= k0 < c.edits.len() && #[trigger] c.edits[k0] == Some(e);
    assert(crate::catalog::edit_ok(e, k0, c.editgroups.len(), c.idents, c.revisions));
    assert(c.idents[p].ident == e.ident);
    assert(d.idents[p] == accepted_row(c.idents[p], e));
    assert(holds_ext_id(d.revisions, d.idents[p], k, v));
    assert(crate::lookup::lookup_hit(d, t, d.idents[p], k, v) == Some(e.ident));
    assert forall|j: int| 0 <= j < d.idents.len() && j != p implies crate::lookup::lookup_hit(
        d,
        t,
        #[trigger] d.idents[j],
        k,
        v,
    ) is None by {
        assert(d.idents[j] == c.idents[j]);
        assert(c.idents[j].ident == j + 1);
        if c.idents[j].entity_type == t && holds_ext_id(c.revisions, c.idents[j], k, v) {
            assert(seq![(k, v)][0] == (k, v));
            assert(seq![(k, v)].contains((k, v)));
        }
        if crate::lookup::once_held(d, c.idents[j].ident, k, v) {
            lemma_once_held_after_accept(c, g, e, now, c.idents[j].ident, k, v);
        }
    }
    assert(crate::lookup::is_hit(d, t, k, v, e.ident));
    assert forall|a: u128| crate::lookup::is_hit(d, t, k, v, a) implies a == e.ident by {
        let j = choose|j: int|
            0 <= j < d.idents.len() && crate::lookup::lookup_hit(d, t, #[trigger] d.idents[j], k, v)
                == Some(a);
        if j != p {
            assert(crate::lookup::lookup_hit(d, t, d.idents[j], k, v) is None);
        }
    }
}

/// After an editgroup is accepted whose one edit redirects its identifier, a
/// lookup by an external identifier of the revision that the identifier
/// pointed to finds the entity that it now redirects to, where no live
/// entity of the type holds the external identifier and no other identifier
/// held it when it was redirected.
pub proof fn law_lookup_through_redirect(
    c: CatalogView,
    g: u128,
    e: EditRow,
    now: i64,
    k: ExtIdKind,
    text: Seq<char>,
    hide: HideFlags,
)
    requires
        c.wf(),
        accept_ok(c, g),
        only_edit(c, g, e),
        e.redirect_id is Some,
        e.prev_rev is Some,
        c.has_revision(e.prev_rev->0),
        c.ident(e.redirect_id->0).rev_id is Some,
        crate::extids::kind_applies(e.entity_type, k),
        ext_id_verdict(k, text) is Ok,
        c.revision(e.prev_rev->0).content.ext_ids.contains((k, ext_id_verdict(k, text)->Ok_0)),
        held_by_no_other(c, e.entity_type, e.ident, seq![(k, ext_id_verdict(k, text)->Ok_0)]),
        once_held_by_no_other(c, e.ident, k, ext_id_verdict(k, text)->Ok_0),
    ensures
        ({
            let d = after_accept(c, g, now);
            &&& d.ident(e.ident).redirect_id == e.redirect_id
            &&& d.ident(e.redirect_id->0) == c.ident(e.redirect_id->0)
            &&& crate::lookup::lookup_result(
                d,
                e.entity_type,
                k,
                text,
                hide,
                Ok::<EntityView, ErrorView>(
                    crate::reading::entity_of(d, d.ident(e.redirect_id->0), hide),
                ),
            )
        }),
{
    let t = e.entity_type;
    let v = ext_id_verdict(k, text)->Ok_0;
    let d = after_accept(c, g, now);
    let p = e.ident - 1;
    let target = e.redirect_id->0;
    lemma_single_candidate(c, g, e);
    lemma_after_accept_wf(c, g, now);
    let k0 = choose|k0: int| 0 <= k0 < c.edits.len() && #[trigger] c.edits[k0] == Some(e);
    assert(crate::catalog::edit_ok(e, k0, c.editgroups.len(), c.idents, c.revisions));
    assert(c.idents[p].ident == e.ident);
    assert(d.idents[p] == accepted_row(c.idents[p], e));
    // the redirect is in order once accepted, so the target is another, live row
    assert(crate::catalog::redirect_ok(d.idents, d.idents[p].entity_type, target));
    assert(target != e.ident);
    assert(d.idents[target - 1] == c.idents[target - 1]);
    assert(c.idents[target - 1].ident == target);
    assert(crate::lookup::redirected_from(d, e.ident, k, v, k0));
    assert(crate::lookup::lookup_hit(d, t, d.idents[p], k, v) == Some(target));
    assert forall|j: int| 0 <= j < d.idents.len() && j != p implies crate::lookup::lookup_hit(
        d,
        t,
        #[trigger] d.idents[j],
        k,
        v,
    ) is None by {
        assert(d.idents[j] == c.idents[j]);
        assert(c.idents[j].ident == j + 1);
        if c.idents[j].entity_type == t && holds_ext_id(c.revisions, c.idents[j], k, v) {
            assert(seq![(k, v)][0] == (k, v));
            assert(seq![(k, v)].contains((k, v)));
        }
        if crate::lookup::once_held(d, c.idents[j].ident, k, v) {
            lemma_once_held_after_accept(c, g, e, now, c.idents[j].ident, k, v);
        }
    }
    assert(crate::lookup::is_hit(d, t, k, v, target));
    assert forall|a: u128| crate::lookup::is_hit(d, t, k, v, a) implies a == target by {
        let j = choose|j: int|
            0 <= j < d.idents.len() && crate::lookup::lookup_hit(d, t, #[trigger] d.idents[j], k, v)
                == Some(a);
        if j != p {
            assert(crate::lookup::lookup_hit(d, t, d.idents[j], k, v) is None);
        }
    }
}

} // verus!

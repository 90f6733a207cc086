//! Writing edits: the edit context, and the creation, update and deletion of
//! entities within an open editgroup.
//!
//! No operation here changes what a live identifier points to: each writes a
//! revision and an edit row, and the identifier follows when the editgroup
//! is accepted.

use vstd::prelude::*;
use vstd::string::*;
use crate::accounts::lemma_accepted_edit_same;
use crate::auth::{editgroup_verdict, AuthContext};
use crate::catalog::{
    edit_ok, edits_distinct, has_accepted_edit, holds_ext_id, is_accepted_edit_at, Catalog,
    CatalogView,
};
use crate::errors::{EntityType, ErrorView, ExtIdKind, FatcatError, Resource};
use crate::extids::{ext_id_kind_applies, ext_id_verdict, kind_applies, validate_ext_id};
use crate::model::{
    ext_ids_view, revision_content, ContentView, EditRow, EntityContent, ExternalId, IdentRow,
    RevisionRow, RevisionView,
};

verus! {

/// On whose behalf and into which editgroup edits are written.
#[derive(Clone, Copy, Debug, PartialEq, Eq, Structural)]
pub struct EditContext {
    pub editor_id: u128,
    pub editgroup_id: u128,
    pub autoaccept: bool,
}

/// The verdict on an edit context: its editor must exist, and its editgroup
/// must exist and be open.
pub open spec fn context_verdict(c: CatalogView, ctx: EditContext) -> Result<(), ErrorView> {
    if !c.has_editor(ctx.editor_id) {
        Err(ErrorView::NotFound(Resource::Editor(ctx.editor_id)))
    } else if !c.has_editgroup(ctx.editgroup_id) {
        Err(ErrorView::NotFound(Resource::Editgroup(ctx.editgroup_id)))
    } else if c.editgroup(ctx.editgroup_id).changelog_id is Some {
        Err(ErrorView::EditgroupAlreadyAccepted)
    } else {
        Ok(())
    }
}

pub open spec fn kind_misplaced_text() -> Seq<char> {
    "external identifier does not apply to this entity type"@
}

pub open spec fn kind_repeated_text() -> Seq<char> {
    "external identifier given twice"@
}

pub open spec fn not_live_text() -> Seq<char> {
    "entity is not live"@
}

/// Whether a kind occurs among external identifiers.
pub open spec fn has_kind(ids: Seq<(ExtIdKind, Seq<char>)>, k: ExtIdKind) -> bool {
    exists|i: int| 0 <= i < ids.len() && (#[trigger] ids[i]).0 == k
}

/// The verdict on the external identifiers of a revision of entity type `t`:
/// their stored forms, or the error of the first that is refused. Each must
/// be of a kind that the entity type carries, no kind may occur twice, and
/// each must be valid for its kind.
pub open spec fn ext_ids_verdict(t: EntityType, ids: Seq<(ExtIdKind, Seq<char>)>) -> Result<
    Seq<(ExtIdKind, Seq<char>)>,
    ErrorView,
>
    decreases ids.len(),
{
    if ids.len() == 0 {
        Ok(Seq::empty())
    } else {
        match ext_ids_verdict(t, ids.drop_last()) {
            Err(e) => Err(e),
            Ok(before) => {
                let (k, v) = ids.last();
                if !kind_applies(t, k) {
                    Err(ErrorView::OtherBadRequest(kind_misplaced_text()))
                } else if has_kind(before, k) {
                    Err(ErrorView::OtherBadRequest(kind_repeated_text()))
                } else {
                    match ext_id_verdict(k, v) {
                        Err(e) => Err(e),
                        Ok(stored) => Ok(before.push((k, stored))),
                    }
                }
            },
        }
    }
}

/// The verdict on content offered for a revision of entity type `t`: the
/// content as it is stored, or the error.
pub open spec fn content_verdict(t: EntityType, content: ContentView) -> Result<
    ContentView,
    ErrorView,
> {
    match ext_ids_verdict(t, content.ext_ids) {
        Err(e) => Err(e),
        Ok(ids) => Ok(ContentView { ext_ids: ids, ..content }),
    }
}

/// Checks the external identifiers of a revision and returns their stored forms.
pub fn check_ext_ids(t: EntityType, ids: &Vec<ExternalId>) -> (r: Result<Vec<ExternalId>, FatcatError>)
    ensures
        match r {
            Ok(out) => ext_ids_verdict(t, ext_ids_view(ids@)) == Ok::<
                Seq<(ExtIdKind, Seq<char>)>,
                ErrorView,
            >(ext_ids_view(out@)),
            Err(e) => ext_ids_verdict(t, ext_ids_view(ids@)) == Err::<
                Seq<(ExtIdKind, Seq<char>)>,
                ErrorView,
            >(e@),
        },
{
    let ghost all = ext_ids_view(ids@);
    let mut out: Vec<ExternalId> = Vec::new();
    let mut i: usize = 0;
    assert(all.subrange(0, 0) =~= Seq::empty());
    assert(ext_ids_view(out@) =~= Seq::empty());
    while i < ids.len()
        invariant
            i <= ids@.len(),
            all == ext_ids_view(ids@),
            ext_ids_verdict(t, all.subrange(0, i as int)) == Ok::<
                Seq<(ExtIdKind, Seq<char>)>,
                ErrorView,
            >(ext_ids_view(out@)),
        decreases ids@.len() - i,
    {
        let ghost before = ext_ids_view(out@);
        let ghost next = all.subrange(0, i + 1);
        proof {
            assert(next.drop_last() =~= all.subrange(0, i as int));
            assert(next.last() == ids@[i as int]@);
            lemma_verdict_prefix(t, all, i + 1);
        }
        let k = ids[i].kind;
        if !ext_id_kind_applies(t, k) {
            return Err(
                FatcatError::OtherBadRequest(
                    String::from_str("external identifier does not apply to this entity type"),
                ),
            );
        }
        let mut dup = false;
        let mut j: usize = 0;
        while j < out.len()
            invariant
                j <= out@.len(),
                before == ext_ids_view(out@),
                dup <==> exists|m: int| 0 <= m < j && (#[trigger] before[m]).0 == k,
            decreases out@.len() - j,
        {
            if out[j].kind == k {
                assert(before[j as int].0 == k);
                dup = true;
            }
            j += 1;
        }
        if dup {
            return Err(FatcatError::OtherBadRequest(String::from_str("external identifier given twice")));
        }
        match validate_ext_id(k, ids[i].value.as_str()) {
            Err(e) => {
                return Err(e);
            },
            Ok(stored) => {
                out.push(ExternalId { kind: k, value: stored });
                assert(ext_ids_view(out@) =~= before.push((k, stored@)));
            },
        }
        i += 1;
    }
    assert(all.subrange(0, i as int) =~= all);
    Ok(out)
}

/// An error among the first external identifiers is the error of the whole list.
proof fn lemma_verdict_prefix(t: EntityType, ids: Seq<(ExtIdKind, Seq<char>)>, n: int)
    requires
        0 <= n <= ids.len(),
    ensures
        ext_ids_verdict(t, ids.subrange(0, n)) is Err ==> ext_ids_verdict(t, ids) == ext_ids_verdict(
            t,
            ids.subrange(0, n),
        ),
    decreases ids.len() - n,
{
    if n < ids.len() {
        lemma_verdict_prefix(t, ids, n + 1);
        assert(ids.subrange(0, n + 1).drop_last() =~= ids.subrange(0, n));
    } else {
        assert(ids.subrange(0, n) =~= ids);
    }
}

/// Checks content offered for a revision and returns it as it is stored.
pub fn check_content(t: EntityType, content: EntityContent) -> (r: Result<EntityContent, FatcatError>)
    ensures
        match r {
            Ok(c) => content_verdict(t, content@) == Ok::<ContentView, ErrorView>(c@),
            Err(e) => content_verdict(t, content@) == Err::<ContentView, ErrorView>(e@),
        },
{
    match check_ext_ids(t, &content.ext_ids) {
        Err(e) => Err(e),
        Ok(ids) => Ok(
            EntityContent {
                title: content.title,
                ext_ids: ids,
                work_id: content.work_id,
                container_id: content.container_id,
                release_ids: content.release_ids,
                contribs: content.contribs,
                refs: content.refs,
                abstracts: content.abstracts,
                extra: content.extra,
                edit_extra: content.edit_extra,
            },
        ),
    }
}

impl EditContext {
    /// Checks this context against the catalog as it is now; see
    /// [`Catalog::check_context`].
    pub fn check(&self, catalog: &Catalog) -> (r: Result<(), FatcatError>)
        ensures
            match r {
                Ok(_) => context_verdict(catalog@, *self) is Ok,
                Err(e) => context_verdict(catalog@, *self) == Err::<(), ErrorView>(e@),
            },
    {
        catalog.check_context(self)
    }
}

impl Catalog {
    /// Checks an edit context against the catalog as it is now: the editor
    /// must exist, and the editgroup must exist and still be open.
    pub fn check_context(&self, ctx: &EditContext) -> (r: Result<(), FatcatError>)
        ensures
            match r {
                Ok(_) => context_verdict(self@, *ctx) is Ok,
                Err(e) => context_verdict(self@, *ctx) == Err::<(), ErrorView>(e@),
            },
    {
        if self.editor_place(ctx.editor_id).is_none() {
            return Err(FatcatError::NotFound(Resource::Editor(ctx.editor_id)));
        }
        match self.editgroup_place(ctx.editgroup_id) {
            None => Err(FatcatError::NotFound(Resource::Editgroup(ctx.editgroup_id))),
            Some(i) => {
                assert(self@.editgroup(ctx.editgroup_id) == self.editgroups@[i as int]@);
                if self.editgroups[i].changelog_id.is_some() {
                    Err(FatcatError::EditgroupAlreadyAccepted)
                } else {
                    Ok(())
                }
            },
        }
    }
}


impl CatalogView {
    /// The id that the next revision gets.
    pub open spec fn next_rev(self) -> u128 {
        (self.revisions.len() + 1) as u128
    }

    /// The id that the next identifier gets.
    pub open spec fn next_ident(self) -> u128 {
        (self.idents.len() + 1) as u128
    }

    /// The place at which an edit of editgroup `g` on identifier `id` is
    /// written: that of the editgroup's earlier edit on the identifier where
    /// there is one, the end of the table where not.
    pub open spec fn edit_slot(self, g: u128, id: u128) -> int {
        match self.group_edit_from(g, id, 0) {
            Some(k) => k,
            None => self.edits.len() as int,
        }
    }

    /// The catalog with one more revision, which holds the content without
    /// the metadata of the edit.
    pub open spec fn with_revision(self, t: EntityType, content: ContentView) -> CatalogView {
        CatalogView {
            revisions: self.revisions.push(
                RevisionView {
                    rev_id: self.next_rev(),
                    entity_type: t,
                    content: revision_content(content),
                },
            ),
            ..self
        }
    }

    /// The catalog with an edit written at the place that its id names:
    /// over the row that is there, or as a new row at the end. The edit has
    /// no metadata.
    pub open spec fn with_edit(self, e: EditRow) -> CatalogView {
        if e.edit_id - 1 < self.edits.len() {
            CatalogView {
                edits: self.edits.update(e.edit_id - 1, Some(e)),
                edit_extras: self.edit_extras.update(e.edit_id - 1, None),
                ..self
            }
        } else {
            CatalogView {
                edits: self.edits.push(Some(e)),
                edit_extras: self.edit_extras.push(None),
                ..self
            }
        }
    }

    /// The catalog with the metadata of the edit `edit_id` replaced.
    pub open spec fn with_edit_extra(self, edit_id: u128, extra: Option<Seq<char>>) -> CatalogView {
        CatalogView { edit_extras: self.edit_extras.update(edit_id - 1, extra), ..self }
    }

    /// The catalog with an edit row removed, and its metadata with it.
    pub open spec fn without_edit(self, edit_id: u128) -> CatalogView {
        CatalogView {
            edits: self.edits.update(edit_id - 1, None),
            edit_extras: self.edit_extras.update(edit_id - 1, None),
            ..self
        }
    }
}

/// The verdict on the creation of an entity: the content as it is stored, or the error.
pub open spec fn create_verdict(
    c: CatalogView,
    ctx: EditContext,
    t: EntityType,
    content: ContentView,
) -> Result<ContentView, ErrorView> {
    match context_verdict(c, ctx) {
        Err(e) => Err(e),
        Ok(_) => content_verdict(t, content),
    }
}

/// The edit that the creation of an entity writes.
pub open spec fn created_edit(c: CatalogView, ctx: EditContext, t: EntityType) -> EditRow {
    EditRow {
        edit_id: (c.edits.len() + 1) as u128,
        editgroup_id: ctx.editgroup_id,
        entity_type: t,
        ident: c.next_ident(),
        rev_id: Some(c.next_rev()),
        redirect_id: None,
        prev_rev: None,
    }
}

/// The catalog after the creation of an entity: one more revision, one more
/// identifier, which is not live and points to the revision, and one more
/// edit, which keeps the metadata that came with the content.
pub open spec fn after_create(
    c: CatalogView,
    ctx: EditContext,
    t: EntityType,
    stored: ContentView,
) -> CatalogView {
    CatalogView {
        idents: c.idents.push(
            IdentRow {
                entity_type: t,
                ident: c.next_ident(),
                is_live: false,
                rev_id: Some(c.next_rev()),
                redirect_id: None,
            },
        ),
        edits: c.edits.push(Some(created_edit(c, ctx, t))),
        edit_extras: c.edit_extras.push(stored.edit_extra),
        ..c.with_revision(t, stored)
    }
}

/// The verdict on an update of identifier `id`: the content as it is stored
/// (`None` for a redirect), or the error. The identifier must be live, and
/// `revision` must be the revision that it points to now.
pub open spec fn update_verdict(
    c: CatalogView,
    ctx: EditContext,
    t: EntityType,
    id: u128,
    revision: Option<u128>,
    redirect: Option<u128>,
    content: ContentView,
) -> Result<Option<ContentView>, ErrorView> {
    if context_verdict(c, ctx) is Err {
        Err(context_verdict(c, ctx)->Err_0)
    } else if !c.has_entity(t, id) {
        Err(ErrorView::NotFound(Resource::Entity(t, id)))
    } else if !c.ident(id).is_live {
        Err(ErrorView::OtherBadRequest(not_live_text()))
    } else if revision != c.ident(id).rev_id {
        Err(ErrorView::EditConflict(id))
    } else if redirect is Some {
        if redirect->0 == id || !c.has_entity(t, redirect->0) {
            Err(ErrorView::BadRedirect)
        } else {
            Ok(None)
        }
    } else {
        match content_verdict(t, content) {
            Err(e) => Err(e),
            Ok(stored) => Ok(Some(stored)),
        }
    }
}

/// The edit that a change of identifier `id` writes: `rev_id` and
/// `redirect_id` are what the identifier is to point to.
pub open spec fn changed_edit(
    c: CatalogView,
    ctx: EditContext,
    t: EntityType,
    id: u128,
    rev_id: Option<u128>,
    redirect_id: Option<u128>,
) -> EditRow {
    EditRow {
        edit_id: (c.edit_slot(ctx.editgroup_id, id) + 1) as u128,
        editgroup_id: ctx.editgroup_id,
        entity_type: t,
        ident: id,
        rev_id,
        redirect_id,
        prev_rev: c.ident(id).rev_id,
    }
}

/// The edit that an update writes.
pub open spec fn updated_edit(
    c: CatalogView,
    ctx: EditContext,
    t: EntityType,
    id: u128,
    redirect: Option<u128>,
) -> EditRow {
    changed_edit(
        c,
        ctx,
        t,
        id,
        if redirect is None {
            Some(c.next_rev())
        } else {
            None
        },
        redirect,
    )
}

/// The catalog after an update: one more revision unless the update is a
/// redirect, and the edit written over the editgroup's earlier edit on the
/// identifier, or as a new row.
pub open spec fn after_update(
    c: CatalogView,
    ctx: EditContext,
    t: EntityType,
    id: u128,
    redirect: Option<u128>,
    stored: Option<ContentView>,
) -> CatalogView {
    let e = updated_edit(c, ctx, t, id, redirect);
    match stored {
        Some(s) => c.with_revision(t, s).with_edit(e).with_edit_extra(e.edit_id, s.edit_extra),
        None => c.with_edit(e),
    }
}

/// The verdict on the deletion of identifier `id`, which must be live.
pub open spec fn delete_verdict(c: CatalogView, ctx: EditContext, t: EntityType, id: u128) -> Result<
    (),
    ErrorView,
> {
    if context_verdict(c, ctx) is Err {
        Err(context_verdict(c, ctx)->Err_0)
    } else if !c.has_entity(t, id) {
        Err(ErrorView::NotFound(Resource::Entity(t, id)))
    } else if !c.ident(id).is_live {
        Err(ErrorView::OtherBadRequest(not_live_text()))
    } else {
        Ok(())
    }
}

/// The verdict on the removal of an edit, which must be of an open editgroup.
pub open spec fn delete_edit_verdict(c: CatalogView, t: EntityType, edit_id: u128) -> Result<
    (),
    ErrorView,
> {
    if !c.has_edit(edit_id) || c.edit(edit_id).entity_type != t {
        Err(ErrorView::NotFound(Resource::Edit(t, edit_id)))
    } else if !c.is_open(c.edit(edit_id).editgroup_id) {
        Err(ErrorView::EditgroupAlreadyAccepted)
    } else {
        Ok(())
    }
}

/// What the first edit of an editgroup on an identifier is, and that there
/// is none before it.
pub proof fn lemma_group_edit_from(c: CatalogView, g: u128, id: u128, from: int)
    requires
        0 <= from,
    ensures
        match c.group_edit_from(g, id, from) {
            Some(k) => from <= k < c.edits.len() && c.is_group_edit_at(k, g, id) && forall|j: int|
                from <= j < k ==> !c.is_group_edit_at(j, g, id),
            None => forall|j: int| from <= j ==> !c.is_group_edit_at(j, g, id),
        },
    decreases c.edits.len() - from,
{
    if from < c.edits.len() && !c.is_group_edit_at(from, g, id) {
        lemma_group_edit_from(c, g, id, from + 1);
    }
}

/// Rows that hold what rows of a catalog without duplicates held, or
/// nothing, are without duplicates.
pub proof fn lemma_unique_frame(
    idents: Seq<IdentRow>,
    revs: Seq<RevisionView>,
    idents2: Seq<IdentRow>,
    revs2: Seq<RevisionView>,
)
    requires
        crate::catalog::ext_ids_unique(idents, revs),
        forall|i: int|
            0 <= i < idents2.len() ==> (crate::catalog::held_ext_ids(revs2, #[trigger] idents2[i])
                == Seq::<(ExtIdKind, Seq<char>)>::empty() || (i < idents.len()
                && idents2[i].entity_type == idents[i].entity_type && crate::catalog::held_ext_ids(
                revs2,
                idents2[i],
            ) == crate::catalog::held_ext_ids(revs, idents[i]))),
    ensures
        crate::catalog::ext_ids_unique(idents2, revs2),
{
    assert forall|i: int, j: int, k: ExtIdKind, v: Seq<char>|
        0 <= i < idents2.len() && 0 <= j < idents2.len() && i != j && idents2[i].entity_type
            == idents2[j].entity_type && #[trigger] holds_ext_id(revs2, idents2[i], k, v)
            && #[trigger] holds_ext_id(revs2, idents2[j], k, v) implies false by {
        assert(holds_ext_id(revs, idents[i], k, v));
        assert(holds_ext_id(revs, idents[j], k, v));
    }
}

pub proof fn lemma_with_revision_wf(c: CatalogView, t: EntityType, content: ContentView)
    requires
        c.wf(),
    ensures
        c.with_revision(t, content).consistent(),
        c.with_revision(t, content).has_revision_of(t, c.next_rev()),
        forall|g: u128, id: u128, from: int|
            c.with_revision(t, content).group_edit_from(g, id, from) == c.group_edit_from(g, id, from),
{
    let d = c.with_revision(t, content);
    lemma_unique_frame(c.idents, c.revisions, d.idents, d.revisions);
    assert forall|g: u128, id: u128, from: int|
        d.group_edit_from(g, id, from) == c.group_edit_from(g, id, from) by {
        lemma_group_edit_same(c, d, g, id, from);
    }
}

/// Catalogs with the same edits have the same first edit of an editgroup on
/// an identifier.
pub proof fn lemma_group_edit_same(c: CatalogView, d: CatalogView, g: u128, id: u128, from: int)
    requires
        c.edits == d.edits,
    ensures
        d.group_edit_from(g, id, from) == c.group_edit_from(g, id, from),
    decreases c.edits.len() - from,
{
    if 0 <= from < c.edits.len() && !c.is_group_edit_at(from, g, id) {
        lemma_group_edit_same(c, d, g, id, from + 1);
    }
}

pub proof fn lemma_after_create_wf(c: CatalogView, ctx: EditContext, t: EntityType, stored: ContentView)
    requires
        c.wf(),
        context_verdict(c, ctx) is Ok,
    ensures
        after_create(c, ctx, t, stored).consistent(),
{
    let d = after_create(c, ctx, t, stored);
    lemma_unique_frame(c.idents, c.revisions, d.idents, d.revisions);
    let n = c.idents.len() as int;
    assert forall|i: int| 0 <= i < d.idents.len() implies ((#[trigger] d.idents[i]).is_live
        <==> has_accepted_edit(d.edits, d.editgroups, i + 1)) by {
        let id = i + 1;
        if i < n {
            assert forall|k: int|
                #[trigger] is_accepted_edit_at(c.edits, c.editgroups, k, id) == is_accepted_edit_at(
                    d.edits,
                    d.editgroups,
                    k,
                    id,
                ) by {}
            lemma_accepted_edit_same(c.edits, c.editgroups, d.edits, d.editgroups, id);
        } else {
            assert forall|k: int| !#[trigger] is_accepted_edit_at(d.edits, d.editgroups, k, id) by {
                if 0 <= k < c.edits.len() && c.edits[k] is Some {
                    assert(edit_ok(c.edits[k]->0, k, c.editgroups.len(), c.idents, c.revisions));
                }
            }
        }
    }
    assert forall|k: int| 0 <= k < d.edits.len() && (#[trigger] d.edits[k]) is Some implies edit_ok(
        d.edits[k]->0,
        k,
        d.editgroups.len(),
        d.idents,
        d.revisions,
    ) by {
        if k < c.edits.len() {
            assert(edit_ok(c.edits[k]->0, k, c.editgroups.len(), c.idents, c.revisions));
        }
    }
    assert(edits_distinct(d.edits)) by {
        assert forall|k: int, m: int|
            0 <= k < m < d.edits.len() && (#[trigger] d.edits[k]) is Some && (
            #[trigger] d.edits[m]) is Some implies !(d.edits[k]->0.editgroup_id
            == d.edits[m]->0.editgroup_id && d.edits[k]->0.ident == d.edits[m]->0.ident) by {
            if m == c.edits.len() {
                assert(edit_ok(c.edits[k]->0, k, c.editgroups.len(), c.idents, c.revisions));
            }
        }
    }
}

/// Writing an edit of an open editgroup, at the place of the editgroup's
/// earlier edit on the identifier or at the end, keeps the catalog in order.
pub proof fn lemma_with_edit_wf(c: CatalogView, e: EditRow)
    requires
        c.consistent(),
        c.is_open(e.editgroup_id),
        e.edit_id == c.edit_slot(e.editgroup_id, e.ident) + 1,
        edit_ok(e, e.edit_id - 1, c.editgroups.len(), c.idents, c.revisions),
    ensures
        c.with_edit(e).consistent(),
{
    let d = c.with_edit(e);
    let p = e.edit_id - 1;
    lemma_group_edit_from(c, e.editgroup_id, e.ident, 0);
    assert forall|k: int| 0 <= k < d.edits.len() && (#[trigger] d.edits[k]) is Some implies edit_ok(
        d.edits[k]->0,
        k,
        d.editgroups.len(),
        d.idents,
        d.revisions,
    ) by {
        if k != p {
            assert(edit_ok(c.edits[k]->0, k, c.editgroups.len(), c.idents, c.revisions));
        }
    }
    assert(edits_distinct(d.edits)) by {
        assert forall|k: int, m: int|
            0 <= k < m < d.edits.len() && (#[trigger] d.edits[k]) is Some && (
            #[trigger] d.edits[m]) is Some implies !(d.edits[k]->0.editgroup_id
            == d.edits[m]->0.editgroup_id && d.edits[k]->0.ident == d.edits[m]->0.ident) by {
            if k == p {
                if p < c.edits.len() {
                    assert(c.edits[p] is Some && c.edits[m] is Some);
                } else {
                }
            } else if m == p {
                if p < c.edits.len() {
                    assert(c.edits[k] is Some && c.edits[p] is Some);
                } else {
                    assert(!c.is_group_edit_at(k, e.editgroup_id, e.ident));
                }
            } else {
                assert(c.edits[k] is Some && c.edits[m] is Some);
            }
        }
    }
    assert forall|i: int| 0 <= i < d.idents.len() implies ((#[trigger] d.idents[i]).is_live
        <==> has_accepted_edit(d.edits, d.editgroups, i + 1)) by {
        let id = i + 1;
        assert forall|k: int|
            #[trigger] is_accepted_edit_at(c.edits, c.editgroups, k, id) == is_accepted_edit_at(
                d.edits,
                d.editgroups,
                k,
                id,
            ) by {
            if k == p && p < c.edits.len() {
                assert(c.is_group_edit_at(p, e.editgroup_id, e.ident));
            }
        }
        lemma_accepted_edit_same(c.edits, c.editgroups, d.edits, d.editgroups, id);
    }
}

/// Replacing the metadata of an edit keeps the catalog in order.
pub proof fn lemma_with_edit_extra_wf(c: CatalogView, edit_id: u128, extra: Option<Seq<char>>)
    requires
        c.consistent(),
        c.has_edit(edit_id),
    ensures
        c.with_edit_extra(edit_id, extra).consistent(),
{
}

/// Removing an edit of an open editgroup keeps the catalog in order.
pub proof fn lemma_without_edit_wf(c: CatalogView, edit_id: u128)
    requires
        c.wf(),
        c.has_edit(edit_id),
        c.is_open(c.edit(edit_id).editgroup_id),
    ensures
        c.without_edit(edit_id).consistent(),
{
    let d = c.without_edit(edit_id);
    let p = edit_id - 1;
    assert forall|k: int| 0 <= k < d.edits.len() && (#[trigger] d.edits[k]) is Some implies edit_ok(
        d.edits[k]->0,
        k,
        d.editgroups.len(),
        d.idents,
        d.revisions,
    ) by {
        assert(edit_ok(c.edits[k]->0, k, c.editgroups.len(), c.idents, c.revisions));
    }
    assert(edits_distinct(d.edits)) by {
        assert forall|k: int, m: int|
            0 <= k < m < d.edits.len() && (#[trigger] d.edits[k]) is Some && (
            #[trigger] d.edits[m]) is Some implies !(d.edits[k]->0.editgroup_id
            == d.edits[m]->0.editgroup_id && d.edits[k]->0.ident == d.edits[m]->0.ident) by {
            assert(c.edits[k] is Some && c.edits[m] is Some);
        }
    }
    assert forall|i: int| 0 <= i < d.idents.len() implies ((#[trigger] d.idents[i]).is_live
        <==> has_accepted_edit(d.edits, d.editgroups, i + 1)) by {
        let id = i + 1;
        assert forall|k: int|
            #[trigger] is_accepted_edit_at(c.edits, c.editgroups, k, id) == is_accepted_edit_at(
                d.edits,
                d.editgroups,
                k,
                id,
            ) by {}
        lemma_accepted_edit_same(c.edits, c.editgroups, d.edits, d.editgroups, id);
    }
}


/// The editor's flags as an authorization context.
pub open spec fn auth_of(c: CatalogView, editor_id: u128) -> AuthContext {
    AuthContext {
        editor_id,
        is_admin: c.editor(editor_id).is_admin,
        is_bot: c.editor(editor_id).is_bot,
        is_superuser: c.editor(editor_id).is_superuser,
    }
}

/// The verdict on a request for an edit context. With an editgroup, the
/// editgroup must be open and the editor must own it or be an admin. Without
/// one, an editgroup is opened where `autoaccept` is set, and the request is
/// refused where it is not.
pub open spec fn edit_context_verdict(
    c: CatalogView,
    editor_id: u128,
    editgroup_id: Option<u128>,
    autoaccept: bool,
) -> Result<EditContext, ErrorView> {
    if !c.has_editor(editor_id) {
        Err(ErrorView::NotFound(Resource::Editor(editor_id)))
    } else {
        match editgroup_id {
            Some(g) => match editgroup_verdict(c, auth_of(c, editor_id), g) {
                Err(e) => Err(e),
                Ok(_) => Ok(EditContext { editor_id, editgroup_id: g, autoaccept }),
            },
            None => if autoaccept {
                Ok(
                    EditContext {
                        editor_id,
                        editgroup_id: (c.editgroups.len() + 1) as u128,
                        autoaccept,
                    },
                )
            } else {
                Err(ErrorView::EditgroupRequired)
            },
        }
    }
}

/// The editgroup that is opened for an edit context that names none.
pub open spec fn fresh_editgroup(c: CatalogView, editor_id: u128, now: i64) -> crate::model::EditgroupView {
    crate::model::EditgroupView {
        editgroup_id: (c.editgroups.len() + 1) as u128,
        editor_id,
        created_at: now,
        submitted_at: None,
        changelog_id: None,
        description: None,
        extra: None,
    }
}

impl Catalog {
    /// Makes the context in which an editor writes edits.
    pub fn make_edit_context(
        &mut self,
        editor_id: u128,
        editgroup_id: Option<u128>,
        autoaccept: bool,
        now: i64,
    ) -> (r: Result<EditContext, FatcatError>)
        requires
            old(self).wf(),
        ensures
            final(self).wf(),
            match r {
                Ok(ctx) => edit_context_verdict(old(self)@, editor_id, editgroup_id, autoaccept)
                    == Ok::<EditContext, ErrorView>(ctx) && context_verdict(final(self)@, ctx) is Ok,
                Err(e) => edit_context_verdict(old(self)@, editor_id, editgroup_id, autoaccept)
                    == Err::<EditContext, ErrorView>(e@),
            },
            final(self)@ == (if r is Ok && editgroup_id is None {
                old(self)@.with_editgroup(fresh_editgroup(old(self)@, editor_id, now))
            } else {
                old(self)@
            }),
    {
        let i = match self.editor_place(editor_id) {
            Some(i) => i,
            None => {
                return Err(FatcatError::NotFound(Resource::Editor(editor_id)));
            },
        };
        assert(self@.editor(editor_id) == self.editors@[i as int]@);
        let auth = AuthContext {
            editor_id,
            is_admin: self.editors[i].is_admin,
            is_bot: self.editors[i].is_bot,
            is_superuser: self.editors[i].is_superuser,
        };
        match editgroup_id {
            Some(g) => match self.require_editgroup(&auth, g) {
                Err(e) => Err(e),
                Ok(_) => Ok(EditContext { editor_id, editgroup_id: g, autoaccept }),
            },
            None => {
                if !autoaccept {
                    return Err(FatcatError::EditgroupRequired);
                }
                proof {
                    self.lemma_sizes_ok();
                }
                match self.create_editgroup(editor_id, &None, &None, now) {
                    Err(e) => Err(e),
                    Ok(g) => Ok(EditContext { editor_id, editgroup_id: g.editgroup_id, autoaccept }),
                }
            },
        }
    }

    /// Creates an entity: writes a revision with the content, a new
    /// identifier that points to it and is not live, and an edit in the
    /// context's editgroup.
    pub fn create_entity(&mut self, ctx: &EditContext, t: EntityType, content: EntityContent) -> (r:
        Result<EditRow, FatcatError>)
        requires
            old(self).wf(),
        ensures
            final(self).wf(),
            match r {
                Ok(e) => {
                    &&& create_verdict(old(self)@, *ctx, t, content@) is Ok
                    &&& e == created_edit(old(self)@, *ctx, t)
                    &&& final(self)@ == after_create(
                        old(self)@,
                        *ctx,
                        t,
                        create_verdict(old(self)@, *ctx, t, content@)->Ok_0,
                    )
                },
                Err(e) => create_verdict(old(self)@, *ctx, t, content@) == Err::<
                    ContentView,
                    ErrorView,
                >(e@) && final(self)@ == old(self)@,
            },
    {
        match self.check_context(ctx) {
            Err(e) => {
                return Err(e);
            },
            Ok(_) => {},
        }
        let stored = match check_content(t, content) {
            Err(e) => {
                return Err(e);
            },
            Ok(c) => c,
        };
        proof {
            self.lemma_sizes_ok();
        }
        let rev_id: u128 = self.revisions.len() as u128 + 1;
        let ident: u128 = self.idents.len() as u128 + 1;
        let edit = EditRow {
            edit_id: self.edits.len() as u128 + 1,
            editgroup_id: ctx.editgroup_id,
            entity_type: t,
            ident,
            rev_id: Some(rev_id),
            redirect_id: None,
            prev_rev: None,
        };
        let ghost sv = stored@;
        let (kept, extra) = stored.split_extra();
        self.revisions.push(RevisionRow { rev_id, entity_type: t, content: kept });
        self.idents.push(
            IdentRow { entity_type: t, ident, is_live: false, rev_id: Some(rev_id), redirect_id: None },
        );
        self.edits.push(Some(edit));
        self.edit_extras.push(extra);
        proof {
            assert(self@ =~= after_create(old(self)@, *ctx, t, sv));
            lemma_after_create_wf(old(self)@, *ctx, t, sv);
            self.lemma_sizes_ok();
        }
        Ok(edit)
    }

    /// Writes an edit of the context's editgroup on identifier `id`: over
    /// the editgroup's earlier edit on the identifier, or as a new row.
    fn write_edit(
        &mut self,
        ctx: &EditContext,
        t: EntityType,
        id: u128,
        rev_id: Option<u128>,
        redirect_id: Option<u128>,
    ) -> (e: EditRow)
        requires
            old(self).wf(),
            context_verdict(old(self)@, *ctx) is Ok,
            old(self)@.has_entity(t, id),
            !(rev_id is Some && redirect_id is Some),
            rev_id is Some ==> old(self)@.has_revision_of(t, rev_id->0),
        ensures
            final(self).wf(),
            e == changed_edit(old(self)@, *ctx, t, id, rev_id, redirect_id),
            final(self)@ == old(self)@.with_edit(e),
    {
        let i = (id - 1) as usize;
        let prev_rev = self.idents[i].rev_id;
        let slot = self.group_edit_place(ctx.editgroup_id, id);
        proof {
            self.lemma_sizes_ok();
            lemma_group_edit_from(self@, ctx.editgroup_id, id, 0);
        }
        match slot {
            Some(k) => {
                let e = EditRow {
                    edit_id: k as u128 + 1,
                    editgroup_id: ctx.editgroup_id,
                    entity_type: t,
                    ident: id,
                    rev_id,
                    redirect_id,
                    prev_rev,
                };
                self.edits.set(k, Some(e));
                self.edit_extras.set(k, None);
                proof {
                    assert(self@ =~= old(self)@.with_edit(e));
                    lemma_with_edit_wf(old(self)@, e);
                    self.lemma_sizes_ok();
                }
                e
            },
            None => {
                let e = EditRow {
                    edit_id: self.edits.len() as u128 + 1,
                    editgroup_id: ctx.editgroup_id,
                    entity_type: t,
                    ident: id,
                    rev_id,
                    redirect_id,
                    prev_rev,
                };
                self.edits.push(Some(e));
                self.edit_extras.push(None);
                proof {
                    assert(self@ =~= old(self)@.with_edit(e));
                    lemma_with_edit_wf(old(self)@, e);
                    self.lemma_sizes_ok();
                }
                e
            },
        }
    }

    /// Updates a live entity: writes a revision with the content, or nothing
    /// for a redirect, and an edit in the context's editgroup. `revision` is
    /// the revision that the caller saw; the update is refused where the
    /// identifier points elsewhere by now.
    pub fn update_entity(
        &mut self,
        ctx: &EditContext,
        t: EntityType,
        id: u128,
        revision: Option<u128>,
        redirect: Option<u128>,
        content: EntityContent,
    ) -> (r: Result<EditRow, FatcatError>)
        requires
            old(self).wf(),
        ensures
            final(self).wf(),
            match r {
                Ok(e) => {
                    &&& update_verdict(old(self)@, *ctx, t, id, revision, redirect, content@) is Ok
                    &&& e == updated_edit(old(self)@, *ctx, t, id, redirect)
                    &&& final(self)@ == after_update(
                        old(self)@,
                        *ctx,
                        t,
                        id,
                        redirect,
                        update_verdict(old(self)@, *ctx, t, id, revision, redirect, content@)->Ok_0,
                    )
                },
                Err(e) => update_verdict(old(self)@, *ctx, t, id, revision, redirect, content@)
                    == Err::<Option<ContentView>, ErrorView>(e@) && final(self)@ == old(self)@,
            },
    {
        match self.check_context(ctx) {
            Err(e) => {
                return Err(e);
            },
            Ok(_) => {},
        }
        let i = match self.ident_place(id) {
            Some(i) => i,
            None => {
                return Err(FatcatError::NotFound(Resource::Entity(t, id)));
            },
        };
        if self.idents[i].entity_type != t {
            return Err(FatcatError::NotFound(Resource::Entity(t, id)));
        }
        if !self.idents[i].is_live {
            return Err(FatcatError::OtherBadRequest(String::from_str("entity is not live")));
        }
        if revision != self.idents[i].rev_id {
            return Err(FatcatError::EditConflict(id));
        }
        match redirect {
            Some(target) => {
                if target == id {
                    return Err(FatcatError::BadRedirect);
                }
                match self.ident_place(target) {
                    None => {
                        return Err(FatcatError::BadRedirect);
                    },
                    Some(j) => {
                        if self.idents[j].entity_type != t {
                            return Err(FatcatError::BadRedirect);
                        }
                    },
                }
                Ok(self.write_edit(ctx, t, id, None, redirect))
            },
            None => {
                let stored = match check_content(t, content) {
                    Err(e) => {
                        return Err(e);
                    },
                    Ok(c) => c,
                };
                proof {
                    self.lemma_sizes_ok();
                }
                let rev_id: u128 = self.revisions.len() as u128 + 1;
                let ghost sv = stored@;
                let (kept, extra) = stored.split_extra();
                self.revisions.push(RevisionRow { rev_id, entity_type: t, content: kept });
                proof {
                    assert(self@ =~= old(self)@.with_revision(t, sv));
                    lemma_with_revision_wf(old(self)@, t, sv);
                    self.lemma_sizes_ok();
                }
                let e = self.write_edit(ctx, t, id, Some(rev_id), None);
                let ghost written = self@;
                proof {
                    lemma_group_edit_from(old(self)@.with_revision(t, sv), ctx.editgroup_id, id, 0);
                }
                self.edit_extras.set((e.edit_id - 1) as usize, extra);
                proof {
                    assert(self@ =~= written.with_edit_extra(e.edit_id, sv.edit_extra));
                    lemma_with_edit_extra_wf(written, e.edit_id, sv.edit_extra);
                    self.lemma_sizes_ok();
                }
                Ok(e)
            },
        }
    }

    /// Deletes a live entity: writes an edit in the context's editgroup
    /// after which the identifier points to nothing.
    pub fn delete_entity(&mut self, ctx: &EditContext, t: EntityType, id: u128) -> (r: Result<
        EditRow,
        FatcatError,
    >)
        requires
            old(self).wf(),
        ensures
            final(self).wf(),
            match r {
                Ok(e) => {
                    &&& delete_verdict(old(self)@, *ctx, t, id) is Ok
                    &&& e == changed_edit(old(self)@, *ctx, t, id, None, None)
                    &&& final(self)@ == old(self)@.with_edit(e)
                },
                Err(e) => delete_verdict(old(self)@, *ctx, t, id) == Err::<(), ErrorView>(e@)
                    && final(self)@ == old(self)@,
            },
    {
        match self.check_context(ctx) {
            Err(e) => {
                return Err(e);
            },
            Ok(_) => {},
        }
        let i = match self.ident_place(id) {
            Some(i) => i,
            None => {
                return Err(FatcatError::NotFound(Resource::Entity(t, id)));
            },
        };
        if self.idents[i].entity_type != t {
            return Err(FatcatError::NotFound(Resource::Entity(t, id)));
        }
        if !self.idents[i].is_live {
            return Err(FatcatError::OtherBadRequest(String::from_str("entity is not live")));
        }
        Ok(self.write_edit(ctx, t, id, None, None))
    }

    /// Removes a work-in-progress edit from its editgroup, which must be open.
    pub fn delete_edit(&mut self, t: EntityType, edit_id: u128) -> (r: Result<(), FatcatError>)
        requires
            old(self).wf(),
        ensures
            final(self).wf(),
            match r {
                Ok(_) => delete_edit_verdict(old(self)@, t, edit_id) is Ok && final(self)@ == old(
                    self,
                )@.without_edit(edit_id),
                Err(e) => delete_edit_verdict(old(self)@, t, edit_id) == Err::<(), ErrorView>(e@)
                    && final(self)@ == old(self)@,
            },
    {
        let k = match self.edit_place(edit_id) {
            Some(k) => k,
            None => {
                return Err(FatcatError::NotFound(Resource::Edit(t, edit_id)));
            },
        };
        let e = self.edits[k].unwrap();
        if e.entity_type != t {
            return Err(FatcatError::NotFound(Resource::Edit(t, edit_id)));
        }
        let g = (e.editgroup_id - 1) as usize;
        assert(edit_ok(e, k as int, self@.editgroups.len(), self@.idents, self@.revisions));
        assert(self@.editgroup(e.editgroup_id) == self.editgroups@[g as int]@);
        if self.editgroups[g].changelog_id.is_some() {
            return Err(FatcatError::EditgroupAlreadyAccepted);
        }
        self.edits.set(k, None);
        self.edit_extras.set(k, None);
        proof {
            assert(self@ =~= old(self)@.without_edit(edit_id));
            lemma_without_edit_wf(old(self)@, edit_id);
            self.lemma_sizes_ok();
        }
        Ok(())
    }
}


pub open spec fn is_live_text() -> Seq<char> {
    "entity is live"@
}

pub open spec fn not_created_here_text() -> Seq<char> {
    "entity was not created in this editgroup"@
}

/// The verdict on creating an entity again that is work in progress in the
/// context's editgroup: the content as it is stored, or the error.
pub open spec fn recreate_verdict(
    c: CatalogView,
    ctx: EditContext,
    t: EntityType,
    id: u128,
    content: ContentView,
) -> Result<ContentView, ErrorView> {
    if context_verdict(c, ctx) is Err {
        Err(context_verdict(c, ctx)->Err_0)
    } else if !c.has_entity(t, id) {
        Err(ErrorView::NotFound(Resource::Entity(t, id)))
    } else if c.ident(id).is_live {
        Err(ErrorView::OtherBadRequest(is_live_text()))
    } else if c.group_edit(ctx.editgroup_id, id) is None {
        Err(ErrorView::OtherBadRequest(not_created_here_text()))
    } else {
        content_verdict(t, content)
    }
}

/// The edit that creating an entity again writes: the edit that created it,
/// with the new revision.
pub open spec fn recreated_edit(c: CatalogView, ctx: EditContext, t: EntityType, id: u128) -> EditRow {
    EditRow {
        edit_id: (c.edit_slot(ctx.editgroup_id, id) + 1) as u128,
        editgroup_id: ctx.editgroup_id,
        entity_type: t,
        ident: id,
        rev_id: Some(c.next_rev()),
        redirect_id: None,
        prev_rev: None,
    }
}

/// The catalog after an entity is created again: one more revision, to which
/// the identifier, still not live, and the editgroup's edit on it point.
pub open spec fn after_recreate(
    c: CatalogView,
    ctx: EditContext,
    t: EntityType,
    id: u128,
    stored: ContentView,
) -> CatalogView {
    CatalogView {
        idents: c.idents.update(id - 1, IdentRow { rev_id: Some(c.next_rev()), ..c.ident(id) }),
        ..c.with_revision(t, stored).with_edit(recreated_edit(c, ctx, t, id)).with_edit_extra(
            recreated_edit(c, ctx, t, id).edit_id,
            stored.edit_extra,
        )
    }
}

pub proof fn lemma_after_recreate_wf(
    c: CatalogView,
    ctx: EditContext,
    t: EntityType,
    id: u128,
    stored: ContentView,
)
    requires
        c.wf(),
        context_verdict(c, ctx) is Ok,
        c.has_entity(t, id),
        !c.ident(id).is_live,
        c.group_edit(ctx.editgroup_id, id) is Some,
    ensures
        after_recreate(c, ctx, t, id, stored).consistent(),
{
    let e = recreated_edit(c, ctx, t, id);
    let cr = c.with_revision(t, stored);
    lemma_with_revision_wf(c, t, stored);
    lemma_group_edit_from(c, ctx.editgroup_id, id, 0);
    assert(c.idents[id - 1].ident == id);
    lemma_with_edit_wf(cr, e);
    let ce = cr.with_edit(e);
    let d = after_recreate(c, ctx, t, id, stored);
    assert(d.edits == ce.edits && d.revisions == ce.revisions && d.editgroups == ce.editgroups);
    lemma_unique_frame(ce.idents, ce.revisions, d.idents, d.revisions);
    assert forall|k: int| 0 <= k < d.edits.len() && (#[trigger] d.edits[k]) is Some implies edit_ok(
        d.edits[k]->0,
        k,
        d.editgroups.len(),
        d.idents,
        d.revisions,
    ) by {
        assert(edit_ok(ce.edits[k]->0, k, ce.editgroups.len(), ce.idents, ce.revisions));
    }
    assert forall|i: int|
        0 <= i < d.idents.len() && (#[trigger] d.idents[i]).redirect_id is Some implies d.idents[i].is_live
        && crate::catalog::redirect_ok(d.idents, d.idents[i].entity_type, d.idents[i].redirect_id->0) by {
        assert(ce.idents[i].redirect_id is Some);
        assert(crate::catalog::redirect_ok(
            ce.idents,
            ce.idents[i].entity_type,
            ce.idents[i].redirect_id->0,
        ));
    }
}

impl Catalog {
    /// Creates again an entity that is work in progress in the context's
    /// editgroup: writes a revision with the content, and lets the
    /// identifier and the edit that created it point to it. The editgroup
    /// holds one edit on the identifier, as before.
    pub fn recreate_entity(&mut self, ctx: &EditContext, t: EntityType, id: u128, content: EntityContent) -> (r:
        Result<EditRow, FatcatError>)
        requires
            old(self).wf(),
        ensures
            final(self).wf(),
            match r {
                Ok(e) => {
                    &&& recreate_verdict(old(self)@, *ctx, t, id, content@) is Ok
                    &&& e == recreated_edit(old(self)@, *ctx, t, id)
                    &&& final(self)@ == after_recreate(
                        old(self)@,
                        *ctx,
                        t,
                        id,
                        recreate_verdict(old(self)@, *ctx, t, id, content@)->Ok_0,
                    )
                },
                Err(e) => recreate_verdict(old(self)@, *ctx, t, id, content@) == Err::<
                    ContentView,
                    ErrorView,
                >(e@) && final(self)@ == old(self)@,
            },
    {
        match self.check_context(ctx) {
            Err(e) => {
                return Err(e);
            },
            Ok(_) => {},
        }
        let i = match self.ident_place(id) {
            Some(i) => i,
            None => {
                return Err(FatcatError::NotFound(Resource::Entity(t, id)));
            },
        };
        if self.idents[i].entity_type != t {
            return Err(FatcatError::NotFound(Resource::Entity(t, id)));
        }
        if self.idents[i].is_live {
            return Err(FatcatError::OtherBadRequest(String::from_str("entity is live")));
        }
        let k = match self.group_edit_place(ctx.editgroup_id, id) {
            Some(k) => k,
            None => {
                return Err(
                    FatcatError::OtherBadRequest(
                        String::from_str("entity was not created in this editgroup"),
                    ),
                );
            },
        };
        let stored = match check_content(t, content) {
            Err(e) => {
                return Err(e);
            },
            Ok(c) => c,
        };
        proof {
            self.lemma_sizes_ok();
        }
        let rev_id: u128 = self.revisions.len() as u128 + 1;
        let row = self.idents[i];
        let e = EditRow {
            edit_id: k as u128 + 1,
            editgroup_id: ctx.editgroup_id,
            entity_type: t,
            ident: id,
            rev_id: Some(rev_id),
            redirect_id: None,
            prev_rev: None,
        };
        let ghost sv = stored@;
        let (kept, extra) = stored.split_extra();
        self.revisions.push(RevisionRow { rev_id, entity_type: t, content: kept });
        self.idents.set(
            i,
            IdentRow {
                entity_type: row.entity_type,
                ident: row.ident,
                is_live: row.is_live,
                rev_id: Some(rev_id),
                redirect_id: row.redirect_id,
            },
        );
        self.edits.set(k, Some(e));
        self.edit_extras.set(k, extra);
        proof {
            assert(self@ =~= after_recreate(old(self)@, *ctx, t, id, sv));
            lemma_after_recreate_wf(old(self)@, *ctx, t, id, sv);
            self.lemma_sizes_ok();
        }
        Ok(e)
    }
}

} // verus!

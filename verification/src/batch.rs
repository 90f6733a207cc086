//! Creating many entities in one step, which succeeds as a whole or leaves
//! the catalog as it was.

use vstd::prelude::*;
use crate::accept::{accept_error, accept_ok, after_accept};
use crate::catalog::{Catalog, CatalogView};
use crate::editing::{
    after_create, create_verdict, created_edit, edit_context_verdict, fresh_editgroup, EditContext,
};
use crate::errors::{EntityType, ErrorView, FatcatError};
use crate::model::{ContentView, EditRow, EntityContent};

verus! {

/// The values of a list of contents.
pub open spec fn contents_view(v: Seq<EntityContent>) -> Seq<ContentView> {
    Seq::new(v.len(), |i: int| v[i]@)
}

/// The catalog after the first `n` of the contents are created as entities
/// of type `t`, one after the other, with the edits that were written; or
/// the error of the first creation that is refused.
pub open spec fn batch_upto(
    c: CatalogView,
    ctx: EditContext,
    t: EntityType,
    contents: Seq<ContentView>,
    n: int,
) -> Result<(CatalogView, Seq<EditRow>), ErrorView>
    decreases n,
{
    if n <= 0 {
        Ok((c, Seq::empty()))
    } else {
        match batch_upto(c, ctx, t, contents, n - 1) {
            Err(e) => Err(e),
            Ok((s, edits)) => match create_verdict(s, ctx, t, contents[n - 1]) {
                Err(e) => Err(e),
                Ok(stored) => Ok(
                    (after_create(s, ctx, t, stored), edits.push(created_edit(s, ctx, t))),
                ),
            },
        }
    }
}

/// What creating all the contents gives.
pub open spec fn batch_all(c: CatalogView, ctx: EditContext, t: EntityType, contents: Seq<ContentView>) -> Result<
    (CatalogView, Seq<EditRow>),
    ErrorView,
> {
    batch_upto(c, ctx, t, contents, contents.len() as int)
}

impl CatalogView {
    /// This catalog is `before` with rows appended to the identifiers, the
    /// revisions, the edits and the editgroups, and nothing else changed.
    pub open spec fn extends(self, before: CatalogView) -> bool {
        &&& before.idents.len() <= self.idents.len()
        &&& self.idents.subrange(0, before.idents.len() as int) == before.idents
        &&& before.revisions.len() <= self.revisions.len()
        &&& self.revisions.subrange(0, before.revisions.len() as int) == before.revisions
        &&& before.edits.len() <= self.edits.len()
        &&& self.edits.subrange(0, before.edits.len() as int) == before.edits
        &&& before.edit_extras.len() <= self.edit_extras.len()
        &&& self.edit_extras.subrange(0, before.edit_extras.len() as int) == before.edit_extras
        &&& before.editgroups.len() <= self.editgroups.len()
        &&& self.editgroups.subrange(0, before.editgroups.len() as int) == before.editgroups
        &&& self.changelog == before.changelog
        &&& self.editors == before.editors
        &&& self.oidc == before.oidc
    }
}

/// An error among the first creations is the error of the whole batch.
proof fn lemma_batch_error(
    c: CatalogView,
    ctx: EditContext,
    t: EntityType,
    contents: Seq<ContentView>,
    n: int,
)
    requires
        0 <= n <= contents.len(),
        batch_upto(c, ctx, t, contents, n) is Err,
    ensures
        batch_all(c, ctx, t, contents) == batch_upto(c, ctx, t, contents, n),
    decreases contents.len() - n,
{
    if n < contents.len() {
        lemma_batch_error(c, ctx, t, contents, n + 1);
    }
}

impl Catalog {
    /// Takes the rows that were appended since a catalog `before` away again.
    fn roll_back(
        &mut self,
        idents: usize,
        revisions: usize,
        edits: usize,
        editgroups: usize,
        Ghost(before): Ghost<CatalogView>,
    )
        requires
            old(self)@.extends(before),
            before.wf(),
            idents == before.idents.len(),
            revisions == before.revisions.len(),
            edits == before.edits.len(),
            editgroups == before.editgroups.len(),
        ensures
            final(self)@ == before,
            final(self).wf(),
    {
        self.idents.truncate(idents);
        self.revisions.truncate(revisions);
        self.edits.truncate(edits);
        self.edit_extras.truncate(edits);
        self.editgroups.truncate(editgroups);
        proof {
            let c = old(self)@;
            assert(self@.idents =~= c.idents.subrange(0, idents as int));
            assert(self@.revisions =~= c.revisions.subrange(0, revisions as int));
            assert(self@.edits =~= c.edits.subrange(0, edits as int));
            assert(self@.edit_extras =~= c.edit_extras.subrange(0, edits as int));
            assert(self@.editgroups =~= c.editgroups.subrange(0, editgroups as int));
            assert(self@ =~= before);
        }
    }

    /// Creates one entity for each of the contents, in their order, in the
    /// context's editgroup. Where one is refused, none is created.
    pub fn create_entities(&mut self, ctx: &EditContext, t: EntityType, contents: &Vec<EntityContent>) -> (r:
        Result<Vec<EditRow>, FatcatError>)
        requires
            old(self).wf(),
        ensures
            final(self).wf(),
            match batch_all(old(self)@, *ctx, t, contents_view(contents@)) {
                Ok((s, edits)) => r is Ok && r->Ok_0@ == edits && final(self)@ == s && s.extends(
                    old(self)@,
                ),
                Err(e) => r is Err && r->Err_0@ == e && final(self)@ == old(self)@,
            },
    {
        let ghost before = self@;
        let ghost all = contents_view(contents@);
        let n_idents = self.idents.len();
        let n_revisions = self.revisions.len();
        let n_edits = self.edits.len();
        let n_editgroups = self.editgroups.len();
        let mut out: Vec<EditRow> = Vec::new();
        let mut i: usize = 0;
        proof {
            assert(self@.idents.subrange(0, before.idents.len() as int) =~= before.idents);
            assert(self@.revisions.subrange(0, before.revisions.len() as int) =~= before.revisions);
            assert(self@.edits.subrange(0, before.edits.len() as int) =~= before.edits);
            assert(self@.edit_extras.subrange(0, before.edit_extras.len() as int)
                =~= before.edit_extras);
            assert(self@.editgroups.subrange(0, before.editgroups.len() as int)
                =~= before.editgroups);
        }
        while i < contents.len()
            invariant
                i <= contents@.len(),
                all == contents_view(contents@),
                before == old(self)@,
                before.wf(),
                self.wf(),
                self@.extends(before),
                n_idents == before.idents.len(),
                n_revisions == before.revisions.len(),
                n_edits == before.edits.len(),
                n_editgroups == before.editgroups.len(),
                batch_upto(before, *ctx, t, all, i as int) == Ok::<
                    (CatalogView, Seq<EditRow>),
                    ErrorView,
                >((self@, out@)),
            decreases contents@.len() - i,
        {
            let ghost here = self@;
            assert(all[i as int] == contents@[i as int]@);
            match self.create_entity(ctx, t, contents[i].copy()) {
                Err(e) => {
                    proof {
                        assert(create_verdict(here, *ctx, t, all[i as int]) == Err::<
                            ContentView,
                            ErrorView,
                        >(e@));
                        assert(batch_upto(before, *ctx, t, all, i + 1) == Err::<
                            (CatalogView, Seq<EditRow>),
                            ErrorView,
                        >(e@));
                        lemma_batch_error(before, *ctx, t, all, i + 1);
                    }
                    self.roll_back(n_idents, n_revisions, n_edits, n_editgroups, Ghost(before));
                    return Err(e);
                },
                Ok(edit) => {
                    out.push(edit);
                    proof {
                        let now = self@;
                        assert(now.idents.subrange(0, before.idents.len() as int)
                            =~= here.idents.subrange(0, before.idents.len() as int));
                        assert(now.revisions.subrange(0, before.revisions.len() as int)
                            =~= here.revisions.subrange(0, before.revisions.len() as int));
                        assert(now.edits.subrange(0, before.edits.len() as int)
                            =~= here.edits.subrange(0, before.edits.len() as int));
                        assert(now.edit_extras.subrange(0, before.edit_extras.len() as int)
                            =~= here.edit_extras.subrange(0, before.edit_extras.len() as int));
                    }
                },
            }
            i += 1;
        }
        Ok(out)
    }

    /// Creates one entity for each of the contents, for an editor: in the
    /// editgroup that is named, or, with `autoaccept`, in one that is opened
    /// for it; with `autoaccept`, the editgroup is accepted at the end. The
    /// whole succeeds, or the catalog is left as it was.
    pub fn create_batch(
        &mut self,
        editor_id: u128,
        editgroup_id: Option<u128>,
        autoaccept: bool,
        t: EntityType,
        contents: &Vec<EntityContent>,
        now: i64,
    ) -> (r: Result<Vec<EditRow>, FatcatError>)
        requires
            old(self).wf(),
        ensures
            final(self).wf(),
            batch_result(
                old(self)@,
                editor_id,
                editgroup_id,
                autoaccept,
                t,
                contents_view(contents@),
                now,
                final(self)@,
                match r {
                    Ok(v) => Ok(v@),
                    Err(e) => Err(e@),
                },
            ),
    {
        let ghost before = self@;
        let n_idents = self.idents.len();
        let n_revisions = self.revisions.len();
        let n_edits = self.edits.len();
        let n_editgroups = self.editgroups.len();
        let ctx = match self.make_edit_context(editor_id, editgroup_id, autoaccept, now) {
            Ok(c) => c,
            Err(e) => {
                return Err(e);
            },
        };
        let ghost opened = self@;
        proof {
            assert(opened.idents.subrange(0, before.idents.len() as int) =~= before.idents);
            assert(opened.revisions.subrange(0, before.revisions.len() as int) =~= before.revisions);
            assert(opened.edits.subrange(0, before.edits.len() as int) =~= before.edits);
            assert(opened.edit_extras.subrange(0, before.edit_extras.len() as int) =~= before.edit_extras);
            assert(opened.editgroups.subrange(0, before.editgroups.len() as int)
                =~= before.editgroups);
        }
        let edits = match self.create_entities(&ctx, t, contents) {
            Ok(v) => v,
            Err(e) => {
                self.roll_back(n_idents, n_revisions, n_edits, n_editgroups, Ghost(before));
                return Err(e);
            },
        };
        proof {
            let made = self@;
            assert(made.idents.subrange(0, before.idents.len() as int) =~= opened.idents.subrange(
                0,
                before.idents.len() as int,
            ));
            assert(made.revisions.subrange(0, before.revisions.len() as int)
                =~= opened.revisions.subrange(0, before.revisions.len() as int));
            assert(made.edits.subrange(0, before.edits.len() as int) =~= opened.edits.subrange(
                0,
                before.edits.len() as int,
            ));
            assert(made.edit_extras.subrange(0, before.edit_extras.len() as int) =~= opened.edit_extras.subrange(
                0,
                before.edit_extras.len() as int,
            ));
            assert(made.editgroups.subrange(0, before.editgroups.len() as int)
                =~= opened.editgroups.subrange(0, before.editgroups.len() as int));
        }
        if autoaccept {
            match self.accept_editgroup(ctx.editgroup_id, now) {
                Ok(_) => {},
                Err(e) => {
                    self.roll_back(n_idents, n_revisions, n_edits, n_editgroups, Ghost(before));
                    return Err(e);
                },
            }
        }
        Ok(edits)
    }
}

/// The catalog in which a batch is created: the catalog as it is, with the
/// editgroup that is opened where none is named.
pub open spec fn batch_start(c: CatalogView, editor_id: u128, editgroup_id: Option<u128>, now: i64) -> CatalogView {
    if editgroup_id is None {
        c.with_editgroup(fresh_editgroup(c, editor_id, now))
    } else {
        c
    }
}

/// Whether `r` and `after` are the result of a batch and the catalog after
/// it. The batch fails with the error of the edit context, of the first
/// creation that is refused, or, with `autoaccept`, of the acceptance; where
/// it fails, the catalog is as it was.
pub open spec fn batch_result(
    c: CatalogView,
    editor_id: u128,
    editgroup_id: Option<u128>,
    autoaccept: bool,
    t: EntityType,
    contents: Seq<ContentView>,
    now: i64,
    after: CatalogView,
    r: Result<Seq<EditRow>, ErrorView>,
) -> bool {
    match edit_context_verdict(c, editor_id, editgroup_id, autoaccept) {
        Err(e) => r == Err::<Seq<EditRow>, ErrorView>(e) && after == c,
        Ok(ctx) => match batch_all(batch_start(c, editor_id, editgroup_id, now), ctx, t, contents) {
            Err(e) => r == Err::<Seq<EditRow>, ErrorView>(e) && after == c,
            Ok((made, edits)) => if !autoaccept {
                r == Ok::<Seq<EditRow>, ErrorView>(edits) && after == made
            } else if accept_ok(made, ctx.editgroup_id) {
                r == Ok::<Seq<EditRow>, ErrorView>(edits) && after == after_accept(
                    made,
                    ctx.editgroup_id,
                    now,
                )
            } else {
                r is Err && accept_error(made, ctx.editgroup_id, r->Err_0) && after == c
            },
        },
    }
}

} // verus!

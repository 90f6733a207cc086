//! The acceptance engine: an editgroup's edits become visible in one step, or
//! not at all.
//!
//! Acceptance rewrites the identifier row of every edit of the editgroup,
//! appends one changelog entry and records its id in the editgroup. It is
//! refused, and nothing changes, where an edit was made against a revision
//! that the identifier no longer points to, where two live entities of one
//! type would hold the same external identifier, or where a redirect would
//! point to an identifier that is not live or is itself a redirect.

use vstd::prelude::*;
use vstd::string::*;
use crate::accounts::lemma_accepted_edit_same;
use crate::catalog::{
    edit_ok, ext_ids_unique, has_accepted_edit, held_ext_ids, holds_ext_id, is_accepted_edit_at,
    redirect_ok, redirects_ok, Catalog, CatalogView,
};
use crate::editing::lemma_group_edit_from;
use crate::errors::{EntityType, ErrorView, ExtIdKind, FatcatError, Resource};
use crate::model::{ChangelogRow, EditRow, EditgroupView, IdentRow, RevisionView};

verus! {

/// The identifier row after an edit on it is accepted: live, and pointing to
/// what the edit says.
pub open spec fn accepted_row(row: IdentRow, e: EditRow) -> IdentRow {
    IdentRow { is_live: true, rev_id: e.rev_id, redirect_id: e.redirect_id, ..row }
}

/// The identifier rows as they are once the edits of editgroup `g` are applied.
pub open spec fn candidate_rows(c: CatalogView, g: u128) -> Seq<IdentRow> {
    Seq::new(
        c.idents.len(),
        |i: int|
            match c.group_edit(g, (i + 1) as u128) {
                Some(e) => accepted_row(c.idents[i], e),
                None => c.idents[i],
            },
    )
}

/// The edit of editgroup `g` on identifier `id` was made against a revision
/// that the identifier, which is live, does not point to.
pub open spec fn conflicts(c: CatalogView, g: u128, id: u128) -> bool {
    &&& c.group_edit(g, id) is Some
    &&& c.has_ident(id)
    &&& c.ident(id).is_live
    &&& c.group_edit(g, id)->0.prev_rev != c.ident(id).rev_id
}

/// Place of an entity type in the order in which edits are applied.
pub open spec fn type_rank(t: EntityType) -> int {
    match t {
        EntityType::Container => 0,
        EntityType::Creator => 1,
        EntityType::File => 2,
        EntityType::Fileset => 3,
        EntityType::Webcapture => 4,
        EntityType::Release => 5,
        EntityType::Work => 6,
    }
}

/// Identifier `a` comes no later than `b` in the order in which edits are
/// applied: by entity type, then by identifier.
pub open spec fn applied_before(c: CatalogView, a: u128, b: u128) -> bool {
    let ta = type_rank(c.ident(a).entity_type);
    let tb = type_rank(c.ident(b).entity_type);
    ta < tb || (ta == tb && a <= b)
}

pub open spec fn any_conflict(c: CatalogView, g: u128) -> bool {
    exists|id: u128| conflicts(c, g, id)
}

/// `id` is the first identifier, in the order in which edits are applied,
/// on which an edit of editgroup `g` conflicts.
pub open spec fn first_conflict(c: CatalogView, g: u128, id: u128) -> bool {
    conflicts(c, g, id) && forall|o: u128| conflicts(c, g, o) ==> applied_before(c, id, o)
}

/// Row `i` shares no external identifier with another row of its entity type.
pub open spec fn row_clear(rows: Seq<IdentRow>, revisions: Seq<RevisionView>, i: int) -> bool {
    forall|j: int, k: ExtIdKind, v: Seq<char>|
        0 <= j < rows.len() && j != i && rows[j].entity_type == rows[i].entity_type
            && #[trigger] holds_ext_id(revisions, rows[j], k, v) ==> !holds_ext_id(
            revisions,
            rows[i],
            k,
            v,
        )
}

/// Row `j` is another row of the entity type of row `i`, and holds the
/// external identifier at place `x` of those that row `i` holds.
pub open spec fn holds_same(
    rows: Seq<IdentRow>,
    revisions: Seq<RevisionView>,
    i: int,
    j: int,
    x: int,
) -> bool {
    &&& 0 <= j < rows.len()
    &&& j != i
    &&& rows[j].entity_type == rows[i].entity_type
    &&& holds_ext_id(
        revisions,
        rows[j],
        held_ext_ids(revisions, rows[i])[x].0,
        held_ext_ids(revisions, rows[i])[x].1,
    )
}

/// The external identifier at place `x` of those that row `i` holds is held
/// by another row of its entity type.
pub open spec fn shared_at(rows: Seq<IdentRow>, revisions: Seq<RevisionView>, i: int, x: int) -> bool {
    &&& 0 <= x < held_ext_ids(revisions, rows[i]).len()
    &&& exists|j: int| #[trigger] holds_same(rows, revisions, i, j, x)
}

/// Once the edits of editgroup `g` are applied, the row of identifier `id`,
/// which `g` edits, shares an external identifier with another row of its type.
pub open spec fn clashes(c: CatalogView, g: u128, id: u128) -> bool {
    &&& c.has_ident(id)
    &&& c.group_edit(g, id) is Some
    &&& !row_clear(candidate_rows(c, g), c.revisions, id - 1)
}

/// `id` is the first identifier, in the order in which edits are applied,
/// whose row clashes once the edits of editgroup `g` are applied.
pub open spec fn first_clash(c: CatalogView, g: u128, id: u128) -> bool {
    clashes(c, g, id) && forall|o: u128| clashes(c, g, o) ==> applied_before(c, id, o)
}

/// Place `x` is that of the first external identifier of the row of `id`,
/// as it is once the edits of editgroup `g` are applied, that another row of
/// its type holds too.
pub open spec fn first_shared(c: CatalogView, g: u128, id: u128, x: int) -> bool {
    first_shared_at(candidate_rows(c, g), c.revisions, id - 1, x)
}

/// Place `x` is that of the first external identifier of row `i` that
/// another row of its entity type holds too.
pub open spec fn first_shared_at(
    rows: Seq<IdentRow>,
    revisions: Seq<RevisionView>,
    i: int,
    x: int,
) -> bool {
    &&& shared_at(rows, revisions, i, x)
    &&& forall|y: int| 0 <= y < x ==> !#[trigger] shared_at(rows, revisions, i, y)
}

/// `(k, v)` is the duplicate with which the acceptance of editgroup `g` is
/// refused: of the first identifier whose row clashes, the first external
/// identifier that another row holds too.
pub open spec fn reported_duplicate(c: CatalogView, g: u128, k: ExtIdKind, v: Seq<char>) -> bool {
    exists|id: u128, x: int|
        first_clash(c, g, id) && #[trigger] first_shared(c, g, id, x) && held_ext_ids(
            c.revisions,
            candidate_rows(c, g)[id - 1],
        )[x] == (k, v)
}

/// A row is clear exactly when none of its external identifiers is shared.
pub proof fn lemma_row_clear(rows: Seq<IdentRow>, revisions: Seq<RevisionView>, i: int)
    ensures
        row_clear(rows, revisions, i) <==> forall|x: int| !#[trigger] shared_at(rows, revisions, i, x),
{
    let held = held_ext_ids(revisions, rows[i]);
    if forall|x: int| !#[trigger] shared_at(rows, revisions, i, x) {
        assert forall|j: int, k: ExtIdKind, v: Seq<char>|
            0 <= j < rows.len() && j != i && rows[j].entity_type == rows[i].entity_type
                && #[trigger] holds_ext_id(revisions, rows[j], k, v) implies !holds_ext_id(
            revisions,
            rows[i],
            k,
            v,
        ) by {
            if holds_ext_id(revisions, rows[i], k, v) {
                let x = choose|x: int| 0 <= x < held.len() && held[x] == (k, v);
                assert(holds_same(rows, revisions, i, j, x));
                assert(shared_at(rows, revisions, i, x));
            }
        }
    }
    if row_clear(rows, revisions, i) {
        assert forall|x: int| !#[trigger] shared_at(rows, revisions, i, x) by {
            if shared_at(rows, revisions, i, x) {
                let j = choose|j: int| #[trigger] holds_same(rows, revisions, i, j, x);
                assert(held.contains(held[x]));
                assert(holds_ext_id(revisions, rows[i], held[x].0, held[x].1));
            }
        }
    }
}

pub open spec fn changelog_full_text() -> Seq<char> {
    "changelog is full"@
}

/// Whether `e` is the error with which the acceptance of editgroup `g` is
/// refused. Where no error is, acceptance succeeds.
pub open spec fn accept_error(c: CatalogView, g: u128, e: ErrorView) -> bool {
    let rows = candidate_rows(c, g);
    if !c.has_editgroup(g) {
        e == ErrorView::NotFound(Resource::Editgroup(g))
    } else if c.editgroup(g).changelog_id is Some {
        e == ErrorView::EditgroupAlreadyAccepted
    } else if c.changelog.len() + 1 >= i64::MAX {
        e == ErrorView::InternalError(changelog_full_text())
    } else if any_conflict(c, g) {
        e is EditConflict && first_conflict(c, g, e->EditConflict_0)
    } else if !ext_ids_unique(rows, c.revisions) {
        e is DuplicateExternalId && reported_duplicate(
            c,
            g,
            e->DuplicateExternalId_0,
            e->DuplicateExternalId_1,
        )
    } else if !redirects_ok(rows) {
        e == ErrorView::BadRedirect
    } else {
        false
    }
}

/// Whether the acceptance of editgroup `g` succeeds.
pub open spec fn accept_ok(c: CatalogView, g: u128) -> bool {
    &&& c.is_open(g)
    &&& c.changelog.len() + 1 < i64::MAX
    &&& !any_conflict(c, g)
    &&& ext_ids_unique(candidate_rows(c, g), c.revisions)
    &&& redirects_ok(candidate_rows(c, g))
}

/// The changelog entry that the acceptance of editgroup `g` appends.
pub open spec fn accepted_entry(c: CatalogView, g: u128, now: i64) -> ChangelogRow {
    ChangelogRow { id: (c.changelog.len() + 1) as i64, editgroup_id: g, timestamp: now }
}

/// The catalog after the acceptance of editgroup `g`.
pub open spec fn after_accept(c: CatalogView, g: u128, now: i64) -> CatalogView {
    CatalogView {
        idents: candidate_rows(c, g),
        editgroups: c.editgroups.update(
            g - 1,
            EditgroupView { changelog_id: Some((c.changelog.len() + 1) as i64), ..c.editgroup(g) },
        ),
        changelog: c.changelog.push(accepted_entry(c, g, now)),
        ..c
    }
}

/// An edit of an editgroup on an identifier is the editgroup's only edit on it.
pub proof fn lemma_group_edit_is(c: CatalogView, k: int, g: u128, id: u128)
    requires
        c.consistent(),
        c.is_group_edit_at(k, g, id),
    ensures
        c.group_edit_from(g, id, 0) == Some(k),
        c.group_edit(g, id) == c.edits[k],
{
    lemma_group_edit_from(c, g, id, 0);
    let f = c.group_edit_from(g, id, 0);
    assert(f is Some);
    if f->0 != k {
        assert(c.edits[f->0] is Some && c.edits[k] is Some);
    }
}

/// Acceptance keeps the catalog in order.
pub proof fn lemma_after_accept_wf(c: CatalogView, g: u128, now: i64)
    requires
        c.wf(),
        accept_ok(c, g),
    ensures
        after_accept(c, g, now).consistent(),
{
    let d = after_accept(c, g, now);
    let rows = candidate_rows(c, g);
    assert forall|i: int| 0 <= i < rows.len() implies {
        let r = #[trigger] rows[i];
        &&& r.ident == i + 1
        &&& r.entity_type == c.idents[i].entity_type
        &&& (r.rev_id is Some ==> 1 <= r.rev_id->0 <= c.revisions.len() && c.revisions[r.rev_id->0
            - 1].entity_type == r.entity_type)
        &&& (!r.is_live ==> r.rev_id is Some)
        &&& !(r.rev_id is Some && r.redirect_id is Some)
    } by {
        let id = (i + 1) as u128;
        lemma_group_edit_from(c, g, id, 0);
        if c.group_edit(g, id) is Some {
            let k = c.group_edit_from(g, id, 0)->0;
            assert(edit_ok(c.edits[k]->0, k, c.editgroups.len(), c.idents, c.revisions));
        }
    }
    assert forall|k: int| 0 <= k < d.edits.len() && (#[trigger] d.edits[k]) is Some implies edit_ok(
        d.edits[k]->0,
        k,
        d.editgroups.len(),
        d.idents,
        d.revisions,
    ) by {
        assert(edit_ok(c.edits[k]->0, k, c.editgroups.len(), c.idents, c.revisions));
        assert(rows[c.edits[k]->0.ident - 1].entity_type == c.idents[c.edits[k]->0.ident
            - 1].entity_type);
    }
    assert forall|i: int| 0 <= i < d.changelog.len() implies {
        let x = #[trigger] d.changelog[i];
        &&& x.id == i + 1
        &&& 1 <= x.editgroup_id <= d.editgroups.len()
        &&& d.editgroups[x.editgroup_id - 1].changelog_id == Some(x.id)
    } by {
        if i < c.changelog.len() {
            let x = c.changelog[i];
            assert(c.editgroups[x.editgroup_id - 1].changelog_id == Some(x.id));
        }
    }
    assert forall|i: int| 0 <= i < d.idents.len() implies ((#[trigger] d.idents[i]).is_live
        <==> has_accepted_edit(d.edits, d.editgroups, i + 1)) by {
        let idn = i + 1;
        let id = (i + 1) as u128;
        lemma_group_edit_from(c, g, id, 0);
        if c.group_edit(g, id) is Some {
            let k = c.group_edit_from(g, id, 0)->0;
            assert(is_accepted_edit_at(d.edits, d.editgroups, k, idn));
        } else {
            assert forall|k: int|
                #[trigger] is_accepted_edit_at(c.edits, c.editgroups, k, idn) == is_accepted_edit_at(
                    d.edits,
                    d.editgroups,
                    k,
                    idn,
                ) by {
                assert(!c.is_group_edit_at(k, g, id));
                if 0 <= k < c.edits.len() && c.edits[k] is Some {
                    assert(edit_ok(c.edits[k]->0, k, c.editgroups.len(), c.idents, c.revisions));
                }
            }
            lemma_accepted_edit_same(c.edits, c.editgroups, d.edits, d.editgroups, idn);
        }
    }
}

/// Place of an entity type in the order in which edits are applied.
fn rank_of(t: EntityType) -> (r: u8)
    ensures
        r as int == type_rank(t),
{
    match t {
        EntityType::Container => 0,
        EntityType::Creator => 1,
        EntityType::File => 2,
        EntityType::Fileset => 3,
        EntityType::Webcapture => 4,
        EntityType::Release => 5,
        EntityType::Work => 6,
    }
}

/// The edit row at place `k` is an edit of editgroup `g` that conflicts.
pub open spec fn conflict_at(c: CatalogView, g: u128, k: int) -> bool {
    &&& 0 <= k < c.edits.len()
    &&& c.edits[k] is Some
    &&& c.edits[k]->0.editgroup_id == g
    &&& c.has_ident(c.edits[k]->0.ident)
    &&& c.ident(c.edits[k]->0.ident).is_live
    &&& c.edits[k]->0.prev_rev != c.ident(c.edits[k]->0.ident).rev_id
}

impl Catalog {
    /// Place of the revision whose external identifiers a row holds, if it holds any.
    fn held_place(&self, row: &IdentRow) -> (r: Option<usize>)
        ensures
            match r {
                Some(p) => p < self.revisions@.len() && held_ext_ids(self@.revisions, *row)
                    == crate::model::ext_ids_view(self.revisions@[p as int].content.ext_ids@),
                None => held_ext_ids(self@.revisions, *row) == Seq::<(ExtIdKind, Seq<char>)>::empty(),
            },
    {
        if !row.is_live {
            return None;
        }
        match row.rev_id {
            None => None,
            Some(r) => match self.revision_place(r) {
                None => None,
                Some(p) => {
                    assert(self@.revisions[p as int] == self.revisions@[p as int]@);
                    Some(p)
                },
            },
        }
    }

    /// The first identifier, in the order in which edits are applied, on
    /// which an edit of editgroup `g` conflicts.
    fn find_conflict(&self, g: u128) -> (r: Option<u128>)
        requires
            self.wf(),
        ensures
            match r {
                Some(id) => first_conflict(self@, g, id),
                None => !any_conflict(self@, g),
            },
    {
        let ghost c = self@;
        let mut best: Option<u128> = None;
        let mut best_rank: u8 = 0;
        let mut k: usize = 0;
        while k < self.edits.len()
            invariant
                k <= self.edits@.len(),
                c == self@,
                c.wf(),
                best is None ==> forall|p: int| 0 <= p < k ==> !conflict_at(c, g, p),
                best is Some ==> conflicts(c, g, best->0) && best_rank as int == type_rank(
                    c.ident(best->0).entity_type,
                ) && forall|p: int|
                    0 <= p < k && conflict_at(c, g, p) ==> applied_before(
                        c,
                        best->0,
                        (#[trigger] c.edits[p])->0.ident,
                    ),
            decreases self.edits@.len() - k,
        {
            match &self.edits[k] {
                None => {},
                Some(e) => {
                    if e.editgroup_id == g {
                        assert(edit_ok(*e, k as int, c.editgroups.len(), c.idents, c.revisions));
                        let row = &self.idents[(e.ident - 1) as usize];
                        if row.is_live && e.prev_rev != row.rev_id {
                            proof {
                                lemma_group_edit_is(c, k as int, g, e.ident);
                            }
                            let rk = rank_of(row.entity_type);
                            let better = match best {
                                None => true,
                                Some(b) => rk < best_rank || (rk == best_rank && e.ident < b),
                            };
                            if better {
                                best = Some(e.ident);
                                best_rank = rk;
                            }
                        }
                    }
                },
            }
            k += 1;
        }
        proof {
            assert forall|o: u128| conflicts(c, g, o) implies best is Some && applied_before(
                c,
                best->0,
                o,
            ) by {
                lemma_group_edit_from(c, g, o, 0);
                let p = c.group_edit_from(g, o, 0)->0;
                assert(conflict_at(c, g, p));
            }
        }
        best
    }

    /// The identifier rows as they are once the edits of editgroup `g` are applied.
    fn apply_edits(&self, g: u128) -> (rows: Vec<IdentRow>)
        requires
            self.wf(),
        ensures
            rows@ == candidate_rows(self@, g),
    {
        let ghost c = self@;
        let mut rows: Vec<IdentRow> = Vec::new();
        let mut i: usize = 0;
        while i < self.idents.len()
            invariant
                i <= self.idents@.len(),
                rows@ == self.idents@.subrange(0, i as int),
            decreases self.idents@.len() - i,
        {
            rows.push(self.idents[i]);
            assert(rows@ =~= self.idents@.subrange(0, i + 1));
            i += 1;
        }
        assert(rows@ =~= self.idents@);
        proof {
            assert forall|id: u128| (#[trigger] c.group_edit_from(g, id, 0)) is Some implies c.group_edit_from(
                g,
                id,
                0,
            )->0 >= 0 by {
                lemma_group_edit_from(c, g, id, 0);
            }
        }
        let mut k: usize = 0;
        while k < self.edits.len()
            invariant
                k <= self.edits@.len(),
                c == self@,
                c.wf(),
                rows@.len() == c.idents.len(),
                forall|i: int|
                    0 <= i < rows@.len() ==> #[trigger] rows@[i] == (if c.group_edit_from(
                        g,
                        (i + 1) as u128,
                        0,
                    ) is Some && c.group_edit_from(g, (i + 1) as u128, 0)->0 < k {
                        accepted_row(c.idents[i], c.group_edit(g, (i + 1) as u128)->0)
                    } else {
                        c.idents[i]
                    }),
            decreases self.edits@.len() - k,
        {
            proof {
                assert forall|id: u128| #[trigger]
                    c.group_edit_from(g, id, 0) == Some(k as int) implies c.is_group_edit_at(
                    k as int,
                    g,
                    id,
                ) by {
                    lemma_group_edit_from(c, g, id, 0);
                }
            }
            match &self.edits[k] {
                None => {},
                Some(e) => {
                    if e.editgroup_id == g {
                        assert(edit_ok(*e, k as int, c.editgroups.len(), c.idents, c.revisions));
                        let p = (e.ident - 1) as usize;
                        proof {
                            lemma_group_edit_is(c, k as int, g, e.ident);
                        }
                        let old_row = self.idents[p];
                        rows.set(
                            p,
                            IdentRow {
                                entity_type: old_row.entity_type,
                                ident: old_row.ident,
                                is_live: true,
                                rev_id: e.rev_id,
                                redirect_id: e.redirect_id,
                            },
                        );
                    }
                },
            }
            k += 1;
        }
        proof {
            assert forall|i: int| 0 <= i < rows@.len() implies rows@[i] == candidate_rows(c, g)[i] by {
                lemma_group_edit_from(c, g, (i + 1) as u128, 0);
            }
            assert(rows@ =~= candidate_rows(c, g));
        }
        rows
    }

    /// The first external identifier of row `i` that another row of its
    /// entity type holds too, with its place, if there is one.
    fn row_clash(&self, rows: &Vec<IdentRow>, i: usize) -> (r: Option<(usize, ExtIdKind, String)>)
        requires
            i < rows@.len(),
        ensures
            match r {
                Some((x, k, v)) => {
                    &&& first_shared_at(rows@, self@.revisions, i as int, x as int)
                    &&& held_ext_ids(self@.revisions, rows@[i as int])[x as int] == (k, v@)
                },
                None => row_clear(rows@, self@.revisions, i as int),
            },
    {
        let ghost revs = self@.revisions;
        proof {
            lemma_row_clear(rows@, revs, i as int);
        }
        let mine = match self.held_place(&rows[i]) {
            None => {
                return None;
            },
            Some(p) => p,
        };
        let a = &self.revisions[mine].content.ext_ids;
        let ghost held = held_ext_ids(revs, rows@[i as int]);
        let mut x: usize = 0;
        while x < a.len()
            invariant
                x <= a@.len(),
                i < rows@.len(),
                revs == self@.revisions,
                held == held_ext_ids(revs, rows@[i as int]),
                held == crate::model::ext_ids_view(a@),
                forall|y: int| 0 <= y < x ==> !#[trigger] shared_at(rows@, revs, i as int, y),
            decreases a@.len() - x,
        {
            let kind = a[x].kind;
            let mut j: usize = 0;
            while j < rows.len()
                invariant
                    j <= rows@.len(),
                    i < rows@.len(),
                    x < a@.len(),
                    revs == self@.revisions,
                    held == held_ext_ids(revs, rows@[i as int]),
                    held == crate::model::ext_ids_view(a@),
                    kind == a@[x as int].kind,
                    forall|y: int| 0 <= y < x ==> !#[trigger] shared_at(rows@, revs, i as int, y),
                    forall|q: int| 0 <= q < j ==> !holds_same(rows@, revs, i as int, q, x as int),
                decreases rows@.len() - j,
            {
                if j != i && rows[j].entity_type == rows[i].entity_type {
                    match self.held_place(&rows[j]) {
                        None => {
                            assert(!holds_ext_id(revs, rows@[j as int], held[x as int].0, held[x as int].1));
                        },
                        Some(p) => {
                            if crate::model::ext_ids_contain(
                                &self.revisions[p].content.ext_ids,
                                kind,
                                a[x].value.as_str(),
                            ) {
                                assert(holds_same(rows@, revs, i as int, j as int, x as int));
                                return Some((x, kind, crate::model::copy_text(&a[x].value)));
                            }
                        },
                    }
                }
                j += 1;
            }
            x += 1;
        }
        None
    }

    /// The duplicate with which the acceptance of editgroup `g` is refused,
    /// if rows share an external identifier once its edits are applied.
    fn find_duplicate(&self, g: u128, rows: &Vec<IdentRow>) -> (r: Option<(ExtIdKind, String)>)
        requires
            self.wf(),
            rows@ == candidate_rows(self@, g),
        ensures
            match r {
                Some((k, v)) => reported_duplicate(self@, g, k, v@) && !ext_ids_unique(
                    rows@,
                    self@.revisions,
                ),
                None => ext_ids_unique(rows@, self@.revisions),
            },
    {
        let ghost c = self@;
        let ghost revs = c.revisions;
        let mut best: Option<String> = None;
        let mut best_kind: ExtIdKind = ExtIdKind::Doi;
        let mut best_id: u128 = 0;
        let mut best_rank: u8 = 0;
        let ghost mut best_x: int = 0;
        let mut k: usize = 0;
        while k < self.edits.len()
            invariant
                k <= self.edits@.len(),
                c == self@,
                revs == c.revisions,
                c.wf(),
                rows@ == candidate_rows(c, g),
                best is None ==> forall|p: int|
                    0 <= p < k && (#[trigger] c.edits[p]) is Some && c.edits[p]->0.editgroup_id == g
                        ==> row_clear(rows@, revs, c.edits[p]->0.ident - 1),
                best is Some ==> clashes(c, g, best_id) && first_shared(c, g, best_id, best_x)
                    && held_ext_ids(revs, rows@[best_id - 1])[best_x] == (best_kind, best->0@)
                    && best_rank as int == type_rank(c.ident(best_id).entity_type) && forall|p: int|
                    0 <= p < k && (#[trigger] c.edits[p]) is Some && c.edits[p]->0.editgroup_id == g
                        && !row_clear(rows@, revs, c.edits[p]->0.ident - 1) ==> applied_before(
                        c,
                        best_id,
                        c.edits[p]->0.ident,
                    ),
            decreases self.edits@.len() - k,
        {
            match &self.edits[k] {
                None => {},
                Some(e) => {
                    if e.editgroup_id == g {
                        assert(edit_ok(*e, k as int, c.editgroups.len(), c.idents, c.revisions));
                        let i = (e.ident - 1) as usize;
                        match self.row_clash(rows, i) {
                            None => {},
                            Some((x, kind, value)) => {
                                proof {
                                    lemma_group_edit_is(c, k as int, g, e.ident);
                                    lemma_row_clear(rows@, revs, i as int);
                                }
                                let rk = rank_of(rows[i].entity_type);
                                let better = match best {
                                    None => true,
                                    Some(_) => rk < best_rank || (rk == best_rank && e.ident < best_id),
                                };
                                if better {
                                    best = Some(value);
                                    best_kind = kind;
                                    best_id = e.ident;
                                    best_rank = rk;
                                    proof {
                                        best_x = x as int;
                                    }
                                }
                            },
                        }
                    }
                },
            }
            k += 1;
        }
        proof {
            if best is Some {
                assert forall|o: u128| clashes(c, g, o) implies applied_before(c, best_id, o) by {
                    lemma_group_edit_from(c, g, o, 0);
                    let p = c.group_edit_from(g, o, 0)->0;
                    assert(c.edits[p] is Some);
                }
                assert(first_clash(c, g, best_id));
                assert(reported_duplicate(c, g, best_kind, best->0@));
                let i = best_id - 1;
                let held = held_ext_ids(revs, rows@[i]);
                let j = choose|j: int| #[trigger] holds_same(rows@, revs, i, j, best_x);
                assert(held.contains(held[best_x]));
                assert(holds_ext_id(revs, rows@[i], held[best_x].0, held[best_x].1));
                assert(holds_ext_id(revs, rows@[j], held[best_x].0, held[best_x].1));
            } else {
                assert forall|i: int, j: int, kk: ExtIdKind, v: Seq<char>|
                    0 <= i < rows@.len() && 0 <= j < rows@.len() && i != j && rows@[i].entity_type
                        == rows@[j].entity_type && #[trigger] holds_ext_id(revs, rows@[i], kk, v)
                        && #[trigger] holds_ext_id(revs, rows@[j], kk, v) implies false by {
                    let idi = (i + 1) as u128;
                    let idj = (j + 1) as u128;
                    lemma_group_edit_from(c, g, idi, 0);
                    lemma_group_edit_from(c, g, idj, 0);
                    if c.group_edit(g, idi) is Some {
                        let p = c.group_edit_from(g, idi, 0)->0;
                        assert(row_clear(rows@, revs, c.edits[p]->0.ident - 1));
                    } else if c.group_edit(g, idj) is Some {
                        let p = c.group_edit_from(g, idj, 0)->0;
                        assert(row_clear(rows@, revs, c.edits[p]->0.ident - 1));
                    } else {
                        assert(holds_ext_id(revs, c.idents[i], kk, v));
                        assert(holds_ext_id(revs, c.idents[j], kk, v));
                    }
                }
            }
        }
        match best {
            Some(value) => Some((best_kind, value)),
            None => None,
        }
    }
}

/// Whether every redirect among the rows is in order.
fn redirects_hold(rows: &Vec<IdentRow>) -> (b: bool)
    ensures
        b == redirects_ok(rows@),
{
    let mut i: usize = 0;
    while i < rows.len()
        invariant
            i <= rows@.len(),
            forall|j: int|
                0 <= j < i && (#[trigger] rows@[j]).redirect_id is Some ==> rows@[j].is_live
                    && redirect_ok(rows@, rows@[j].entity_type, rows@[j].redirect_id->0),
        decreases rows@.len() - i,
    {
        match rows[i].redirect_id {
            None => {},
            Some(target) => {
                if !rows[i].is_live {
                    return false;
                }
                if !(1 <= target && target <= rows.len() as u128) {
                    return false;
                }
                let t = &rows[(target - 1) as usize];
                if t.entity_type != rows[i].entity_type || !t.is_live || t.redirect_id.is_some() {
                    return false;
                }
            },
        }
        i += 1;
    }
    true
}

impl Catalog {
    /// Accepts an editgroup: every identifier that it edits becomes live and
    /// points to what its edit says, one changelog entry is appended, and the
    /// editgroup records the entry's id, which is returned. Where acceptance
    /// is refused, the catalog is as it was.
    pub fn accept_editgroup(&mut self, g: u128, now: i64) -> (r: Result<i64, FatcatError>)
        requires
            old(self).wf(),
        ensures
            final(self).wf(),
            match r {
                Ok(id) => {
                    &&& accept_ok(old(self)@, g)
                    &&& id == old(self)@.changelog.len() + 1
                    &&& final(self)@ == after_accept(old(self)@, g, now)
                },
                Err(e) => {
                    &&& accept_error(old(self)@, g, e@)
                    &&& !accept_ok(old(self)@, g)
                    &&& final(self)@ == old(self)@
                },
            },
    {
        let ghost c = self@;
        let place = match self.editgroup_place(g) {
            Some(i) => i,
            None => {
                return Err(FatcatError::NotFound(Resource::Editgroup(g)));
            },
        };
        assert(c.editgroup(g) == self.editgroups@[place as int]@);
        if self.editgroups[place].changelog_id.is_some() {
            return Err(FatcatError::EditgroupAlreadyAccepted);
        }
        if self.changelog.len() as u64 >= 0x7fff_ffff_ffff_fffe {
            return Err(FatcatError::InternalError(String::from_str("changelog is full")));
        }
        match self.find_conflict(g) {
            Some(id) => {
                assert(conflicts(c, g, id));
                return Err(FatcatError::EditConflict(id));
            },
            None => {},
        }
        let rows = self.apply_edits(g);
        match self.find_duplicate(g, &rows) {
            Some((k, v)) => {
                return Err(FatcatError::DuplicateExternalId(k, v));
            },
            None => {},
        }
        if !redirects_hold(&rows) {
            return Err(FatcatError::BadRedirect);
        }
        let id: i64 = self.changelog.len() as i64 + 1;
        let mut eg = self.editgroups[place].copy();
        eg.changelog_id = Some(id);
        self.idents = rows;
        self.changelog.push(ChangelogRow { id, editgroup_id: g, timestamp: now });
        self.editgroups.set(place, eg);
        proof {
            assert(self@ =~= after_accept(c, g, now));
            lemma_after_accept_wf(c, g, now);
            self.lemma_sizes_ok();
        }
        Ok(id)
    }
}

} // verus!

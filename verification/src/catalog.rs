//! The catalog's tables, their mathematical value, and what holds of them at
//! all times.
//!
//! Every table is append-only but for two things: an identifier row is
//! rewritten when an editgroup is accepted, and a work-in-progress edit can
//! be replaced or removed, with its metadata. Ids are assigned by the
//! catalog in the order of creation, so the row with id `n` is the `n`-th of
//! its table.

use vstd::prelude::*;
use crate::errors::{EntityType, ExtIdKind};
use crate::model::{
    ChangelogRow, EditRow, Editgroup, EditgroupView, Editor, EditorView, IdentRow, OidcLink,
    OidcLinkView, RevisionRow, RevisionView,
};

verus! {

/// Mathematical value of the catalog: its tables as sequences of rows.
#[verifier::ext_equal]
pub struct CatalogView {
    pub idents: Seq<IdentRow>,
    pub revisions: Seq<RevisionView>,
    /// Edit rows by id; `None` where the edit was removed.
    pub edits: Seq<Option<EditRow>>,
    /// The free-form metadata of each edit, by the edit's id; `None` where
    /// the edit has none.
    pub edit_extras: Seq<Option<Seq<char>>>,
    pub editgroups: Seq<EditgroupView>,
    pub changelog: Seq<ChangelogRow>,
    pub editors: Seq<EditorView>,
    pub oidc: Seq<OidcLinkView>,
}

impl CatalogView {
    pub open spec fn has_ident(self, id: u128) -> bool {
        1 <= id <= self.idents.len()
    }

    pub open spec fn ident(self, id: u128) -> IdentRow {
        self.idents[id - 1]
    }

    /// The identifier `id` exists and names an entity of type `t`.
    pub open spec fn has_entity(self, t: EntityType, id: u128) -> bool {
        self.has_ident(id) && self.ident(id).entity_type == t
    }

    pub open spec fn has_revision(self, r: u128) -> bool {
        1 <= r <= self.revisions.len()
    }

    pub open spec fn revision(self, r: u128) -> RevisionView {
        self.revisions[r - 1]
    }

    /// The revision `r` exists and is of an entity of type `t`.
    pub open spec fn has_revision_of(self, t: EntityType, r: u128) -> bool {
        self.has_revision(r) && self.revision(r).entity_type == t
    }

    pub open spec fn has_edit(self, e: u128) -> bool {
        1 <= e <= self.edits.len() && self.edits[e - 1] is Some
    }

    pub open spec fn edit(self, e: u128) -> EditRow {
        self.edits[e - 1]->0
    }

    /// The free-form metadata of the edit `e`.
    pub open spec fn edit_extra(self, e: u128) -> Option<Seq<char>> {
        self.edit_extras[e - 1]
    }

    pub open spec fn has_editgroup(self, g: u128) -> bool {
        1 <= g <= self.editgroups.len()
    }

    pub open spec fn editgroup(self, g: u128) -> EditgroupView {
        self.editgroups[g - 1]
    }

    /// The editgroup exists and has not been accepted.
    pub open spec fn is_open(self, g: u128) -> bool {
        self.has_editgroup(g) && self.editgroup(g).changelog_id is None
    }

    /// The editgroup exists and has been accepted.
    pub open spec fn is_accepted(self, g: u128) -> bool {
        self.has_editgroup(g) && self.editgroup(g).changelog_id is Some
    }

    pub open spec fn has_editor(self, e: u128) -> bool {
        1 <= e <= self.editors.len()
    }

    pub open spec fn editor(self, e: u128) -> EditorView {
        self.editors[e - 1]
    }

    /// The edit row at place `k` is an edit of editgroup `g` on identifier `id`.
    pub open spec fn is_group_edit_at(self, k: int, g: u128, id: u128) -> bool {
        0 <= k < self.edits.len() && self.edits[k] is Some && self.edits[k]->0.editgroup_id == g
            && self.edits[k]->0.ident == id
    }

    /// Place of the first edit of editgroup `g` on identifier `id` at or after `from`.
    pub open spec fn group_edit_from(self, g: u128, id: u128, from: int) -> Option<int>
        decreases self.edits.len() - from,
    {
        if from < 0 || from >= self.edits.len() {
            None
        } else if self.is_group_edit_at(from, g, id) {
            Some(from)
        } else {
            self.group_edit_from(g, id, from + 1)
        }
    }

    /// The edit of editgroup `g` on identifier `id`, if there is one.
    pub open spec fn group_edit(self, g: u128, id: u128) -> Option<EditRow> {
        match self.group_edit_from(g, id, 0) {
            Some(k) => self.edits[k],
            None => None,
        }
    }

    /// The external identifiers that an identifier row holds; see [`held_ext_ids`].
    pub open spec fn held_ext_ids(self, row: IdentRow) -> Seq<(ExtIdKind, Seq<char>)> {
        held_ext_ids(self.revisions, row)
    }

    pub open spec fn holds_ext_id(self, row: IdentRow, k: ExtIdKind, v: Seq<char>) -> bool {
        holds_ext_id(self.revisions, row, k, v)
    }

    /// No table holds more rows than a machine can address.
    pub open spec fn sizes_ok(self) -> bool {
        &&& self.idents.len() <= usize::MAX
        &&& self.revisions.len() <= usize::MAX
        &&& self.edits.len() <= usize::MAX
        &&& self.edit_extras.len() <= usize::MAX
        &&& self.editgroups.len() <= usize::MAX
        &&& self.changelog.len() <= usize::MAX
        &&& self.editors.len() <= usize::MAX
        &&& self.oidc.len() <= usize::MAX
    }

    /// What holds of the catalog at all times.
    pub open spec fn wf(self) -> bool {
        self.consistent() && self.sizes_ok()
    }

    /// The rows of the tables agree with each other.
    pub open spec fn consistent(self) -> bool {
        &&& idents_wf(self.idents, self.revisions)
        &&& revisions_wf(self.revisions)
        &&& edits_wf(self.edits, self.editgroups.len(), self.idents, self.revisions)
        &&& extras_wf(self.edits, self.edit_extras)
        &&& editgroups_wf(self.editgroups, self.editors.len(), self.changelog)
        &&& changelog_wf(self.changelog, self.editgroups)
        &&& editors_wf(self.editors)
        &&& oidc_wf(self.oidc, self.editors.len())
        &&& live_wf(self.idents, self.edits, self.editgroups)
        &&& self.changelog.len() < i64::MAX
    }

    pub open spec fn empty() -> CatalogView {
        CatalogView {
            idents: Seq::empty(),
            revisions: Seq::empty(),
            edits: Seq::empty(),
            edit_extras: Seq::empty(),
            editgroups: Seq::empty(),
            changelog: Seq::empty(),
            editors: Seq::empty(),
            oidc: Seq::empty(),
        }
    }
}

/// The external identifiers that an identifier row holds: those of its
/// revision where it is live and points to one, none otherwise.
pub open spec fn held_ext_ids(revisions: Seq<RevisionView>, row: IdentRow) -> Seq<
    (ExtIdKind, Seq<char>),
> {
    if row.is_live && row.rev_id is Some && 1 <= row.rev_id->0 <= revisions.len() {
        revisions[row.rev_id->0 - 1].content.ext_ids
    } else {
        Seq::empty()
    }
}

pub open spec fn holds_ext_id(
    revisions: Seq<RevisionView>,
    row: IdentRow,
    k: ExtIdKind,
    v: Seq<char>,
) -> bool {
    held_ext_ids(revisions, row).contains((k, v))
}

/// A redirect to `target` from an identifier of type `t` is in order: the
/// target exists, is of the same type, is live, and does not redirect.
pub open spec fn redirect_ok(idents: Seq<IdentRow>, t: EntityType, target: u128) -> bool {
    &&& 1 <= target <= idents.len()
    &&& idents[target - 1].entity_type == t
    &&& idents[target - 1].is_live
    &&& idents[target - 1].redirect_id is None
}

/// No identifier row points both to a revision and to another identifier.
pub open spec fn pointers_exclusive(idents: Seq<IdentRow>) -> bool {
    forall|i: int|
        0 <= i < idents.len() ==> !((#[trigger] idents[i]).rev_id is Some && idents[i].redirect_id is Some)
}

/// Every redirect among the rows is in order: there are no chains.
pub open spec fn redirects_ok(idents: Seq<IdentRow>) -> bool {
    forall|i: int|
        0 <= i < idents.len() && (#[trigger] idents[i]).redirect_id is Some ==> idents[i].is_live
            && redirect_ok(idents, idents[i].entity_type, idents[i].redirect_id->0)
}

/// No external identifier is held by two rows of one entity type.
pub open spec fn ext_ids_unique(idents: Seq<IdentRow>, revisions: Seq<RevisionView>) -> bool {
    forall|i: int, j: int, k: ExtIdKind, v: Seq<char>|
        0 <= i < idents.len() && 0 <= j < idents.len() && i != j && idents[i].entity_type
            == idents[j].entity_type && #[trigger] holds_ext_id(revisions, idents[i], k, v)
            && #[trigger] holds_ext_id(revisions, idents[j], k, v) ==> false
}

/// Every pointer of a row to a revision is to a revision of the row's type.
pub open spec fn pointers_resolve(idents: Seq<IdentRow>, revisions: Seq<RevisionView>) -> bool {
    forall|i: int|
        0 <= i < idents.len() ==> {
            let r = #[trigger] idents[i];
            &&& r.ident == i + 1
            &&& (r.rev_id is Some ==> 1 <= r.rev_id->0 <= revisions.len() && revisions[r.rev_id->0
                - 1].entity_type == r.entity_type)
            &&& (!r.is_live ==> r.rev_id is Some)
        }
}

pub open spec fn idents_wf(idents: Seq<IdentRow>, revisions: Seq<RevisionView>) -> bool {
    &&& pointers_resolve(idents, revisions)
    &&& pointers_exclusive(idents)
    &&& redirects_ok(idents)
    &&& ext_ids_unique(idents, revisions)
}

/// Revisions are numbered in order, and none holds the metadata of an edit.
pub open spec fn revisions_wf(revisions: Seq<RevisionView>) -> bool {
    forall|i: int|
        0 <= i < revisions.len() ==> (#[trigger] revisions[i]).rev_id == i + 1
            && revisions[i].content.edit_extra is None
}

/// What holds of one edit row at place `k`.
pub open spec fn edit_ok(
    e: EditRow,
    k: int,
    n_editgroups: nat,
    idents: Seq<IdentRow>,
    revisions: Seq<RevisionView>,
) -> bool {
    &&& e.edit_id == k + 1
    &&& 1 <= e.editgroup_id <= n_editgroups
    &&& 1 <= e.ident <= idents.len()
    &&& idents[e.ident - 1].entity_type == e.entity_type
    &&& !(e.rev_id is Some && e.redirect_id is Some)
    &&& (e.rev_id is Some ==> 1 <= e.rev_id->0 <= revisions.len() && revisions[e.rev_id->0
        - 1].entity_type == e.entity_type)
}

/// No editgroup holds two edits on one identifier.
pub open spec fn edits_distinct(edits: Seq<Option<EditRow>>) -> bool {
    forall|k: int, m: int|
        0 <= k < m < edits.len() && (#[trigger] edits[k]) is Some && (#[trigger] edits[m]) is Some
            ==> !(edits[k]->0.editgroup_id == edits[m]->0.editgroup_id && edits[k]->0.ident
            == edits[m]->0.ident)
}

pub open spec fn edits_wf(
    edits: Seq<Option<EditRow>>,
    n_editgroups: nat,
    idents: Seq<IdentRow>,
    revisions: Seq<RevisionView>,
) -> bool {
    &&& forall|k: int|
        0 <= k < edits.len() && (#[trigger] edits[k]) is Some ==> edit_ok(
            edits[k]->0,
            k,
            n_editgroups,
            idents,
            revisions,
        )
    &&& edits_distinct(edits)
}

/// Every edit row has a place for its metadata, and a removed edit has none.
pub open spec fn extras_wf(edits: Seq<Option<EditRow>>, extras: Seq<Option<Seq<char>>>) -> bool {
    &&& extras.len() == edits.len()
    &&& forall|k: int| 0 <= k < edits.len() && edits[k] is None ==> (#[trigger] extras[k]) is None
}

pub open spec fn editgroups_wf(
    editgroups: Seq<EditgroupView>,
    n_editors: nat,
    changelog: Seq<ChangelogRow>,
) -> bool {
    forall|i: int|
        0 <= i < editgroups.len() ==> {
            let g = #[trigger] editgroups[i];
            &&& g.editgroup_id == i + 1
            &&& 1 <= g.editor_id <= n_editors
            &&& (g.changelog_id is Some ==> 1 <= g.changelog_id->0 <= changelog.len()
                && changelog[g.changelog_id->0 - 1].editgroup_id == i + 1)
        }
}

/// Changelog ids count up from one without a gap, and each entry is that
/// of an editgroup which records it.
pub open spec fn changelog_wf(changelog: Seq<ChangelogRow>, editgroups: Seq<EditgroupView>) -> bool {
    forall|i: int|
        0 <= i < changelog.len() ==> {
            let c = #[trigger] changelog[i];
            &&& c.id == i + 1
            &&& 1 <= c.editgroup_id <= editgroups.len()
            &&& editgroups[c.editgroup_id - 1].changelog_id == Some(c.id)
        }
}

pub open spec fn editors_wf(editors: Seq<EditorView>) -> bool {
    &&& forall|i: int| 0 <= i < editors.len() ==> (#[trigger] editors[i]).editor_id == i + 1
    &&& forall|i: int, j: int|
        0 <= i < j < editors.len() ==> (#[trigger] editors[i]).username != (
        #[trigger] editors[j]).username
}

pub open spec fn oidc_wf(oidc: Seq<OidcLinkView>, n_editors: nat) -> bool {
    &&& forall|i: int| 0 <= i < oidc.len() ==> 1 <= (#[trigger] oidc[i]).editor_id <= n_editors
    &&& forall|i: int, j: int|
        0 <= i < j < oidc.len() ==> !((#[trigger] oidc[i]).provider == (#[trigger] oidc[j]).provider
            && oidc[i].sub == oidc[j].sub)
}

/// The edit row at place `k` is an accepted edit on identifier `id`.
pub open spec fn is_accepted_edit_at(
    edits: Seq<Option<EditRow>>,
    editgroups: Seq<EditgroupView>,
    k: int,
    id: int,
) -> bool {
    &&& 0 <= k < edits.len()
    &&& edits[k] is Some
    &&& edits[k]->0.ident == id
    &&& 1 <= edits[k]->0.editgroup_id <= editgroups.len()
    &&& editgroups[edits[k]->0.editgroup_id - 1].changelog_id is Some
}

/// Some accepted editgroup holds an edit on identifier `id`.
pub open spec fn has_accepted_edit(
    edits: Seq<Option<EditRow>>,
    editgroups: Seq<EditgroupView>,
    id: int,
) -> bool {
    exists|k: int| #[trigger] is_accepted_edit_at(edits, editgroups, k, id)
}

/// An identifier is live exactly when an accepted editgroup holds an edit on it.
pub open spec fn live_wf(
    idents: Seq<IdentRow>,
    edits: Seq<Option<EditRow>>,
    editgroups: Seq<EditgroupView>,
) -> bool {
    forall|i: int|
        0 <= i < idents.len() ==> ((#[trigger] idents[i]).is_live <==> has_accepted_edit(
            edits,
            editgroups,
            i + 1,
        ))
}


/// The values of a list of optional texts.
pub open spec fn opt_texts_of(v: Seq<Option<String>>) -> Seq<Option<Seq<char>>> {
    Seq::new(v.len(), |i: int| crate::model::opt_text_view(v[i]))
}

/// The values of a list of revision rows.
pub open spec fn revisions_view(v: Seq<RevisionRow>) -> Seq<RevisionView> {
    Seq::new(v.len(), |i: int| v[i]@)
}

pub open spec fn editgroups_view(v: Seq<Editgroup>) -> Seq<EditgroupView> {
    Seq::new(v.len(), |i: int| v[i]@)
}

pub open spec fn editors_view(v: Seq<Editor>) -> Seq<EditorView> {
    Seq::new(v.len(), |i: int| v[i]@)
}

pub open spec fn oidc_view(v: Seq<OidcLink>) -> Seq<OidcLinkView> {
    Seq::new(v.len(), |i: int| v[i]@)
}

/// The catalog: identifiers, revisions, edits, editgroups, the changelog,
/// editors and their identity links.
pub struct Catalog {
    pub(crate) idents: Vec<IdentRow>,
    pub(crate) revisions: Vec<RevisionRow>,
    pub(crate) edits: Vec<Option<EditRow>>,
    pub(crate) edit_extras: Vec<Option<String>>,
    pub(crate) editgroups: Vec<Editgroup>,
    pub(crate) changelog: Vec<ChangelogRow>,
    pub(crate) editors: Vec<Editor>,
    pub(crate) oidc: Vec<OidcLink>,
}

impl View for Catalog {
    type V = CatalogView;

    open(crate) spec fn view(&self) -> CatalogView {
        CatalogView {
            idents: self.idents@,
            revisions: revisions_view(self.revisions@),
            edits: self.edits@,
            edit_extras: opt_texts_of(self.edit_extras@),
            editgroups: editgroups_view(self.editgroups@),
            changelog: self.changelog@,
            editors: editors_view(self.editors@),
            oidc: oidc_view(self.oidc@),
        }
    }
}

impl Catalog {
    /// What holds of the catalog at all times; see [`CatalogView::wf`].
    pub open spec fn wf(&self) -> bool {
        self@.wf()
    }

    /// An empty catalog.
    pub fn new() -> (c: Catalog)
        ensures
            c.wf(),
            c@ == CatalogView::empty(),
    {
        let c = Catalog {
            idents: Vec::new(),
            revisions: Vec::new(),
            edits: Vec::new(),
            edit_extras: Vec::new(),
            editgroups: Vec::new(),
            changelog: Vec::new(),
            editors: Vec::new(),
            oidc: Vec::new(),
        };
        assert(c@ =~= CatalogView::empty());
        c
    }

    /// The tables of a catalog in memory are of sizes that a machine can address.
    pub proof fn lemma_sizes_ok(&self)
        ensures
            self@.sizes_ok(),
    {
        assert(self.idents@.len() == self.idents.len());
        assert(self.revisions@.len() == self.revisions.len());
        assert(self.edits@.len() == self.edits.len());
        assert(self.edit_extras@.len() == self.edit_extras.len());
        assert(self.editgroups@.len() == self.editgroups.len());
        assert(self.changelog@.len() == self.changelog.len());
        assert(self.editors@.len() == self.editors.len());
        assert(self.oidc@.len() == self.oidc.len());
    }

    /// Place of the row of identifier `id`, if it exists.
    pub(crate) fn ident_place(&self, id: u128) -> (r: Option<usize>)
        ensures
            match r {
                Some(i) => self@.has_ident(id) && i == id - 1,
                None => !self@.has_ident(id),
            },
    {
        if 1 <= id && id <= self.idents.len() as u128 {
            Some((id - 1) as usize)
        } else {
            None
        }
    }

    pub(crate) fn revision_place(&self, r: u128) -> (p: Option<usize>)
        ensures
            match p {
                Some(i) => self@.has_revision(r) && i == r - 1,
                None => !self@.has_revision(r),
            },
    {
        if 1 <= r && r <= self.revisions.len() as u128 {
            Some((r - 1) as usize)
        } else {
            None
        }
    }

    pub(crate) fn editgroup_place(&self, g: u128) -> (p: Option<usize>)
        ensures
            match p {
                Some(i) => self@.has_editgroup(g) && i == g - 1,
                None => !self@.has_editgroup(g),
            },
    {
        if 1 <= g && g <= self.editgroups.len() as u128 {
            Some((g - 1) as usize)
        } else {
            None
        }
    }

    pub(crate) fn editor_place(&self, e: u128) -> (p: Option<usize>)
        ensures
            match p {
                Some(i) => self@.has_editor(e) && i == e - 1,
                None => !self@.has_editor(e),
            },
    {
        if 1 <= e && e <= self.editors.len() as u128 {
            Some((e - 1) as usize)
        } else {
            None
        }
    }

    pub(crate) fn edit_place(&self, e: u128) -> (p: Option<usize>)
        ensures
            match p {
                Some(i) => self@.has_edit(e) && i == e - 1,
                None => !self@.has_edit(e),
            },
    {
        if 1 <= e && e <= self.edits.len() as u128 {
            let i = (e - 1) as usize;
            if self.edits[i].is_some() {
                Some(i)
            } else {
                None
            }
        } else {
            None
        }
    }

    /// Place of the edit of editgroup `g` on identifier `id`, if there is one.
    pub(crate) fn group_edit_place(&self, g: u128, id: u128) -> (p: Option<usize>)
        ensures
            match p {
                Some(k) => self@.group_edit_from(g, id, 0) == Some(k as int) && self@.is_group_edit_at(
                    k as int,
                    g,
                    id,
                ),
                None => self@.group_edit_from(g, id, 0) is None,
            },
            self@.group_edit(g, id) == match p {
                Some(k) => self.edits@[k as int],
                None => None,
            },
    {
        let mut k: usize = 0;
        while k < self.edits.len()
            invariant
                k <= self.edits@.len(),
                self@.group_edit_from(g, id, 0) == self@.group_edit_from(g, id, k as int),
            decreases self.edits@.len() - k,
        {
            match &self.edits[k] {
                Some(e) => {
                    if e.editgroup_id == g && e.ident == id {
                        return Some(k);
                    }
                },
                None => {},
            }
            k += 1;
        }
        None
    }

    /// Number of accepted editgroups, which is the id of the newest changelog entry.
    pub fn changelog_len(&self) -> (n: usize)
        ensures
            n == self@.changelog.len(),
    {
        self.changelog.len()
    }
}

} // verus!

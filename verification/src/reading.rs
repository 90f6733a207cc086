//! Reading the catalog: an entity by its identifier, a revision, an edit,
//! the history of an identifier, and the identifiers that redirect to it.

use vstd::prelude::*;
use crate::catalog::{Catalog, CatalogView};

use crate::errors::{EntityType, ErrorView, FatcatError, Resource};
use crate::flags::HideFlags;
use crate::model::{
    ChangelogRow, copy_ext_ids, copy_ids, copy_opt_ids, copy_opt_text, copy_opt_texts, copy_text,
    ContentView, EditRow, Editgroup, EditgroupView, EntityContent, IdentRow,
};

verus! {

/// A revision as it is handed out: its content, less what was to be hidden,
/// with the identifier row through which it was reached, if it was reached
/// through one.
#[derive(Debug, PartialEq, Eq)]
pub struct Entity {
    pub entity_type: EntityType,
    pub ident: Option<IdentRow>,
    pub revision: u128,
    pub content: EntityContent,
}

pub struct EntityView {
    pub entity_type: EntityType,
    pub ident: Option<IdentRow>,
    pub revision: u128,
    pub content: ContentView,
}

impl View for Entity {
    type V = EntityView;

    open spec fn view(&self) -> EntityView {
        EntityView {
            entity_type: self.entity_type,
            ident: self.ident,
            revision: self.revision,
            content: self.content@,
        }
    }
}

/// What an identifier leads to: an entity, nothing any more, or another identifier.
#[derive(Debug, PartialEq, Eq)]
pub enum Found {
    Entity(Entity),
    Deleted,
    Redirect(u128),
}

pub enum FoundView {
    Entity(EntityView),
    Deleted,
    Redirect(u128),
}

impl View for Found {
    type V = FoundView;

    open spec fn view(&self) -> FoundView {
        match *self {
            Found::Entity(e) => FoundView::Entity(e@),
            Found::Deleted => FoundView::Deleted,
            Found::Redirect(t) => FoundView::Redirect(t),
        }
    }
}

/// An edit as it is handed out: the row, and the free-form metadata that came
/// with the content that the edit wrote.
#[derive(Debug, PartialEq, Eq)]
pub struct Edit {
    pub row: EditRow,
    pub extra: Option<String>,
}

pub struct EditView {
    pub row: EditRow,
    pub extra: Option<Seq<char>>,
}

impl View for Edit {
    type V = EditView;

    open spec fn view(&self) -> EditView {
        EditView { row: self.row, extra: crate::model::opt_text_view(self.extra) }
    }
}

/// What reading the edit `e` on an entity of type `t`, with its metadata, gives.
pub open spec fn read_edit_verdict(c: CatalogView, t: EntityType, e: u128) -> Result<
    EditView,
    ErrorView,
> {
    match get_edit_verdict(c, t, e) {
        Err(err) => Err(err),
        Ok(row) => Ok(EditView { row, extra: c.edit_extra(e) }),
    }
}

/// One accepted edit on an identifier, with the editgroup that held it and
/// the id of the changelog entry of its acceptance.
#[derive(Debug, PartialEq, Eq)]
pub struct HistoryEntry {
    pub changelog_id: i64,
    pub editgroup: Editgroup,
    pub edit: EditRow,
}

pub struct HistoryEntryView {
    pub changelog_id: i64,
    pub editgroup: EditgroupView,
    pub edit: EditRow,
}

impl View for HistoryEntry {
    type V = HistoryEntryView;

    open spec fn view(&self) -> HistoryEntryView {
        HistoryEntryView {
            changelog_id: self.changelog_id,
            editgroup: self.editgroup@,
            edit: self.edit,
        }
    }
}

pub open spec fn history_view(v: Seq<HistoryEntry>) -> Seq<HistoryEntryView> {
    Seq::new(v.len(), |i: int| v[i]@)
}

pub open spec fn entities_view(v: Seq<Entity>) -> Seq<EntityView> {
    Seq::new(v.len(), |i: int| v[i]@)
}

/// Content without the sub-resources that are to be hidden.
pub open spec fn hidden(content: ContentView, hide: HideFlags) -> ContentView {
    ContentView {
        abstracts: if hide.abstracts {
            None
        } else {
            content.abstracts
        },
        refs: if hide.refs {
            None
        } else {
            content.refs
        },
        contribs: if hide.contribs {
            None
        } else {
            content.contribs
        },
        ..content
    }
}

/// A copy of content without the sub-resources that are to be hidden.
pub fn project(content: &EntityContent, hide: HideFlags) -> (c: EntityContent)
    ensures
        c@ == hidden(content@, hide),
{
    EntityContent {
        title: copy_text(&content.title),
        ext_ids: copy_ext_ids(&content.ext_ids),
        work_id: content.work_id,
        container_id: content.container_id,
        release_ids: copy_ids(&content.release_ids),
        contribs: if hide.contribs {
            None
        } else {
            copy_opt_ids(&content.contribs)
        },
        refs: if hide.refs {
            None
        } else {
            copy_opt_ids(&content.refs)
        },
        abstracts: if hide.abstracts {
            None
        } else {
            copy_opt_texts(&content.abstracts)
        },
        extra: copy_opt_text(&content.extra),
        edit_extra: copy_opt_text(&content.edit_extra),
    }
}

/// The entity that an identifier row with a revision leads to.
pub open spec fn entity_of(c: CatalogView, row: IdentRow, hide: HideFlags) -> EntityView {
    EntityView {
        entity_type: row.entity_type,
        ident: Some(row),
        revision: row.rev_id->0,
        content: hidden(c.revision(row.rev_id->0).content, hide),
    }
}

/// What reading the identifier `id` as an entity of type `t` gives.
pub open spec fn get_verdict(c: CatalogView, t: EntityType, id: u128, hide: HideFlags) -> Result<
    FoundView,
    ErrorView,
> {
    if !c.has_entity(t, id) {
        Err(ErrorView::NotFound(Resource::Entity(t, id)))
    } else if c.ident(id).redirect_id is Some {
        Ok(FoundView::Redirect(c.ident(id).redirect_id->0))
    } else if c.ident(id).rev_id is None {
        Ok(FoundView::Deleted)
    } else {
        Ok(FoundView::Entity(entity_of(c, c.ident(id), hide)))
    }
}

/// What reading the revision `r` of an entity of type `t` gives.
pub open spec fn get_revision_verdict(
    c: CatalogView,
    t: EntityType,
    r: u128,
    hide: HideFlags,
) -> Result<EntityView, ErrorView> {
    if !c.has_revision_of(t, r) {
        Err(ErrorView::NotFound(Resource::Revision(t, r)))
    } else {
        Ok(
            EntityView {
                entity_type: t,
                ident: None,
                revision: r,
                content: hidden(c.revision(r).content, hide),
            },
        )
    }
}

/// What reading the edit `e` on an entity of type `t` gives.
pub open spec fn get_edit_verdict(c: CatalogView, t: EntityType, e: u128) -> Result<
    EditRow,
    ErrorView,
> {
    if !c.has_edit(e) || c.edit(e).entity_type != t {
        Err(ErrorView::NotFound(Resource::Edit(t, e)))
    } else {
        Ok(c.edit(e))
    }
}

/// The accepted edits on identifier `id` among the first `n` changelog
/// entries, newest first.
pub open spec fn history_upto(c: CatalogView, id: u128, n: int) -> Seq<HistoryEntryView>
    decreases n,
{
    if n <= 0 {
        Seq::empty()
    } else {
        let entry = c.changelog[n - 1];
        let older = history_upto(c, id, n - 1);
        match c.group_edit(entry.editgroup_id, id) {
            Some(e) => seq![
                HistoryEntryView {
                    changelog_id: entry.id,
                    editgroup: c.editgroup(entry.editgroup_id),
                    edit: e,
                },
            ] + older,
            None => older,
        }
    }
}

/// The accepted edits on identifier `id`, newest first.
pub open spec fn history(c: CatalogView, id: u128) -> Seq<HistoryEntryView> {
    history_upto(c, id, c.changelog.len() as int)
}

/// How many entries a limit lets through: all where there is none, none
/// where it is negative.
pub open spec fn limited(len: nat, limit: Option<i64>) -> nat {
    match limit {
        None => len,
        Some(l) => if l <= 0 {
            0
        } else if l < len {
            l as nat
        } else {
            len
        },
    }
}

/// What reading the history of identifier `id` gives.
pub open spec fn history_verdict(c: CatalogView, t: EntityType, id: u128, limit: Option<i64>) -> Result<
    Seq<HistoryEntryView>,
    ErrorView,
> {
    if !c.has_entity(t, id) {
        Err(ErrorView::NotFound(Resource::Entity(t, id)))
    } else {
        Ok(history(c, id).take(limited(history(c, id).len(), limit) as int))
    }
}

/// The live identifiers among the first `n` that redirect to `target`, in
/// the order of the table.
pub open spec fn redirects_upto(idents: Seq<IdentRow>, target: u128, n: int) -> Seq<u128>
    decreases n,
{
    if n <= 0 {
        Seq::empty()
    } else {
        let before = redirects_upto(idents, target, n - 1);
        if idents[n - 1].is_live && idents[n - 1].redirect_id == Some(target) {
            before.push(idents[n - 1].ident)
        } else {
            before
        }
    }
}

/// What asking for the identifiers that redirect to `id` gives.
pub open spec fn redirects_verdict(c: CatalogView, t: EntityType, id: u128) -> Result<
    Seq<u128>,
    ErrorView,
> {
    if !c.has_entity(t, id) {
        Err(ErrorView::NotFound(Resource::Entity(t, id)))
    } else {
        Ok(redirects_upto(c.idents, id, c.idents.len() as int))
    }
}

impl Catalog {
    /// The entity that an identifier row with a revision leads to.
    pub(crate) fn entity_at(&self, place: usize, hide: HideFlags) -> (e: Entity)
        requires
            self.wf(),
            place < self@.idents.len(),
            self@.idents[place as int].rev_id is Some,
        ensures
            e@ == entity_of(self@, self@.idents[place as int], hide),
    {
        let row = self.idents[place];
        let r = row.rev_id.unwrap();
        let p = (r - 1) as usize;
        assert(self@.revisions[p as int] == self.revisions@[p as int]@);
        Entity {
            entity_type: row.entity_type,
            ident: Some(row),
            revision: r,
            content: project(&self.revisions[p].content, hide),
        }
    }

    /// Reads an entity by its identifier.
    pub fn get_entity(&self, t: EntityType, id: u128, hide: HideFlags) -> (r: Result<Found, FatcatError>)
        requires
            self.wf(),
        ensures
            match r {
                Ok(f) => get_verdict(self@, t, id, hide) == Ok::<FoundView, ErrorView>(f@),
                Err(e) => get_verdict(self@, t, id, hide) == Err::<FoundView, ErrorView>(e@),
            },
    {
        let i = match self.ident_place(id) {
            Some(i) => i,
            None => {
                return Err(FatcatError::NotFound(Resource::Entity(t, id)));
            },
        };
        let row = self.idents[i];
        if row.entity_type != t {
            return Err(FatcatError::NotFound(Resource::Entity(t, id)));
        }
        match row.redirect_id {
            Some(target) => Ok(Found::Redirect(target)),
            None => match row.rev_id {
                None => Ok(Found::Deleted),
                Some(_) => Ok(Found::Entity(self.entity_at(i, hide))),
            },
        }
    }

    /// Reads a revision by its id.
    pub fn get_revision(&self, t: EntityType, r: u128, hide: HideFlags) -> (res: Result<
        Entity,
        FatcatError,
    >)
        ensures
            match res {
                Ok(e) => get_revision_verdict(self@, t, r, hide) == Ok::<EntityView, ErrorView>(e@),
                Err(e) => get_revision_verdict(self@, t, r, hide) == Err::<EntityView, ErrorView>(e@),
            },
    {
        let p = match self.revision_place(r) {
            Some(p) => p,
            None => {
                return Err(FatcatError::NotFound(Resource::Revision(t, r)));
            },
        };
        assert(self@.revisions[p as int] == self.revisions@[p as int]@);
        if self.revisions[p].entity_type != t {
            return Err(FatcatError::NotFound(Resource::Revision(t, r)));
        }
        Ok(
            Entity {
                entity_type: t,
                ident: None,
                revision: r,
                content: project(&self.revisions[p].content, hide),
            },
        )
    }

    /// Reads an edit by its id.
    pub fn get_edit(&self, t: EntityType, e: u128) -> (r: Result<EditRow, FatcatError>)
        ensures
            match r {
                Ok(row) => get_edit_verdict(self@, t, e) == Ok::<EditRow, ErrorView>(row),
                Err(err) => get_edit_verdict(self@, t, e) == Err::<EditRow, ErrorView>(err@),
            },
    {
        let k = match self.edit_place(e) {
            Some(k) => k,
            None => {
                return Err(FatcatError::NotFound(Resource::Edit(t, e)));
            },
        };
        let row = self.edits[k].unwrap();
        if row.entity_type != t {
            return Err(FatcatError::NotFound(Resource::Edit(t, e)));
        }
        Ok(row)
    }

    /// Reads an edit by its id, with its metadata.
    pub fn read_edit(&self, t: EntityType, e: u128) -> (r: Result<Edit, FatcatError>)
        requires
            self.wf(),
        ensures
            match r {
                Ok(edit) => read_edit_verdict(self@, t, e) == Ok::<EditView, ErrorView>(edit@),
                Err(err) => read_edit_verdict(self@, t, e) == Err::<EditView, ErrorView>(err@),
            },
    {
        match self.get_edit(t, e) {
            Err(err) => Err(err),
            Ok(row) => {
                let k = (e - 1) as usize;
                Ok(Edit { row, extra: copy_opt_text(&self.edit_extras[k]) })
            },
        }
    }

    /// Reads the accepted edits on an identifier, newest first, at most
    /// `limit` of them where a limit is given.
    pub fn get_history(&self, t: EntityType, id: u128, limit: Option<i64>) -> (r: Result<
        Vec<HistoryEntry>,
        FatcatError,
    >)
        requires
            self.wf(),
        ensures
            match r {
                Ok(h) => history_verdict(self@, t, id, limit) == Ok::<
                    Seq<HistoryEntryView>,
                    ErrorView,
                >(history_view(h@)),
                Err(e) => history_verdict(self@, t, id, limit) == Err::<
                    Seq<HistoryEntryView>,
                    ErrorView,
                >(e@),
            },
    {
        let ghost c = self@;
        match self.ident_place(id) {
            None => {
                return Err(FatcatError::NotFound(Resource::Entity(t, id)));
            },
            Some(i) => {
                if self.idents[i].entity_type != t {
                    return Err(FatcatError::NotFound(Resource::Entity(t, id)));
                }
            },
        }
        let cap: usize = match limit {
            None => usize::MAX,
            Some(l) => if l <= 0 {
                0
            } else if l as u64 > usize::MAX as u64 {
                usize::MAX
            } else {
                l as usize
            },
        };
        let mut out: Vec<HistoryEntry> = Vec::new();
        let mut n: usize = self.changelog.len();
        assert(history_view(out@) + history_upto(c, id, n as int) =~= history(c, id));
        while n > 0 && out.len() < cap
            invariant
                n <= self.changelog@.len(),
                c == self@,
                c.wf(),
                history(c, id) == history_view(out@) + history_upto(c, id, n as int),
                out@.len() + n <= self.changelog@.len(),
                out@.len() <= cap,
            decreases n,
        {
            let entry = self.changelog[n - 1];
            let g = entry.editgroup_id;
            let ghost before = history_view(out@);
            match self.group_edit_place(g, id) {
                None => {},
                Some(k) => {
                    let gp = (g - 1) as usize;
                    assert(c.editgroup(g) == self.editgroups@[gp as int]@);
                    out.push(
                        HistoryEntry {
                            changelog_id: entry.id,
                            editgroup: self.editgroups[gp].copy(),
                            edit: self.edits[k].unwrap(),
                        },
                    );
                    proof {
                        let item = HistoryEntryView {
                            changelog_id: entry.id,
                            editgroup: c.editgroup(g),
                            edit: c.edits[k as int]->0,
                        };
                        assert(history_view(out@) =~= before.push(item));
                        assert(before.push(item) + history_upto(c, id, n - 1) =~= before + (seq![
                            item,
                        ] + history_upto(c, id, n - 1)));
                    }
                },
            }
            n -= 1;
        }
        proof {
            let full = history(c, id);
            let got = history_view(out@);
            let rest = history_upto(c, id, n as int);
            assert(full.len() == got.len() + rest.len());
            if n == 0 {
                assert(rest =~= Seq::empty());
            }
            assert(got =~= full.take(got.len() as int));
        }
        Ok(out)
    }

    /// The live identifiers that redirect to `id`, in the order of their creation.
    pub fn get_redirects(&self, t: EntityType, id: u128) -> (r: Result<Vec<u128>, FatcatError>)
        ensures
            match r {
                Ok(v) => redirects_verdict(self@, t, id) == Ok::<Seq<u128>, ErrorView>(v@),
                Err(e) => redirects_verdict(self@, t, id) == Err::<Seq<u128>, ErrorView>(e@),
            },
    {
        match self.ident_place(id) {
            None => {
                return Err(FatcatError::NotFound(Resource::Entity(t, id)));
            },
            Some(i) => {
                if self.idents[i].entity_type != t {
                    return Err(FatcatError::NotFound(Resource::Entity(t, id)));
                }
            },
        }
        let mut out: Vec<u128> = Vec::new();
        let mut n: usize = 0;
        while n < self.idents.len()
            invariant
                n <= self.idents@.len(),
                out@ == redirects_upto(self@.idents, id, n as int),
            decreases self.idents@.len() - n,
        {
            let row = &self.idents[n];
            if row.is_live && row.redirect_id == Some(id) {
                out.push(row.ident);
            }
            n += 1;
        }
        Ok(out)
    }
}

/// The edits of editgroup `g` among the first `n` edit rows, in the order of the table.
pub open spec fn group_edits_upto(c: CatalogView, g: u128, n: int) -> Seq<EditRow>
    decreases n,
{
    if n <= 0 {
        Seq::empty()
    } else {
        let before = group_edits_upto(c, g, n - 1);
        if c.edits[n - 1] is Some && c.edits[n - 1]->0.editgroup_id == g {
            before.push(c.edits[n - 1]->0)
        } else {
            before
        }
    }
}

/// The edits of editgroup `g`, in the order in which they were first written.
pub open spec fn group_edits(c: CatalogView, g: u128) -> Seq<EditRow> {
    group_edits_upto(c, g, c.edits.len() as int)
}

/// The changelog, newest entry first.
pub open spec fn changelog_newest_first(c: CatalogView) -> Seq<ChangelogRow> {
    Seq::new(c.changelog.len(), |i: int| c.changelog[c.changelog.len() - 1 - i])
}

/// The changelog entries among the first `n` whose editgroup is of
/// `editor`, newest first.
pub open spec fn editor_changelog_upto(c: CatalogView, editor: u128, n: int) -> Seq<ChangelogRow>
    decreases n,
{
    if n <= 0 {
        Seq::empty()
    } else {
        let older = editor_changelog_upto(c, editor, n - 1);
        if c.editgroup(c.changelog[n - 1].editgroup_id).editor_id == editor {
            seq![c.changelog[n - 1]] + older
        } else {
            older
        }
    }
}

impl Catalog {
    /// The edits of an editgroup, in the order in which they were first written.
    pub fn get_group_edits(&self, g: u128) -> (out: Vec<EditRow>)
        ensures
            out@ == group_edits(self@, g),
    {
        let mut out: Vec<EditRow> = Vec::new();
        let mut n: usize = 0;
        while n < self.edits.len()
            invariant
                n <= self.edits@.len(),
                out@ == group_edits_upto(self@, g, n as int),
            decreases self.edits@.len() - n,
        {
            match &self.edits[n] {
                Some(e) => {
                    if e.editgroup_id == g {
                        out.push(*e);
                    }
                },
                None => {},
            }
            n += 1;
        }
        out
    }

    /// The changelog, newest entry first, at most `limit` entries where a
    /// limit is given.
    pub fn get_changelog(&self, limit: Option<i64>) -> (out: Vec<ChangelogRow>)
        ensures
            out@ == changelog_newest_first(self@).take(
                limited(self@.changelog.len(), limit) as int,
            ),
    {
        let total = self.changelog.len();
        let want: usize = match limit {
            None => total,
            Some(l) => if l <= 0 {
                0
            } else if (l as u64) < (total as u64) {
                l as usize
            } else {
                total
            },
        };
        let mut out: Vec<ChangelogRow> = Vec::new();
        let mut i: usize = 0;
        while i < want
            invariant
                i <= want <= total,
                total == self.changelog@.len(),
                out@ == changelog_newest_first(self@).take(i as int),
            decreases want - i,
        {
            out.push(self.changelog[total - 1 - i]);
            assert(out@ =~= changelog_newest_first(self@).take(i + 1));
            i += 1;
        }
        out
    }

    /// One changelog entry.
    pub fn get_changelog_row(&self, id: i64) -> (r: Result<ChangelogRow, FatcatError>)
        requires
            self.wf(),
        ensures
            match r {
                Ok(row) => 1 <= id <= self@.changelog.len() && row == self@.changelog[id - 1],
                Err(e) => !(1 <= id <= self@.changelog.len()) && e@ == ErrorView::NotFound(
                    Resource::ChangelogEntry(id),
                ),
            },
    {
        if 1 <= id && (id as u64) <= (self.changelog.len() as u64) {
            Ok(self.changelog[(id - 1) as usize])
        } else {
            Err(FatcatError::NotFound(Resource::ChangelogEntry(id)))
        }
    }

    /// The changelog entries of the editgroups of an editor, newest first.
    pub fn get_editor_changelog(&self, editor: u128) -> (r: Result<Vec<ChangelogRow>, FatcatError>)
        requires
            self.wf(),
        ensures
            match r {
                Ok(v) => self@.has_editor(editor) && v@ == editor_changelog_upto(
                    self@,
                    editor,
                    self@.changelog.len() as int,
                ),
                Err(e) => !self@.has_editor(editor) && e@ == ErrorView::NotFound(
                    Resource::Editor(editor),
                ),
            },
    {
        let ghost c = self@;
        if self.editor_place(editor).is_none() {
            return Err(FatcatError::NotFound(Resource::Editor(editor)));
        }
        let mut out: Vec<ChangelogRow> = Vec::new();
        let mut n: usize = self.changelog.len();
        assert(out@ + editor_changelog_upto(c, editor, n as int) =~= editor_changelog_upto(
            c,
            editor,
            n as int,
        ));
        while n > 0
            invariant
                n <= self.changelog@.len(),
                c == self@,
                c.wf(),
                editor_changelog_upto(c, editor, c.changelog.len() as int) == out@
                    + editor_changelog_upto(c, editor, n as int),
            decreases n,
        {
            let entry = self.changelog[n - 1];
            let gp = (entry.editgroup_id - 1) as usize;
            assert(c.editgroup(entry.editgroup_id) == self.editgroups@[gp as int]@);
            let ghost before = out@;
            if self.editgroups[gp].editor_id == editor {
                out.push(entry);
                assert(before.push(entry) + editor_changelog_upto(c, editor, n - 1) =~= before + (
                seq![entry] + editor_changelog_upto(c, editor, n - 1)));
            }
            n -= 1;
        }
        assert(out@ + editor_changelog_upto(c, editor, 0) =~= out@);
        Ok(out)
    }
}

} // verus!

//! The rows of the catalog's tables and the content of a revision, each with
//! its mathematical value.

use vstd::prelude::*;
use crate::errors::{EntityType, ExtIdKind};

verus! {

/// One external identifier of a revision.
#[derive(Debug, PartialEq, Eq)]
pub struct ExternalId {
    pub kind: ExtIdKind,
    pub value: String,
}

impl View for ExternalId {
    type V = (ExtIdKind, Seq<char>);

    open spec fn view(&self) -> (ExtIdKind, Seq<char>) {
        (self.kind, self.value@)
    }
}

/// What a revision holds: the fields that a caller supplies and that never
/// change once the revision is written.
#[derive(Debug, PartialEq, Eq)]
pub struct EntityContent {
    /// Title of a release or work, name of a creator or container.
    pub title: String,
    pub ext_ids: Vec<ExternalId>,
    /// The work that a release belongs to.
    pub work_id: Option<u128>,
    /// The container in which a release appeared.
    pub container_id: Option<u128>,
    /// The releases that a file, fileset or web capture holds.
    pub release_ids: Vec<u128>,
    /// The creators that contributed to a release. `None` where left out.
    pub contribs: Option<Vec<u128>>,
    /// The releases that a release cites. `None` where left out.
    pub refs: Option<Vec<u128>>,
    /// The abstracts of a release. `None` where left out.
    pub abstracts: Option<Vec<String>>,
    /// Free-form metadata, never interpreted.
    pub extra: Option<String>,
    /// Free-form metadata of the edit that writes this content. It is kept
    /// with the edit, not in the revision: a revision that is read has none.
    pub edit_extra: Option<String>,
}

/// Mathematical value of an [`EntityContent`].
pub struct ContentView {
    pub title: Seq<char>,
    pub ext_ids: Seq<(ExtIdKind, Seq<char>)>,
    pub work_id: Option<u128>,
    pub container_id: Option<u128>,
    pub release_ids: Seq<u128>,
    pub contribs: Option<Seq<u128>>,
    pub refs: Option<Seq<u128>>,
    pub abstracts: Option<Seq<Seq<char>>>,
    pub extra: Option<Seq<char>>,
    pub edit_extra: Option<Seq<char>>,
}

/// Content as a revision holds it: without the metadata of the edit.
pub open spec fn revision_content(content: ContentView) -> ContentView {
    ContentView { edit_extra: None, ..content }
}

/// The values of a list of external identifiers.
pub open spec fn ext_ids_view(v: Seq<ExternalId>) -> Seq<(ExtIdKind, Seq<char>)> {
    Seq::new(v.len(), |i: int| v[i]@)
}

/// The values of a list of texts.
pub open spec fn texts_view(v: Seq<String>) -> Seq<Seq<char>> {
    Seq::new(v.len(), |i: int| v[i]@)
}

pub open spec fn opt_text_view(s: Option<String>) -> Option<Seq<char>> {
    match s {
        Some(t) => Some(t@),
        None => None,
    }
}

pub open spec fn opt_ids_view(v: Option<Vec<u128>>) -> Option<Seq<u128>> {
    match v {
        Some(w) => Some(w@),
        None => None,
    }
}

pub open spec fn opt_texts_view(v: Option<Vec<String>>) -> Option<Seq<Seq<char>>> {
    match v {
        Some(w) => Some(texts_view(w@)),
        None => None,
    }
}

impl View for EntityContent {
    type V = ContentView;

    open spec fn view(&self) -> ContentView {
        ContentView {
            title: self.title@,
            ext_ids: ext_ids_view(self.ext_ids@),
            work_id: self.work_id,
            container_id: self.container_id,
            release_ids: self.release_ids@,
            contribs: opt_ids_view(self.contribs),
            refs: opt_ids_view(self.refs),
            abstracts: opt_texts_view(self.abstracts),
            extra: opt_text_view(self.extra),
            edit_extra: opt_text_view(self.edit_extra),
        }
    }
}

/// A copy of a text.
pub fn copy_text(s: &String) -> (r: String)
    ensures
        r@ == s@,
{
    s.clone()
}

/// A copy of an optional text.
pub fn copy_opt_text(s: &Option<String>) -> (r: Option<String>)
    ensures
        opt_text_view(r) == opt_text_view(*s),
{
    match s {
        Some(t) => Some(copy_text(t)),
        None => None,
    }
}

/// A copy of a list of ids.
pub fn copy_ids(v: &Vec<u128>) -> (r: Vec<u128>)
    ensures
        r@ == v@,
{
    let mut r: Vec<u128> = Vec::new();
    let mut i: usize = 0;
    while i < v.len()
        invariant
            i <= v@.len(),
            r@ == v@.subrange(0, i as int),
        decreases v@.len() - i,
    {
        r.push(v[i]);
        assert(r@ =~= v@.subrange(0, i + 1));
        i += 1;
    }
    assert(r@ =~= v@);
    r
}

pub fn copy_opt_ids(v: &Option<Vec<u128>>) -> (r: Option<Vec<u128>>)
    ensures
        opt_ids_view(r) == opt_ids_view(*v),
{
    match v {
        Some(w) => Some(copy_ids(w)),
        None => None,
    }
}

/// A copy of a list of texts.
pub fn copy_texts(v: &Vec<String>) -> (r: Vec<String>)
    ensures
        texts_view(r@) == texts_view(v@),
{
    let mut r: Vec<String> = Vec::new();
    let mut i: usize = 0;
    while i < v.len()
        invariant
            i <= v@.len(),
            r@.len() == i,
            forall|j: int| 0 <= j < i ==> (#[trigger] r@[j])@ == v@[j]@,
        decreases v@.len() - i,
    {
        r.push(copy_text(&v[i]));
        i += 1;
    }
    assert(texts_view(r@) =~= texts_view(v@));
    r
}

pub fn copy_opt_texts(v: &Option<Vec<String>>) -> (r: Option<Vec<String>>)
    ensures
        opt_texts_view(r) == opt_texts_view(*v),
{
    match v {
        Some(w) => Some(copy_texts(w)),
        None => None,
    }
}

/// A copy of a list of external identifiers.
pub fn copy_ext_ids(v: &Vec<ExternalId>) -> (r: Vec<ExternalId>)
    ensures
        ext_ids_view(r@) == ext_ids_view(v@),
{
    let mut r: Vec<ExternalId> = Vec::new();
    let mut i: usize = 0;
    while i < v.len()
        invariant
            i <= v@.len(),
            r@.len() == i,
            forall|j: int| 0 <= j < i ==> (#[trigger] r@[j])@ == v@[j]@,
        decreases v@.len() - i,
    {
        r.push(ExternalId { kind: v[i].kind, value: copy_text(&v[i].value) });
        i += 1;
    }
    assert(ext_ids_view(r@) =~= ext_ids_view(v@));
    r
}

/// Whether external identifiers hold one of kind `k` with value `v`.
pub(crate) fn ext_ids_contain(ids: &Vec<ExternalId>, k: ExtIdKind, v: &str) -> (b: bool)
    ensures
        b == ext_ids_view(ids@).contains((k, v@)),
{
    let ghost all = ext_ids_view(ids@);
    let mut i: usize = 0;
    while i < ids.len()
        invariant
            i <= ids@.len(),
            all == ext_ids_view(ids@),
            forall|j: int| 0 <= j < i ==> all[j] != (k, v@),
        decreases ids@.len() - i,
    {
        if ids[i].kind == k && crate::text::text_eq(ids[i].value.as_str(), v) {
            assert(all[i as int] == (k, v@));
            return true;
        }
        i += 1;
    }
    false
}

impl EntityContent {
    /// Content with a title and nothing else.
    pub fn titled(title: &str) -> (c: EntityContent)
        ensures
            c@ == (ContentView {
                title: title@,
                ext_ids: Seq::empty(),
                work_id: None,
                container_id: None,
                release_ids: Seq::empty(),
                contribs: None,
                refs: None,
                abstracts: None,
                extra: None,
                edit_extra: None,
            }),
    {
        let c = EntityContent {
            title: title.to_owned(),
            ext_ids: Vec::new(),
            work_id: None,
            container_id: None,
            release_ids: Vec::new(),
            contribs: None,
            refs: None,
            abstracts: None,
            extra: None,
            edit_extra: None,
        };
        assert(ext_ids_view(c.ext_ids@) =~= Seq::empty());
        c
    }

    /// A copy of this content.
    pub fn copy(&self) -> (c: EntityContent)
        ensures
            c@ == self@,
    {
        EntityContent {
            title: copy_text(&self.title),
            ext_ids: copy_ext_ids(&self.ext_ids),
            work_id: self.work_id,
            container_id: self.container_id,
            release_ids: copy_ids(&self.release_ids),
            contribs: copy_opt_ids(&self.contribs),
            refs: copy_opt_ids(&self.refs),
            abstracts: copy_opt_texts(&self.abstracts),
            extra: copy_opt_text(&self.extra),
            edit_extra: copy_opt_text(&self.edit_extra),
        }
    }

    /// Parts content into what a revision holds and the metadata of the edit.
    pub fn split_extra(self) -> (r: (EntityContent, Option<String>))
        ensures
            r.0@ == revision_content(self@),
            opt_text_view(r.1) == self@.edit_extra,
    {
        (
            EntityContent {
                title: self.title,
                ext_ids: self.ext_ids,
                work_id: self.work_id,
                container_id: self.container_id,
                release_ids: self.release_ids,
                contribs: self.contribs,
                refs: self.refs,
                abstracts: self.abstracts,
                extra: self.extra,
                edit_extra: None,
            },
            self.edit_extra,
        )
    }
}

/// The mutable pointer from an identifier to its current revision, to the
/// identifier it redirects to, or to nothing (deleted).
#[derive(Clone, Copy, Debug, PartialEq, Eq, Structural)]
pub struct IdentRow {
    pub entity_type: EntityType,
    pub ident: u128,
    pub is_live: bool,
    pub rev_id: Option<u128>,
    pub redirect_id: Option<u128>,
}

/// One proposed change to one identifier within one editgroup: if accepted,
/// the identifier points to `rev_id`, or redirects to `redirect_id`, or to
/// nothing. The free-form metadata of an edit is kept beside its row, under
/// the edit's id, and is handed out with it.
#[derive(Clone, Copy, Debug, PartialEq, Eq, Structural)]
pub struct EditRow {
    pub edit_id: u128,
    pub editgroup_id: u128,
    pub entity_type: EntityType,
    pub ident: u128,
    pub rev_id: Option<u128>,
    pub redirect_id: Option<u128>,
    /// The revision that the identifier had when the edit was made.
    pub prev_rev: Option<u128>,
}

/// One accepted editgroup in the global order of acceptance.
#[derive(Clone, Copy, Debug, PartialEq, Eq, Structural)]
pub struct ChangelogRow {
    pub id: i64,
    pub editgroup_id: u128,
    pub timestamp: i64,
}

/// An immutable snapshot of an entity's fields.
#[derive(Debug, PartialEq, Eq)]
pub struct RevisionRow {
    pub rev_id: u128,
    pub entity_type: EntityType,
    pub content: EntityContent,
}

pub struct RevisionView {
    pub rev_id: u128,
    pub entity_type: EntityType,
    pub content: ContentView,
}

impl View for RevisionRow {
    type V = RevisionView;

    open spec fn view(&self) -> RevisionView {
        RevisionView { rev_id: self.rev_id, entity_type: self.entity_type, content: self.content@ }
    }
}

/// A batch of proposed edits, reviewed and accepted together.
#[derive(Debug, PartialEq, Eq)]
pub struct Editgroup {
    pub editgroup_id: u128,
    pub editor_id: u128,
    pub created_at: i64,
    pub submitted_at: Option<i64>,
    /// Set when the editgroup is accepted, and never changed after.
    pub changelog_id: Option<i64>,
    pub description: Option<String>,
    pub extra: Option<String>,
}

pub struct EditgroupView {
    pub editgroup_id: u128,
    pub editor_id: u128,
    pub created_at: i64,
    pub submitted_at: Option<i64>,
    pub changelog_id: Option<i64>,
    pub description: Option<Seq<char>>,
    pub extra: Option<Seq<char>>,
}

impl View for Editgroup {
    type V = EditgroupView;

    open spec fn view(&self) -> EditgroupView {
        EditgroupView {
            editgroup_id: self.editgroup_id,
            editor_id: self.editor_id,
            created_at: self.created_at,
            submitted_at: self.submitted_at,
            changelog_id: self.changelog_id,
            description: opt_text_view(self.description),
            extra: opt_text_view(self.extra),
        }
    }
}

impl Editgroup {
    pub fn copy(&self) -> (c: Editgroup)
        ensures
            c@ == self@,
    {
        Editgroup {
            editgroup_id: self.editgroup_id,
            editor_id: self.editor_id,
            created_at: self.created_at,
            submitted_at: self.submitted_at,
            changelog_id: self.changelog_id,
            description: copy_opt_text(&self.description),
            extra: copy_opt_text(&self.extra),
        }
    }
}

/// A contributor account.
#[derive(Debug, PartialEq, Eq)]
pub struct Editor {
    pub editor_id: u128,
    pub username: String,
    pub is_admin: bool,
    pub is_bot: bool,
    pub is_superuser: bool,
    /// Tokens issued before this time are no longer accepted.
    pub auth_epoch: i64,
    pub wrangler_id: Option<u128>,
}

pub struct EditorView {
    pub editor_id: u128,
    pub username: Seq<char>,
    pub is_admin: bool,
    pub is_bot: bool,
    pub is_superuser: bool,
    pub auth_epoch: i64,
    pub wrangler_id: Option<u128>,
}

impl View for Editor {
    type V = EditorView;

    open spec fn view(&self) -> EditorView {
        EditorView {
            editor_id: self.editor_id,
            username: self.username@,
            is_admin: self.is_admin,
            is_bot: self.is_bot,
            is_superuser: self.is_superuser,
            auth_epoch: self.auth_epoch,
            wrangler_id: self.wrangler_id,
        }
    }
}

impl Editor {
    pub fn copy(&self) -> (c: Editor)
        ensures
            c@ == self@,
    {
        Editor {
            editor_id: self.editor_id,
            username: copy_text(&self.username),
            is_admin: self.is_admin,
            is_bot: self.is_bot,
            is_superuser: self.is_superuser,
            auth_epoch: self.auth_epoch,
            wrangler_id: self.wrangler_id,
        }
    }
}

/// The link between an account of an identity provider and an editor.
#[derive(Debug, PartialEq, Eq)]
pub struct OidcLink {
    pub provider: String,
    pub sub: String,
    pub iss: String,
    pub editor_id: u128,
}

pub struct OidcLinkView {
    pub provider: Seq<char>,
    pub sub: Seq<char>,
    pub iss: Seq<char>,
    pub editor_id: u128,
}

impl View for OidcLink {
    type V = OidcLinkView;

    open spec fn view(&self) -> OidcLinkView {
        OidcLinkView {
            provider: self.provider@,
            sub: self.sub@,
            iss: self.iss@,
            editor_id: self.editor_id,
        }
    }
}

} // verus!

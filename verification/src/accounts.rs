//! Editors and editgroups: the accounts that edit and the batches in which
//! their edits are gathered.

use vstd::prelude::*;
use vstd::string::*;
use crate::catalog::{has_accepted_edit, is_accepted_edit_at, Catalog, CatalogView};
use crate::errors::{ErrorView, FatcatError, Resource};
use crate::model::{
    copy_opt_text, opt_text_view, EditRow, Editgroup, EditgroupView, Editor, EditorView, OidcLink,
    OidcLinkView,
};
use crate::text::text_eq;

verus! {

impl CatalogView {
    /// Some editor has the username `name`.
    pub open spec fn username_taken(self, name: Seq<char>) -> bool {
        exists|i: int| 0 <= i < self.editors.len() && (#[trigger] self.editors[i]).username == name
    }

    /// The catalog with one more editor.
    pub open spec fn with_editor(self, e: EditorView) -> CatalogView {
        CatalogView { editors: self.editors.push(e), ..self }
    }

    /// The catalog with one more editgroup.
    pub open spec fn with_editgroup(self, g: EditgroupView) -> CatalogView {
        CatalogView { editgroups: self.editgroups.push(g), ..self }
    }

    /// The catalog with the row of editor `id` replaced.
    pub open spec fn with_editor_row(self, id: u128, e: EditorView) -> CatalogView {
        CatalogView { editors: self.editors.update(id - 1, e), ..self }
    }
}

/// The text of an error raised where a username is already in use.
pub open spec fn username_taken_text() -> Seq<char> {
    "username is already taken"@
}

impl Catalog {
    /// Place of the editor whose username is `name`, if there is one.
    pub(crate) fn username_place(&self, name: &str) -> (r: Option<usize>)
        ensures
            match r {
                Some(i) => i < self@.editors.len() && self@.editors[i as int].username == name@,
                None => !self@.username_taken(name@),
            },
    {
        let mut i: usize = 0;
        while i < self.editors.len()
            invariant
                i <= self.editors@.len(),
                forall|j: int| 0 <= j < i ==> (#[trigger] self@.editors[j]).username != name@,
            decreases self.editors@.len() - i,
        {
            if crate::text::text_eq(self.editors[i].username.as_str(), name) {
                assert(self@.editors[i as int] == self.editors@[i as int]@);
                return Some(i);
            }
            assert(self@.editors[i as int] == self.editors@[i as int]@);
            i += 1;
        }
        None
    }

    /// Creates an editor. Fails where the username is in use.
    pub fn create_editor(
        &mut self,
        username: &str,
        is_admin: bool,
        is_bot: bool,
        is_superuser: bool,
        now: i64,
    ) -> (r: Result<u128, FatcatError>)
        requires
            old(self).wf(),
        ensures
            final(self).wf(),
            match r {
                Ok(id) => {
                    &&& !old(self)@.username_taken(username@)
                    &&& id == old(self)@.editors.len() + 1
                    &&& final(self)@ == old(self)@.with_editor(
                        EditorView {
                            editor_id: id,
                            username: username@,
                            is_admin,
                            is_bot,
                            is_superuser,
                            auth_epoch: now,
                            wrangler_id: None,
                        },
                    )
                },
                Err(e) => {
                    &&& old(self)@.username_taken(username@)
                    &&& final(self)@ == old(self)@
                    &&& e@ == ErrorView::DatabaseError(username_taken_text())
                },
            },
    {
        if self.username_place(username).is_some() {
            return Err(FatcatError::DatabaseError(String::from_str("username is already taken")));
        }
        let id: u128 = self.editors.len() as u128 + 1;
        let e = Editor {
            editor_id: id,
            username: username.to_owned(),
            is_admin,
            is_bot,
            is_superuser,
            auth_epoch: now,
            wrangler_id: None,
        };
        let ghost ev = e@;
        self.editors.push(e);
        proof {
            assert(self@ =~= old(self)@.with_editor(ev));
            lemma_with_editor_wf(old(self)@, ev);
            self.lemma_sizes_ok();
        }
        Ok(id)
    }

    /// The row of an editor.
    pub fn get_editor(&self, id: u128) -> (r: Result<Editor, FatcatError>)
        ensures
            match r {
                Ok(e) => self@.has_editor(id) && e@ == self@.editor(id),
                Err(e) => !self@.has_editor(id) && e@ == ErrorView::NotFound(Resource::Editor(id)),
            },
    {
        match self.editor_place(id) {
            Some(i) => Ok(self.editors[i].copy()),
            None => Err(FatcatError::NotFound(Resource::Editor(id))),
        }
    }

    /// Gives an editor a new username. Fails where the editor does not exist,
    /// and where another editor has the username.
    pub fn update_editor_username(&mut self, id: u128, username: &str) -> (r: Result<
        Editor,
        FatcatError,
    >)
        requires
            old(self).wf(),
        ensures
            final(self).wf(),
            match r {
                Ok(e) => {
                    &&& old(self)@.has_editor(id)
                    &&& e@ == (EditorView { username: username@, ..old(self)@.editor(id) })
                    &&& final(self)@ == old(self)@.with_editor_row(id, e@)
                },
                Err(e) => {
                    &&& final(self)@ == old(self)@
                    &&& if !old(self)@.has_editor(id) {
                        e@ == ErrorView::NotFound(Resource::Editor(id))
                    } else {
                        e@ == ErrorView::DatabaseError(username_taken_text())
                    }
                },
            },
            r is Err <==> (!old(self)@.has_editor(id) || (old(self)@.username_taken(username@)
                && old(self)@.editor(id).username != username@)),
    {
        let i = match self.editor_place(id) {
            Some(i) => i,
            None => {
                return Err(FatcatError::NotFound(Resource::Editor(id)));
            },
        };
        assert(self@.editors[i as int] == self.editors@[i as int]@);
        match self.username_place(username) {
            Some(j) => {
                if j != i {
                    return Err(
                        FatcatError::DatabaseError(String::from_str("username is already taken")),
                    );
                }
            },
            None => {},
        }
        let cur = &self.editors[i];
        let e = Editor {
            editor_id: cur.editor_id,
            username: username.to_owned(),
            is_admin: cur.is_admin,
            is_bot: cur.is_bot,
            is_superuser: cur.is_superuser,
            auth_epoch: cur.auth_epoch,
            wrangler_id: cur.wrangler_id,
        };
        let out = e.copy();
        let ghost ev = e@;
        self.editors.set(i, e);
        proof {
            assert(self@ =~= old(self)@.with_editor_row(id, ev));
            lemma_with_editor_row_wf(old(self)@, id, ev);
            self.lemma_sizes_ok();
        }
        Ok(out)
    }

    /// Revokes every token of an editor that was issued before `now`.
    pub fn revoke_tokens(&mut self, id: u128, now: i64) -> (r: Result<(), FatcatError>)
        requires
            old(self).wf(),
        ensures
            final(self).wf(),
            match r {
                Ok(_) => old(self)@.has_editor(id) && final(self)@ == old(self)@.with_editor_row(
                    id,
                    EditorView { auth_epoch: now, ..old(self)@.editor(id) },
                ),
                Err(e) => !old(self)@.has_editor(id) && final(self)@ == old(self)@ && e@
                    == ErrorView::NotFound(Resource::Editor(id)),
            },
    {
        let i = match self.editor_place(id) {
            Some(i) => i,
            None => {
                return Err(FatcatError::NotFound(Resource::Editor(id)));
            },
        };
        assert(self@.editors[i as int] == self.editors@[i as int]@);
        let mut e = self.editors[i].copy();
        e.auth_epoch = now;
        let ghost ev = e@;
        self.editors.set(i, e);
        proof {
            assert(self@ =~= old(self)@.with_editor_row(id, ev));
            lemma_with_editor_row_wf(old(self)@, id, ev);
            self.lemma_sizes_ok();
        }
        Ok(())
    }

    /// Opens an editgroup for an editor.
    pub fn create_editgroup(
        &mut self,
        editor_id: u128,
        description: &Option<String>,
        extra: &Option<String>,
        now: i64,
    ) -> (r: Result<Editgroup, FatcatError>)
        requires
            old(self).wf(),
        ensures
            final(self).wf(),
            match r {
                Ok(g) => {
                    &&& old(self)@.has_editor(editor_id)
                    &&& g@ == (EditgroupView {
                        editgroup_id: (old(self)@.editgroups.len() + 1) as u128,
                        editor_id,
                        created_at: now,
                        submitted_at: None,
                        changelog_id: None,
                        description: opt_text_view(*description),
                        extra: opt_text_view(*extra),
                    })
                    &&& final(self)@ == old(self)@.with_editgroup(g@)
                },
                Err(e) => {
                    &&& !old(self)@.has_editor(editor_id)
                    &&& final(self)@ == old(self)@
                    &&& e@ == ErrorView::NotFound(Resource::Editor(editor_id))
                },
            },
    {
        if self.editor_place(editor_id).is_none() {
            return Err(FatcatError::NotFound(Resource::Editor(editor_id)));
        }
        let g = Editgroup {
            editgroup_id: self.editgroups.len() as u128 + 1,
            editor_id,
            created_at: now,
            submitted_at: None,
            changelog_id: None,
            description: copy_opt_text(description),
            extra: copy_opt_text(extra),
        };
        let out = g.copy();
        let ghost gv = g@;
        self.editgroups.push(g);
        proof {
            assert(self@ =~= old(self)@.with_editgroup(gv));
            lemma_with_editgroup_wf(old(self)@, gv);
            self.lemma_sizes_ok();
        }
        Ok(out)
    }

    /// The row of an editgroup.
    pub fn get_editgroup(&self, g: u128) -> (r: Result<Editgroup, FatcatError>)
        ensures
            match r {
                Ok(e) => self@.has_editgroup(g) && e@ == self@.editgroup(g),
                Err(e) => !self@.has_editgroup(g) && e@ == ErrorView::NotFound(Resource::Editgroup(g)),
            },
    {
        match self.editgroup_place(g) {
            Some(i) => Ok(self.editgroups[i].copy()),
            None => Err(FatcatError::NotFound(Resource::Editgroup(g))),
        }
    }

    /// Marks an open editgroup as submitted for review. This is a marker
    /// only: the editgroup stays open and takes further edits.
    pub fn submit_editgroup(&mut self, g: u128, now: i64) -> (r: Result<(), FatcatError>)
        requires
            old(self).wf(),
        ensures
            final(self).wf(),
            match r {
                Ok(_) => old(self)@.is_open(g) && final(self)@ == (CatalogView {
                    editgroups: old(self)@.editgroups.update(
                        g - 1,
                        EditgroupView { submitted_at: Some(now), ..old(self)@.editgroup(g) },
                    ),
                    ..old(self)@
                }),
                Err(e) => !old(self)@.is_open(g) && final(self)@ == old(self)@ && (if !old(
                    self,
                )@.has_editgroup(g) {
                    e@ == ErrorView::NotFound(Resource::Editgroup(g))
                } else {
                    e@ == ErrorView::EditgroupAlreadyAccepted
                }),
            },
    {
        let i = match self.editgroup_place(g) {
            Some(i) => i,
            None => {
                return Err(FatcatError::NotFound(Resource::Editgroup(g)));
            },
        };
        assert(self@.editgroups[i as int] == self.editgroups@[i as int]@);
        if self.editgroups[i].changelog_id.is_some() {
            return Err(FatcatError::EditgroupAlreadyAccepted);
        }
        let mut eg = self.editgroups[i].copy();
        eg.submitted_at = Some(now);
        let ghost gv = eg@;
        self.editgroups.set(i, eg);
        proof {
            let post = CatalogView { editgroups: old(self)@.editgroups.update(g - 1, gv), ..old(self)@ };
            assert(self@ =~= post);
            lemma_submitted_wf(old(self)@, g, now);
            self.lemma_sizes_ok();
        }
        Ok(())
    }
}

pub proof fn lemma_with_editor_wf(c: CatalogView, e: EditorView)
    requires
        c.wf(),
        e.editor_id == c.editors.len() + 1,
        !c.username_taken(e.username),
    ensures
        c.with_editor(e).consistent(),
{
    let d = c.with_editor(e);
    assert forall|i: int, j: int| 0 <= i < j < d.editors.len() implies (#[trigger] d.editors[i]).username
        != (#[trigger] d.editors[j]).username by {
        if j == c.editors.len() {
            assert(c.editors[i].username != e.username);
        }
    }
}

pub proof fn lemma_with_editor_row_wf(c: CatalogView, id: u128, e: EditorView)
    requires
        c.wf(),
        c.has_editor(id),
        e.editor_id == id,
        forall|i: int|
            0 <= i < c.editors.len() && i != id - 1 ==> (#[trigger] c.editors[i]).username
                != e.username,
    ensures
        c.with_editor_row(id, e).consistent(),
{
    let d = c.with_editor_row(id, e);
    assert forall|i: int, j: int| 0 <= i < j < d.editors.len() implies (#[trigger] d.editors[i]).username
        != (#[trigger] d.editors[j]).username by {
        assert(c.editors[i].username != c.editors[j].username);
    }
}

pub proof fn lemma_with_editgroup_wf(c: CatalogView, g: EditgroupView)
    requires
        c.wf(),
        g.editgroup_id == c.editgroups.len() + 1,
        c.has_editor(g.editor_id),
        g.changelog_id is None,
    ensures
        c.with_editgroup(g).consistent(),
{
    let d = c.with_editgroup(g);
    assert forall|k: int, id: int|
        is_accepted_edit_at(d.edits, d.editgroups, k, id) == is_accepted_edit_at(
            c.edits,
            c.editgroups,
            k,
            id,
        ) by {}
    assert forall|i: int| 0 <= i < d.idents.len() implies ((#[trigger] d.idents[i]).is_live
        <==> has_accepted_edit(d.edits, d.editgroups, i + 1)) by {
        lemma_accepted_edit_same(c.edits, c.editgroups, d.edits, d.editgroups, i + 1);
    }
}

/// Where two states agree on which edits are accepted, they agree on which
/// identifiers have one.
pub proof fn lemma_accepted_edit_same(
    e1: Seq<Option<EditRow>>,
    g1: Seq<EditgroupView>,
    e2: Seq<Option<EditRow>>,
    g2: Seq<EditgroupView>,
    id: int,
)
    requires
        forall|k: int|
            #[trigger] is_accepted_edit_at(e1, g1, k, id) == is_accepted_edit_at(e2, g2, k, id),
    ensures
        has_accepted_edit(e1, g1, id) == has_accepted_edit(e2, g2, id),
{
    if has_accepted_edit(e1, g1, id) {
        let k = choose|k: int| #[trigger] is_accepted_edit_at(e1, g1, k, id);
        assert(is_accepted_edit_at(e2, g2, k, id));
    }
    if has_accepted_edit(e2, g2, id) {
        let k = choose|k: int| #[trigger] is_accepted_edit_at(e2, g2, k, id);
        assert(is_accepted_edit_at(e1, g1, k, id));
    }
}

pub proof fn lemma_submitted_wf(c: CatalogView, g: u128, now: i64)
    requires
        c.wf(),
        c.is_open(g),
    ensures
        (CatalogView {
            editgroups: c.editgroups.update(
                g - 1,
                EditgroupView { submitted_at: Some(now), ..c.editgroup(g) },
            ),
            ..c
        }).consistent(),
{
    let d = CatalogView {
        editgroups: c.editgroups.update(g - 1, EditgroupView { submitted_at: Some(now), ..c.editgroup(g) }),
        ..c
    };
    assert forall|k: int, id: int|
        is_accepted_edit_at(d.edits, d.editgroups, k, id) == is_accepted_edit_at(
            c.edits,
            c.editgroups,
            k,
            id,
        ) by {}
    assert forall|i: int| 0 <= i < d.idents.len() implies ((#[trigger] d.idents[i]).is_live
        <==> has_accepted_edit(d.edits, d.editgroups, i + 1)) by {
        lemma_accepted_edit_same(c.edits, c.editgroups, d.edits, d.editgroups, i + 1);
    }
}


/// The length of the longest username among the first `n` editors.
pub open spec fn longest_username(editors: Seq<EditorView>, n: int) -> nat
    decreases n,
{
    if n <= 0 {
        0
    } else {
        let before = longest_username(editors, n - 1);
        if editors[n - 1].username.len() > before {
            editors[n - 1].username.len()
        } else {
            before
        }
    }
}

/// A text of `n` underscores.
pub open spec fn underscores(n: nat) -> Seq<char> {
    Seq::new(n, |i: int| '_')
}

pub open spec fn username_too_long_text() -> Seq<char> {
    "username is too long"@
}

impl CatalogView {
    /// The link at place `i` is that of the account `sub` of `provider`.
    pub open spec fn is_oidc_link_at(self, provider: Seq<char>, sub: Seq<char>, i: int) -> bool {
        0 <= i < self.oidc.len() && self.oidc[i].provider == provider && self.oidc[i].sub == sub
    }

    /// The account `sub` of `provider` is linked to an editor.
    pub open spec fn has_oidc_link(self, provider: Seq<char>, sub: Seq<char>) -> bool {
        exists|i: int| #[trigger] self.is_oidc_link_at(provider, sub, i)
    }

    /// The editor that the account `sub` of `provider` is linked to.
    pub open spec fn oidc_editor(self, provider: Seq<char>, sub: Seq<char>) -> u128 {
        self.oidc[choose|i: int| #[trigger] self.is_oidc_link_at(provider, sub, i)].editor_id
    }

    /// A username that no editor has, made from `base`: `base` itself where
    /// it is free, else `base` with underscores up to one character more
    /// than the longest username that there is.
    pub open spec fn free_username(self, base: Seq<char>) -> Seq<char> {
        if !self.username_taken(base) {
            base
        } else {
            base + underscores(
                (longest_username(self.editors, self.editors.len() as int) + 1 - base.len()) as nat,
            )
        }
    }

    /// The catalog with one more identity link.
    pub open spec fn with_oidc(self, l: OidcLinkView) -> CatalogView {
        CatalogView { oidc: self.oidc.push(l), ..self }
    }
}

/// No username is longer than the longest.
pub proof fn lemma_longest_username(editors: Seq<EditorView>, n: int, i: int)
    requires
        0 <= i < n <= editors.len(),
    ensures
        editors[i].username.len() <= longest_username(editors, n),
    decreases n,
{
    if i < n - 1 {
        lemma_longest_username(editors, n - 1, i);
    }
}

/// The username made from a base is free.
pub proof fn lemma_free_username(c: CatalogView, base: Seq<char>)
    ensures
        !c.username_taken(c.free_username(base)),
{
    if c.username_taken(base) {
        let name = c.free_username(base);
        let j = choose|j: int| 0 <= j < c.editors.len() && (#[trigger] c.editors[j]).username == base;
        lemma_longest_username(c.editors, c.editors.len() as int, j);
        assert forall|i: int| 0 <= i < c.editors.len() implies (#[trigger] c.editors[i]).username
            != name by {
            lemma_longest_username(c.editors, c.editors.len() as int, i);
        }
    }
}

pub proof fn lemma_with_oidc_wf(c: CatalogView, l: OidcLinkView)
    requires
        c.wf(),
        c.has_editor(l.editor_id),
        !c.has_oidc_link(l.provider, l.sub),
    ensures
        c.with_oidc(l).consistent(),
{
    let d = c.with_oidc(l);
    assert forall|i: int, j: int| 0 <= i < j < d.oidc.len() implies !((#[trigger] d.oidc[i]).provider
        == (#[trigger] d.oidc[j]).provider && d.oidc[i].sub == d.oidc[j].sub) by {
        if j == c.oidc.len() {
            assert(!c.is_oidc_link_at(l.provider, l.sub, i));
        }
    }
}

impl Catalog {
    /// Place of the identity link of the account `sub` of `provider`.
    fn oidc_place(&self, provider: &str, sub: &str) -> (r: Option<usize>)
        requires
            self.wf(),
        ensures
            match r {
                Some(i) => self@.is_oidc_link_at(provider@, sub@, i as int) && self@.oidc_editor(
                    provider@,
                    sub@,
                ) == self@.oidc[i as int].editor_id && self@.has_oidc_link(provider@, sub@),
                None => !self@.has_oidc_link(provider@, sub@),
            },
    {
        let mut i: usize = 0;
        while i < self.oidc.len()
            invariant
                i <= self.oidc@.len(),
                self.wf(),
                forall|j: int| 0 <= j < i ==> !self@.is_oidc_link_at(provider@, sub@, j),
            decreases self.oidc@.len() - i,
        {
            assert(self@.oidc[i as int] == self.oidc@[i as int]@);
            if text_eq(self.oidc[i].provider.as_str(), provider) && text_eq(
                self.oidc[i].sub.as_str(),
                sub,
            ) {
                proof {
                    let c = self@;
                    assert(c.is_oidc_link_at(provider@, sub@, i as int));
                    let j = choose|j: int| #[trigger] c.is_oidc_link_at(provider@, sub@, j);
                    if j != i {
                        assert(c.oidc[j].provider == c.oidc[i as int].provider);
                    }
                }
                return Some(i);
            }
            i += 1;
        }
        None
    }

    /// A username that no editor has, made from `base`.
    fn make_free_username(&self, base: &str) -> (r: Result<String, FatcatError>)
        requires
            self.wf(),
        ensures
            match r {
                Ok(name) => name@ == self@.free_username(base@) && !(self@.username_taken(base@)
                    && longest_username(self@.editors, self@.editors.len() as int) >= usize::MAX),
                Err(e) => self@.username_taken(base@) && longest_username(
                    self@.editors,
                    self@.editors.len() as int,
                ) >= usize::MAX && e@ == ErrorView::InternalError(username_too_long_text()),
            },
    {
        if self.username_place(base).is_none() {
            return Ok(base.to_owned());
        }
        let mut longest: usize = 0;
        let mut i: usize = 0;
        while i < self.editors.len()
            invariant
                i <= self.editors@.len(),
                longest == longest_username(self@.editors, i as int),
            decreases self.editors@.len() - i,
        {
            assert(self@.editors[i as int] == self.editors@[i as int]@);
            let n = self.editors[i].username.as_str().unicode_len();
            if n > longest {
                longest = n;
            }
            i += 1;
        }
        if longest == usize::MAX {
            return Err(FatcatError::InternalError(String::from_str("username is too long")));
        }
        let have = base.unicode_len();
        proof {
            let j = choose|j: int|
                0 <= j < self@.editors.len() && (#[trigger] self@.editors[j]).username == base@;
            lemma_longest_username(self@.editors, self@.editors.len() as int, j);
        }
        let pad: usize = longest + 1 - have;
        let mut name = base.to_owned();
        let mut k: usize = 0;
        while k < pad
            invariant
                k <= pad,
                name@ == base@ + underscores(k as nat),
            decreases pad - k,
        {
            proof {
                reveal_strlit("_");
            }
            name.append("_");
            assert(name@ =~= base@ + underscores((k + 1) as nat));
            k += 1;
        }
        Ok(name)
    }

    /// Signs an account of an identity provider in. Where the account is
    /// linked to an editor, that editor is returned, with `false`. Where it
    /// is not, an editor is created with a free username made from
    /// `preferred_username`, the account is linked to it, and it is
    /// returned, with `true`.
    pub fn auth_oidc(&mut self, provider: &str, sub: &str, iss: &str, preferred_username: &str, now: i64) -> (r:
        Result<(Editor, bool), FatcatError>)
        requires
            old(self).wf(),
        ensures
            final(self).wf(),
            match r {
                Ok((e, created)) => {
                    &&& created == !old(self)@.has_oidc_link(provider@, sub@)
                    &&& if created {
                        &&& !(old(self)@.username_taken(preferred_username@) && longest_username(
                            old(self)@.editors,
                            old(self)@.editors.len() as int,
                        ) >= usize::MAX)
                        &&& e@ == (EditorView {
                            editor_id: (old(self)@.editors.len() + 1) as u128,
                            username: old(self)@.free_username(preferred_username@),
                            is_admin: false,
                            is_bot: false,
                            is_superuser: false,
                            auth_epoch: now,
                            wrangler_id: None,
                        })
                        &&& final(self)@ == old(self)@.with_editor(e@).with_oidc(
                            OidcLinkView {
                                provider: provider@,
                                sub: sub@,
                                iss: iss@,
                                editor_id: e.editor_id,
                            },
                        )
                    } else {
                        &&& old(self)@.has_editor(old(self)@.oidc_editor(provider@, sub@))
                        &&& e@ == old(self)@.editor(old(self)@.oidc_editor(provider@, sub@))
                        &&& final(self)@ == old(self)@
                    }
                },
                Err(e) => {
                    &&& final(self)@ == old(self)@
                    &&& !old(self)@.has_oidc_link(provider@, sub@)
                    &&& old(self)@.username_taken(preferred_username@)
                    &&& longest_username(old(self)@.editors, old(self)@.editors.len() as int)
                        >= usize::MAX
                    &&& e@ == ErrorView::InternalError(username_too_long_text())
                },
            },
    {
        match self.oidc_place(provider, sub) {
            Some(i) => {
                assert(self@.oidc[i as int] == self.oidc@[i as int]@);
                let id = self.oidc[i].editor_id;
                let p = (id - 1) as usize;
                assert(self@.editors[p as int] == self.editors@[p as int]@);
                return Ok((self.editors[p].copy(), false));
            },
            None => {},
        }
        let name = match self.make_free_username(preferred_username) {
            Err(e) => {
                return Err(e);
            },
            Ok(n) => n,
        };
        proof {
            lemma_free_username(self@, preferred_username@);
            self.lemma_sizes_ok();
        }
        let id: u128 = self.editors.len() as u128 + 1;
        let e = Editor {
            editor_id: id,
            username: name,
            is_admin: false,
            is_bot: false,
            is_superuser: false,
            auth_epoch: now,
            wrangler_id: None,
        };
        let out = e.copy();
        let ghost ev = e@;
        let link = OidcLink {
            provider: provider.to_owned(),
            sub: sub.to_owned(),
            iss: iss.to_owned(),
            editor_id: id,
        };
        let ghost lv = link@;
        self.editors.push(e);
        proof {
            assert(self@ =~= old(self)@.with_editor(ev));
            lemma_with_editor_wf(old(self)@, ev);
            self.lemma_sizes_ok();
            assert forall|i: int| !self@.is_oidc_link_at(provider@, sub@, i) by {
                assert(!old(self)@.is_oidc_link_at(provider@, sub@, i));
            }
        }
        let ghost mid = self@;
        self.oidc.push(link);
        proof {
            assert(self@ =~= mid.with_oidc(lv));
            lemma_with_oidc_wf(mid, lv);
            self.lemma_sizes_ok();
        }
        Ok((out, true))
    }
}

} // verus!

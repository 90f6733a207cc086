//! Finding entities by an external identifier, and by the entities that
//! they refer to.
//!
//! A lookup finds the live entity whose revision holds the external
//! identifier. An identifier that redirects is found by the external
//! identifiers that it held when it was redirected, and leads to the entity
//! that it redirects to: one hop, never more, since redirects do not chain.

use vstd::prelude::*;
use vstd::string::*;
use crate::catalog::{edit_ok, holds_ext_id, is_accepted_edit_at, Catalog, CatalogView};
use crate::editing::kind_misplaced_text;
use crate::errors::{EntityType, ErrorView, ExtIdKind, FatcatError, Resource};
use crate::extids::{ext_id_kind_applies, ext_id_verdict, kind_applies, validate_ext_id};
use crate::flags::HideFlags;
use crate::model::{ext_ids_contain, ContentView, EntityContent, IdentRow};
use crate::reading::{entities_view, entity_of, Entity, EntityView};

verus! {

/// The edit at place `p` is an accepted edit that redirected identifier
/// `id` away from a revision that holds the external identifier `(k, v)`.
pub open spec fn redirected_from(c: CatalogView, id: u128, k: ExtIdKind, v: Seq<char>, p: int) -> bool {
    &&& is_accepted_edit_at(c.edits, c.editgroups, p, id as int)
    &&& c.edits[p]->0.redirect_id is Some
    &&& c.edits[p]->0.prev_rev is Some
    &&& c.has_revision(c.edits[p]->0.prev_rev->0)
    &&& c.revision(c.edits[p]->0.prev_rev->0).content.ext_ids.contains((k, v))
}

/// Identifier `id` held the external identifier `(k, v)` when it was redirected.
pub open spec fn once_held(c: CatalogView, id: u128, k: ExtIdKind, v: Seq<char>) -> bool {
    exists|p: int| #[trigger] redirected_from(c, id, k, v, p)
}

/// The identifier to which a row leads in a lookup of `(k, v)` among the
/// entities of type `t`: itself where its revision holds the external
/// identifier, the identifier that it redirects to where it held it when it
/// was redirected and the target has a revision, and none otherwise.
pub open spec fn lookup_hit(
    c: CatalogView,
    t: EntityType,
    row: IdentRow,
    k: ExtIdKind,
    v: Seq<char>,
) -> Option<u128> {
    if row.entity_type != t || !row.is_live {
        None
    } else if row.rev_id is Some {
        if holds_ext_id(c.revisions, row, k, v) {
            Some(row.ident)
        } else {
            None
        }
    } else if row.redirect_id is Some && once_held(c, row.ident, k, v) && c.has_ident(
        row.redirect_id->0,
    ) && c.ident(row.redirect_id->0).rev_id is Some {
        Some(row.redirect_id->0)
    } else {
        None
    }
}

/// Some row leads to identifier `h` in a lookup of `(k, v)`.
pub open spec fn is_hit(c: CatalogView, t: EntityType, k: ExtIdKind, v: Seq<char>, h: u128) -> bool {
    exists|i: int| 0 <= i < c.idents.len() && lookup_hit(c, t, #[trigger] c.idents[i], k, v) == Some(h)
}

/// Whether `r` is what a lookup of the external identifier `(k, text)` among
/// the entities of type `t` gives. The text is checked and brought into its
/// stored form first. The lookup fails with `NotFound` where no row leads
/// anywhere, and with `MultipleMatches` where rows lead to different
/// identifiers; otherwise it gives the entity that every hit leads to.
pub open spec fn lookup_result(
    c: CatalogView,
    t: EntityType,
    k: ExtIdKind,
    text: Seq<char>,
    hide: HideFlags,
    r: Result<EntityView, ErrorView>,
) -> bool {
    if !kind_applies(t, k) {
        r == Err::<EntityView, ErrorView>(ErrorView::OtherBadRequest(kind_misplaced_text()))
    } else if ext_id_verdict(k, text) is Err {
        r == Err::<EntityView, ErrorView>(ext_id_verdict(k, text)->Err_0)
    } else {
        let v = ext_id_verdict(k, text)->Ok_0;
        if forall|h: u128| !is_hit(c, t, k, v, h) {
            r == Err::<EntityView, ErrorView>(ErrorView::NotFound(Resource::ExternalId(t, k)))
        } else if exists|a: u128, b: u128| is_hit(c, t, k, v, a) && is_hit(c, t, k, v, b) && a != b {
            r == Err::<EntityView, ErrorView>(ErrorView::MultipleMatches)
        } else {
            &&& r is Ok
            &&& r->Ok_0.ident is Some
            &&& is_hit(c, t, k, v, r->Ok_0.ident->0.ident)
            &&& c.has_ident(r->Ok_0.ident->0.ident)
            &&& r->Ok_0 == entity_of(c, c.ident(r->Ok_0.ident->0.ident), hide)
        }
    }
}

/// Whether an entity of type `source` with the given content refers to the
/// entity `id` of type `target`: a file, fileset or web capture to a release
/// that it holds, a release to its work, to its container, and to the
/// creators that contributed to it.
pub open spec fn refers_to(content: ContentView, source: EntityType, target: EntityType, id: u128) -> bool {
    match (source, target) {
        (EntityType::File, EntityType::Release) => content.release_ids.contains(id),
        (EntityType::Fileset, EntityType::Release) => content.release_ids.contains(id),
        (EntityType::Webcapture, EntityType::Release) => content.release_ids.contains(id),
        (EntityType::Release, EntityType::Work) => content.work_id == Some(id),
        (EntityType::Release, EntityType::Container) => content.container_id == Some(id),
        (EntityType::Release, EntityType::Creator) => content.contribs is Some
            && content.contribs->0.contains(id),
        _ => false,
    }
}

/// The row is that of a live entity of type `source` whose revision refers
/// to the entity `id` of type `target`.
pub open spec fn is_referrer(
    c: CatalogView,
    row: IdentRow,
    source: EntityType,
    target: EntityType,
    id: u128,
) -> bool {
    &&& row.entity_type == source
    &&& row.is_live
    &&& row.rev_id is Some
    &&& refers_to(c.revision(row.rev_id->0).content, source, target, id)
}

/// The live entities of type `source` among the first `n` identifiers that
/// refer to the entity `id` of type `target`, in the order of the table.
pub open spec fn referrers_upto(
    c: CatalogView,
    source: EntityType,
    target: EntityType,
    id: u128,
    hide: HideFlags,
    n: int,
) -> Seq<EntityView>
    decreases n,
{
    if n <= 0 {
        Seq::empty()
    } else {
        let before = referrers_upto(c, source, target, id, hide, n - 1);
        if is_referrer(c, c.idents[n - 1], source, target, id) {
            before.push(entity_of(c, c.idents[n - 1], hide))
        } else {
            before
        }
    }
}

/// What asking for the entities of type `source` that refer to the entity
/// `id` of type `target` gives.
pub open spec fn referrers_verdict(
    c: CatalogView,
    source: EntityType,
    target: EntityType,
    id: u128,
    hide: HideFlags,
) -> Result<Seq<EntityView>, ErrorView> {
    if !c.has_entity(target, id) {
        Err(ErrorView::NotFound(Resource::Entity(target, id)))
    } else {
        Ok(referrers_upto(c, source, target, id, hide, c.idents.len() as int))
    }
}

/// Whether a list of ids holds `id`.
fn ids_hold(ids: &Vec<u128>, id: u128) -> (b: bool)
    ensures
        b == ids@.contains(id),
{
    let mut i: usize = 0;
    while i < ids.len()
        invariant
            i <= ids@.len(),
            forall|j: int| 0 <= j < i ==> ids@[j] != id,
        decreases ids@.len() - i,
    {
        if ids[i] == id {
            return true;
        }
        i += 1;
    }
    false
}

/// Whether content refers to an entity; see [`refers_to`].
fn content_refers_to(content: &EntityContent, source: EntityType, target: EntityType, id: u128) -> (b:
    bool)
    ensures
        b == refers_to(content@, source, target, id),
{
    match (source, target) {
        (EntityType::File, EntityType::Release) => ids_hold(&content.release_ids, id),
        (EntityType::Fileset, EntityType::Release) => ids_hold(&content.release_ids, id),
        (EntityType::Webcapture, EntityType::Release) => ids_hold(&content.release_ids, id),
        (EntityType::Release, EntityType::Work) => content.work_id == Some(id),
        (EntityType::Release, EntityType::Container) => content.container_id == Some(id),
        (EntityType::Release, EntityType::Creator) => match &content.contribs {
            Some(v) => ids_hold(v, id),
            None => false,
        },
        _ => false,
    }
}

impl Catalog {
    /// Whether identifier `id` held the external identifier when it was redirected.
    fn held_once(&self, id: u128, k: ExtIdKind, v: &str) -> (b: bool)
        requires
            self.wf(),
        ensures
            b == once_held(self@, id, k, v@),
    {
        let ghost c = self@;
        let mut p: usize = 0;
        while p < self.edits.len()
            invariant
                p <= self.edits@.len(),
                c == self@,
                c.wf(),
                forall|q: int| 0 <= q < p ==> !redirected_from(c, id, k, v@, q),
            decreases self.edits@.len() - p,
        {
            match &self.edits[p] {
                None => {},
                Some(e) => {
                    if e.ident == id && e.redirect_id.is_some() {
                        assert(edit_ok(*e, p as int, c.editgroups.len(), c.idents, c.revisions));
                        let g = (e.editgroup_id - 1) as usize;
                        assert(c.editgroups[g as int] == self.editgroups@[g as int]@);
                        if self.editgroups[g].changelog_id.is_some() {
                            match e.prev_rev {
                                None => {},
                                Some(pr) => match self.revision_place(pr) {
                                    None => {},
                                    Some(rp) => {
                                        assert(c.revisions[rp as int] == self.revisions@[rp as int]@);
                                        if ext_ids_contain(&self.revisions[rp].content.ext_ids, k, v) {
                                            assert(redirected_from(c, id, k, v@, p as int));
                                            return true;
                                        }
                                    },
                                },
                            }
                        }
                    }
                },
            }
            p += 1;
        }
        false
    }

    /// The identifier to which the row at `place` leads in a lookup.
    fn hit_at(&self, t: EntityType, place: usize, k: ExtIdKind, v: &str) -> (r: Option<u128>)
        requires
            self.wf(),
            place < self@.idents.len(),
        ensures
            r == lookup_hit(self@, t, self@.idents[place as int], k, v@),
            r is Some ==> self@.has_ident(r->0) && self@.ident(r->0).rev_id is Some,
    {
        let row = self.idents[place];
        if row.entity_type != t || !row.is_live {
            return None;
        }
        match row.rev_id {
            Some(r) => {
                let rp = (r - 1) as usize;
                assert(self@.revisions[rp as int] == self.revisions@[rp as int]@);
                if ext_ids_contain(&self.revisions[rp].content.ext_ids, k, v) {
                    Some(row.ident)
                } else {
                    None
                }
            },
            None => match row.redirect_id {
                None => None,
                Some(target) => {
                    if !self.held_once(row.ident, k, v) {
                        return None;
                    }
                    match self.ident_place(target) {
                        None => None,
                        Some(tp) => {
                            if self.idents[tp].rev_id.is_some() {
                                Some(target)
                            } else {
                                None
                            }
                        },
                    }
                },
            },
        }
    }

    /// Looks an entity of type `t` up by an external identifier.
    pub fn lookup_entity(&self, t: EntityType, k: ExtIdKind, text: &str, hide: HideFlags) -> (r: Result<
        Entity,
        FatcatError,
    >)
        requires
            self.wf(),
        ensures
            lookup_result(
                self@,
                t,
                k,
                text@,
                hide,
                match r {
                    Ok(e) => Ok(e@),
                    Err(e) => Err(e@),
                },
            ),
    {
        let ghost c = self@;
        if !ext_id_kind_applies(t, k) {
            return Err(
                FatcatError::OtherBadRequest(
                    String::from_str("external identifier does not apply to this entity type"),
                ),
            );
        }
        let stored = match validate_ext_id(k, text) {
            Err(e) => {
                return Err(e);
            },
            Ok(s) => s,
        };
        let v = stored.as_str();
        let mut first: Option<u128> = None;
        let mut multiple = false;
        let mut i: usize = 0;
        while i < self.idents.len()
            invariant
                i <= self.idents@.len(),
                c == self@,
                c.wf(),
                first is None ==> !multiple && forall|j: int|
                    0 <= j < i ==> lookup_hit(c, t, #[trigger] c.idents[j], k, v@) is None,
                first is Some ==> is_hit(c, t, k, v@, first->0) && c.has_ident(first->0) && c.ident(
                    first->0,
                ).rev_id is Some,
                first is Some && !multiple ==> forall|j: int|
                    0 <= j < i ==> lookup_hit(c, t, #[trigger] c.idents[j], k, v@) is None
                        || lookup_hit(c, t, c.idents[j], k, v@) == first,
                multiple ==> exists|a: u128, b: u128|
                    is_hit(c, t, k, v@, a) && is_hit(c, t, k, v@, b) && a != b,
            decreases self.idents@.len() - i,
        {
            match self.hit_at(t, i, k, v) {
                None => {},
                Some(h) => {
                    assert(is_hit(c, t, k, v@, h));
                    match first {
                        None => {
                            first = Some(h);
                        },
                        Some(f) => {
                            if f != h {
                                multiple = true;
                            }
                        },
                    }
                },
            }
            i += 1;
        }
        match first {
            None => {
                assert forall|h: u128| !is_hit(c, t, k, v@, h) by {}
                Err(FatcatError::NotFound(Resource::ExternalId(t, k)))
            },
            Some(h) => {
                if multiple {
                    Err(FatcatError::MultipleMatches)
                } else {
                    assert forall|a: u128, b: u128|
                        is_hit(c, t, k, v@, a) && is_hit(c, t, k, v@, b) implies a == b by {
                        let ia = choose|i: int|
                            0 <= i < c.idents.len() && lookup_hit(c, t, #[trigger] c.idents[i], k, v@)
                                == Some(a);
                        let ib = choose|i: int|
                            0 <= i < c.idents.len() && lookup_hit(c, t, #[trigger] c.idents[i], k, v@)
                                == Some(b);
                        assert(lookup_hit(c, t, c.idents[ia], k, v@) == first);
                        assert(lookup_hit(c, t, c.idents[ib], k, v@) == first);
                    }
                    let e = self.entity_at((h - 1) as usize, hide);
                    assert(c.idents[h - 1].ident == h);
                    Ok(e)
                }
            },
        }
    }

    /// The live entities of type `source` that refer to the entity `id` of
    /// type `target`, in the order of their creation.
    pub fn get_referrers(&self, source: EntityType, target: EntityType, id: u128, hide: HideFlags) -> (r:
        Result<Vec<Entity>, FatcatError>)
        requires
            self.wf(),
        ensures
            match r {
                Ok(v) => referrers_verdict(self@, source, target, id, hide) == Ok::<
                    Seq<EntityView>,
                    ErrorView,
                >(entities_view(v@)),
                Err(e) => referrers_verdict(self@, source, target, id, hide) == Err::<
                    Seq<EntityView>,
                    ErrorView,
                >(e@),
            },
    {
        let ghost c = self@;
        match self.ident_place(id) {
            None => {
                return Err(FatcatError::NotFound(Resource::Entity(target, id)));
            },
            Some(i) => {
                if self.idents[i].entity_type != target {
                    return Err(FatcatError::NotFound(Resource::Entity(target, id)));
                }
            },
        }
        let mut out: Vec<Entity> = Vec::new();
        let mut n: usize = 0;
        assert(entities_view(out@) =~= Seq::empty());
        while n < self.idents.len()
            invariant
                n <= self.idents@.len(),
                c == self@,
                c.wf(),
                entities_view(out@) == referrers_upto(c, source, target, id, hide, n as int),
            decreases self.idents@.len() - n,
        {
            let row = self.idents[n];
            let ghost before = entities_view(out@);
            if row.entity_type == source && row.is_live {
                match row.rev_id {
                    None => {},
                    Some(r) => {
                        let rp = (r - 1) as usize;
                        assert(c.revisions[rp as int] == self.revisions@[rp as int]@);
                        if content_refers_to(&self.revisions[rp].content, source, target, id) {
                            let e = self.entity_at(n, hide);
                            out.push(e);
                            assert(entities_view(out@) =~= before.push(
                                entity_of(c, c.idents[n as int], hide),
                            ));
                        }
                    },
                }
            }
            n += 1;
        }
        Ok(out)
    }
}

} // verus!

//! Expansion: the related entities that are attached to an entity when it is
//! read with expand flags.
//!
//! Expansion is one level deep. What is attached is never expanded itself,
//! so a release can bring its files and a file its releases, but no file
//! brings the files of its releases.

use vstd::prelude::*;
use crate::catalog::{Catalog, CatalogView};
use crate::errors::EntityType;
use crate::flags::{ExpandFlags, HideFlags};
use crate::lookup::referrers_verdict;
use crate::reading::{entities_view, get_verdict, Entity, EntityView, Found, FoundView};

verus! {

/// What was attached to an entity, by flag. A list is `None` where its flag
/// was not set or does not apply to the entity's type.
#[derive(Debug, PartialEq, Eq)]
pub struct Expansion {
    /// The files that hold a release.
    pub files: Option<Vec<Entity>>,
    /// The filesets that hold a release.
    pub filesets: Option<Vec<Entity>>,
    /// The web captures that hold a release.
    pub webcaptures: Option<Vec<Entity>>,
    /// The releases that a file, fileset or web capture holds; the releases
    /// of a work, of a container, of a creator.
    pub releases: Option<Vec<Entity>>,
    /// The container of a release: one entity or none.
    pub container: Option<Vec<Entity>>,
    /// The creators that contributed to a release.
    pub creators: Option<Vec<Entity>>,
}

pub struct ExpansionView {
    pub files: Option<Seq<EntityView>>,
    pub filesets: Option<Seq<EntityView>>,
    pub webcaptures: Option<Seq<EntityView>>,
    pub releases: Option<Seq<EntityView>>,
    pub container: Option<Seq<EntityView>>,
    pub creators: Option<Seq<EntityView>>,
}

pub open spec fn opt_entities_view(v: Option<Vec<Entity>>) -> Option<Seq<EntityView>> {
    match v {
        Some(w) => Some(entities_view(w@)),
        None => None,
    }
}

impl View for Expansion {
    type V = ExpansionView;

    open spec fn view(&self) -> ExpansionView {
        ExpansionView {
            files: opt_entities_view(self.files),
            filesets: opt_entities_view(self.filesets),
            webcaptures: opt_entities_view(self.webcaptures),
            releases: opt_entities_view(self.releases),
            container: opt_entities_view(self.container),
            creators: opt_entities_view(self.creators),
        }
    }
}

/// The entities of type `t` that the first `n` of the ids lead to, in the
/// order of the ids. An id that leads to no entity (it does not exist, it is
/// deleted, it redirects) is passed over.
pub open spec fn resolved_upto(
    c: CatalogView,
    t: EntityType,
    ids: Seq<u128>,
    hide: HideFlags,
    n: int,
) -> Seq<EntityView>
    decreases n,
{
    if n <= 0 {
        Seq::empty()
    } else {
        let before = resolved_upto(c, t, ids, hide, n - 1);
        match get_verdict(c, t, ids[n - 1], hide) {
            Ok(FoundView::Entity(e)) => before.push(e),
            _ => before,
        }
    }
}

pub open spec fn resolved(c: CatalogView, t: EntityType, ids: Seq<u128>, hide: HideFlags) -> Seq<
    EntityView,
> {
    resolved_upto(c, t, ids, hide, ids.len() as int)
}

/// The entities of type `source` that refer to the entity, where it has an
/// identifier that names an entity of its type.
pub open spec fn referring(c: CatalogView, source: EntityType, e: EntityView, hide: HideFlags) -> Option<
    Seq<EntityView>,
> {
    if e.ident is Some {
        match referrers_verdict(c, source, e.entity_type, e.ident->0.ident, hide) {
            Ok(v) => Some(v),
            Err(_) => None,
        }
    } else {
        None
    }
}

pub open spec fn is_held_in_releases(t: EntityType) -> bool {
    t == EntityType::File || t == EntityType::Fileset || t == EntityType::Webcapture
}

/// What is attached to an entity for a set of expand flags. The flags
/// `contribs` and `refs` name sub-resources of the revision itself, which
/// are part of the entity unless they are hidden; they attach nothing.
pub open spec fn expansion_of(c: CatalogView, e: EntityView, flags: ExpandFlags, hide: HideFlags) -> ExpansionView {
    let release = e.entity_type == EntityType::Release;
    let known = c.has_revision(e.revision);
    let stored = c.revision(e.revision).content;
    ExpansionView {
        files: if flags.files && release {
            referring(c, EntityType::File, e, hide)
        } else {
            None
        },
        filesets: if flags.filesets && release {
            referring(c, EntityType::Fileset, e, hide)
        } else {
            None
        },
        webcaptures: if flags.webcaptures && release {
            referring(c, EntityType::Webcapture, e, hide)
        } else {
            None
        },
        releases: if !flags.releases || release {
            None
        } else if is_held_in_releases(e.entity_type) {
            if known {
                Some(resolved(c, EntityType::Release, stored.release_ids, hide))
            } else {
                None
            }
        } else {
            referring(c, EntityType::Release, e, hide)
        },
        container: if flags.container && release && known {
            Some(
                resolved(
                    c,
                    EntityType::Container,
                    match stored.container_id {
                        Some(id) => seq![id],
                        None => Seq::empty(),
                    },
                    hide,
                ),
            )
        } else {
            None
        },
        creators: if flags.creator && release && known {
            Some(
                resolved(
                    c,
                    EntityType::Creator,
                    match stored.contribs {
                        Some(v) => v,
                        None => Seq::empty(),
                    },
                    hide,
                ),
            )
        } else {
            None
        },
    }
}

impl Catalog {
    /// The entities of type `t` that the ids lead to.
    pub fn resolve_all(&self, t: EntityType, ids: &Vec<u128>, hide: HideFlags) -> (out: Vec<Entity>)
        requires
            self.wf(),
        ensures
            entities_view(out@) == resolved(self@, t, ids@, hide),
    {
        let mut out: Vec<Entity> = Vec::new();
        let mut n: usize = 0;
        assert(entities_view(out@) =~= Seq::empty());
        while n < ids.len()
            invariant
                n <= ids@.len(),
                self.wf(),
                entities_view(out@) == resolved_upto(self@, t, ids@, hide, n as int),
            decreases ids@.len() - n,
        {
            let ghost before = entities_view(out@);
            match self.get_entity(t, ids[n], hide) {
                Ok(Found::Entity(e)) => {
                    let ghost ev = e@;
                    out.push(e);
                    assert(entities_view(out@) =~= before.push(ev));
                },
                _ => {},
            }
            n += 1;
        }
        out
    }

    fn referring_to(&self, source: EntityType, e: &Entity, hide: HideFlags) -> (r: Option<Vec<Entity>>)
        requires
            self.wf(),
        ensures
            opt_entities_view(r) == referring(self@, source, e@, hide),
    {
        match e.ident {
            None => None,
            Some(row) => match self.get_referrers(source, e.entity_type, row.ident, hide) {
                Ok(v) => Some(v),
                Err(_) => None,
            },
        }
    }

    /// Attaches to an entity what the expand flags ask for.
    pub fn expand_entity(&self, e: &Entity, flags: ExpandFlags, hide: HideFlags) -> (x: Expansion)
        requires
            self.wf(),
        ensures
            x@ == expansion_of(self@, e@, flags, hide),
    {
        let release = e.entity_type == EntityType::Release;
        let place = self.revision_place(e.revision);
        let files = if flags.files && release {
            self.referring_to(EntityType::File, e, hide)
        } else {
            None
        };
        let filesets = if flags.filesets && release {
            self.referring_to(EntityType::Fileset, e, hide)
        } else {
            None
        };
        let webcaptures = if flags.webcaptures && release {
            self.referring_to(EntityType::Webcapture, e, hide)
        } else {
            None
        };
        let held = e.entity_type == EntityType::File || e.entity_type == EntityType::Fileset
            || e.entity_type == EntityType::Webcapture;
        let releases = if !flags.releases || release {
            None
        } else if held {
            match place {
                Some(p) => {
                    assert(self@.revisions[p as int] == self.revisions@[p as int]@);
                    Some(self.resolve_all(EntityType::Release, &self.revisions[p].content.release_ids, hide))
                },
                None => None,
            }
        } else {
            self.referring_to(EntityType::Release, e, hide)
        };
        let container = match place {
            Some(p) => {
                if flags.container && release {
                    assert(self@.revisions[p as int] == self.revisions@[p as int]@);
                    let mut ids: Vec<u128> = Vec::new();
                    match self.revisions[p].content.container_id {
                        Some(id) => {
                            ids.push(id);
                            assert(ids@ =~= seq![id]);
                        },
                        None => {},
                    }
                    Some(self.resolve_all(EntityType::Container, &ids, hide))
                } else {
                    None
                }
            },
            None => None,
        };
        let creators = match place {
            Some(p) => {
                if flags.creator && release {
                    assert(self@.revisions[p as int] == self.revisions@[p as int]@);
                    match &self.revisions[p].content.contribs {
                        Some(v) => Some(self.resolve_all(EntityType::Creator, v, hide)),
                        None => {
                            let ids: Vec<u128> = Vec::new();
                            Some(self.resolve_all(EntityType::Creator, &ids, hide))
                        },
                    }
                } else {
                    None
                }
            },
            None => None,
        };
        Expansion { files, filesets, webcaptures, releases, container, creators }
    }
}


/// The expand flags that apply to an entity type. The others are accepted
/// and attach nothing.
pub open spec fn applicable_flags(t: EntityType) -> ExpandFlags {
    let release = t == EntityType::Release;
    ExpandFlags {
        files: release,
        filesets: release,
        webcaptures: release,
        releases: !release,
        container: release,
        creator: release,
        contribs: release,
        refs: release,
    }
}

/// The expand flags that apply to an entity type.
pub fn applicable_expand(t: EntityType) -> (f: ExpandFlags)
    ensures
        f == applicable_flags(t),
{
    let release = t == EntityType::Release;
    ExpandFlags {
        files: release,
        filesets: release,
        webcaptures: release,
        releases: !release,
        container: release,
        creator: release,
        contribs: release,
        refs: release,
    }
}

/// Flags that do not apply to the entity's type attach nothing: expansion
/// with a set of flags is expansion with those of them that apply.
pub proof fn lemma_expansion_applies(c: CatalogView, e: EntityView, flags: ExpandFlags, hide: HideFlags)
    ensures
        expansion_of(c, e, flags, hide) == expansion_of(
            c,
            e,
            ExpandFlags {
                files: flags.files && applicable_flags(e.entity_type).files,
                filesets: flags.filesets && applicable_flags(e.entity_type).filesets,
                webcaptures: flags.webcaptures && applicable_flags(e.entity_type).webcaptures,
                releases: flags.releases && applicable_flags(e.entity_type).releases,
                container: flags.container && applicable_flags(e.entity_type).container,
                creator: flags.creator && applicable_flags(e.entity_type).creator,
                contribs: flags.contribs && applicable_flags(e.entity_type).contribs,
                refs: flags.refs && applicable_flags(e.entity_type).refs,
            },
            hide,
        ),
{
}

} // verus!

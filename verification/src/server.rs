//! The request boundary: every endpoint takes its parameters as the
//! transport hands them over, runs against the catalog, and answers with one
//! tagged response. Errors are classified here, once.
//!
//! An endpoint that fails leaves the catalog as it was.

use vstd::prelude::*;
use vstd::string::*;
use crate::auth::{
    auth_verdict, editgroup_verdict, role_of_name, AuthContext, Credential, TokenClaims,
};
use crate::catalog::{Catalog, CatalogView};
use crate::errors::{
    spec_classify, spec_is_reported, EntityType, ErrorCategory, ErrorView, ExtIdKind, FatcatError,
    Resource, Role,
};
use crate::expand::{expansion_of, Expansion, ExpansionView};
use crate::fcid::{fcid_text, fcid_value, FatcatId};
use crate::flags::{ExpandFlags, HideFlags};
use crate::lookup::{lookup_result, referrers_verdict};
use crate::model::{ChangelogRow, EditRow, Editgroup, EditgroupView, Editor, EditorView};
use crate::accept::{accept_error, accept_ok, after_accept};
use crate::accounts::{longest_username, username_taken_text, username_too_long_text};
use crate::editing::{
    after_create, after_recreate, after_update, changed_edit, context_verdict, create_verdict,
    created_edit, delete_verdict, recreate_verdict, recreated_edit, update_verdict, updated_edit,
    EditContext,
};
use crate::batch::{batch_result, contents_view};
use crate::model::{opt_text_view, EntityContent, OidcLinkView};
use crate::outside::{format_uuid, parse_uuid, seconds_in_days, uuid_text, uuid_text_value};
use crate::model::texts_view;
use crate::reading::{
    read_edit_verdict, Edit,
    changelog_newest_first, editor_changelog_upto, entities_view, get_edit_verdict,
    get_revision_verdict, get_verdict, group_edits, history_verdict, history_view, limited,
    redirects_verdict, Entity, EntityView, Found, FoundView, HistoryEntry,
};

verus! {

/// The answer to a request: what was found or created, or the error, under
/// the status category that it falls in.
#[derive(Debug, PartialEq, Eq)]
pub enum Response<T> {
    Found(T),
    Created(T),
    BadRequest(FatcatError),
    Forbidden(FatcatError),
    NotFound(FatcatError),
    GenericError(FatcatError),
}

/// The counters that the core reports to the metrics sink.
#[derive(Clone, Copy, Debug, PartialEq, Eq, Structural)]
pub enum Metric {
    EntitiesCreated,
    EntitiesUpdated,
    EntitiesDeleted,
    EditgroupCreated,
    EditgroupAccepted,
    AccountSignup,
    AccountLogin,
}

/// An amount to add to a counter.
#[derive(Clone, Copy, Debug, PartialEq, Eq, Structural)]
pub struct MetricCount {
    pub metric: Metric,
    pub count: u64,
}

/// What an endpoint hands back: the response, whether the error is to be
/// logged and sent to telemetry, and the counters to raise.
#[derive(Debug, PartialEq, Eq)]
pub struct Reply<T> {
    pub response: Response<T>,
    pub reported: bool,
    pub metrics: Vec<MetricCount>,
}

/// A plain confirmation.
#[derive(Debug, PartialEq, Eq)]
pub struct Success {
    pub success: bool,
    pub message: String,
}

/// The key of a counter at the metrics sink.
pub open spec fn metric_key(m: Metric) -> Seq<char> {
    match m {
        Metric::EntitiesCreated => "entities.created"@,
        Metric::EntitiesUpdated => "entities.updated"@,
        Metric::EntitiesDeleted => "entities.deleted"@,
        Metric::EditgroupCreated => "editgroup.created"@,
        Metric::EditgroupAccepted => "editgroup.accepted"@,
        Metric::AccountSignup => "account.signup"@,
        Metric::AccountLogin => "account.login"@,
    }
}

impl Metric {
    /// The key of this counter at the metrics sink.
    pub fn key(&self) -> (k: &'static str)
        ensures
            k@ == metric_key(*self),
    {
        match self {
            Metric::EntitiesCreated => "entities.created",
            Metric::EntitiesUpdated => "entities.updated",
            Metric::EntitiesDeleted => "entities.deleted",
            Metric::EditgroupCreated => "editgroup.created",
            Metric::EditgroupAccepted => "editgroup.accepted",
            Metric::AccountSignup => "account.signup",
            Metric::AccountLogin => "account.login",
        }
    }
}

/// The response carries the error `e` under the category of its kind.
pub open spec fn carries<T>(r: Response<T>, e: ErrorView) -> bool {
    match spec_classify(e) {
        ErrorCategory::BadRequest => r is BadRequest && r->BadRequest_0@ == e,
        ErrorCategory::Forbidden => r is Forbidden && r->Forbidden_0@ == e,
        ErrorCategory::NotFound => r is NotFound && r->NotFound_0@ == e,
        ErrorCategory::GenericError => r is GenericError && r->GenericError_0@ == e,
    }
}

/// The reply is that of a request that failed with `e`: the error is
/// classified by its kind, it is reported exactly where it is a
/// store failure or an internal error, and no counter is raised.
pub open spec fn failed<T>(reply: Reply<T>, e: ErrorView) -> bool {
    &&& carries(reply.response, e)
    &&& reply.reported == spec_is_reported(e)
    &&& reply.metrics@ == Seq::<MetricCount>::empty()
}

/// The reply is that of a request that found what it asked for: nothing is
/// reported and the given counters are raised.
pub open spec fn found<T>(reply: Reply<T>, metrics: Seq<MetricCount>) -> bool {
    &&& reply.response is Found
    &&& !reply.reported
    &&& reply.metrics@ == metrics
}

/// The reply is that of a request that created something.
pub open spec fn created<T>(reply: Reply<T>, metrics: Seq<MetricCount>) -> bool {
    &&& reply.response is Created
    &&& !reply.reported
    &&& reply.metrics@ == metrics
}

pub open spec fn one(metric: Metric) -> Seq<MetricCount> {
    seq![MetricCount { metric, count: 1 }]
}

/// The reply to a request that failed.
pub fn fail<T>(e: FatcatError) -> (reply: Reply<T>)
    ensures
        failed(reply, e@),
{
    let reported = e.is_reported();
    let response = match e.classify() {
        ErrorCategory::BadRequest => Response::BadRequest(e),
        ErrorCategory::Forbidden => Response::Forbidden(e),
        ErrorCategory::NotFound => Response::NotFound(e),
        ErrorCategory::GenericError => Response::GenericError(e),
    };
    Reply { response, reported, metrics: Vec::new() }
}

/// The reply to a request that found what it asked for.
pub fn reply_found<T>(value: T) -> (reply: Reply<T>)
    ensures
        found(reply, Seq::empty()),
        reply.response->Found_0 == value,
{
    Reply { response: Response::Found(value), reported: false, metrics: Vec::new() }
}

/// The reply to a request that succeeded and raises one counter by one.
fn counted(metric: Metric) -> (m: Vec<MetricCount>)
    ensures
        m@ == one(metric),
{
    let mut m: Vec<MetricCount> = Vec::new();
    m.push(MetricCount { metric, count: 1 });
    assert(m@ =~= one(metric));
    m
}

pub open spec fn malformed_uuid_text() -> Seq<char> {
    "malformed UUID"@
}

/// The identifier that a text stands for.
pub open spec fn ident_of(text: Seq<char>) -> Result<u128, ErrorView> {
    match fcid_value(text) {
        Some(id) => Ok(id),
        None => Err(ErrorView::MalformedFatcatId),
    }
}

/// The UUID that a text stands for.
pub open spec fn uuid_of(text: Seq<char>) -> Result<u128, ErrorView> {
    match uuid_text_value(text) {
        Some(u) => Ok(u),
        None => Err(ErrorView::OtherBadRequest(malformed_uuid_text())),
    }
}

pub open spec fn opt_str_view(s: Option<&str>) -> Option<Seq<char>> {
    match s {
        Some(t) => Some(t@),
        None => None,
    }
}

/// The hide flags that a parameter stands for: none where it is absent.
pub open spec fn hide_of(text: Option<Seq<char>>) -> Result<HideFlags, ErrorView> {
    match text {
        None => Ok(HideFlags { abstracts: false, refs: false, contribs: false }),
        Some(s) => match HideFlags::spec_from_str(s) {
            Some(f) => Ok(f),
            None => Err(ErrorView::MalformedFlag),
        },
    }
}

/// The expand flags that a parameter stands for, if it is present.
pub open spec fn expand_of(text: Option<Seq<char>>) -> Result<Option<ExpandFlags>, ErrorView> {
    match text {
        None => Ok(None),
        Some(s) => match ExpandFlags::spec_from_str(s) {
            Some(f) => Ok(Some(f)),
            None => Err(ErrorView::MalformedFlag),
        },
    }
}

/// Reads an identifier parameter.
pub fn read_ident(text: &str) -> (r: Result<u128, FatcatError>)
    ensures
        match r {
            Ok(id) => ident_of(text@) == Ok::<u128, ErrorView>(id),
            Err(e) => ident_of(text@) == Err::<u128, ErrorView>(e@),
        },
{
    match FatcatId::from_str(text) {
        Ok(id) => Ok(id.0),
        Err(e) => Err(e),
    }
}

/// Reads a UUID parameter.
pub fn read_uuid(text: &str) -> (r: Result<u128, FatcatError>)
    ensures
        match r {
            Ok(id) => uuid_of(text@) == Ok::<u128, ErrorView>(id),
            Err(e) => uuid_of(text@) == Err::<u128, ErrorView>(e@),
        },
{
    match parse_uuid(text) {
        Some(u) => Ok(u),
        None => Err(FatcatError::OtherBadRequest(String::from_str("malformed UUID"))),
    }
}

/// Reads a hide parameter.
pub fn read_hide(text: Option<&str>) -> (r: Result<HideFlags, FatcatError>)
    ensures
        match r {
            Ok(f) => hide_of(opt_str_view(text)) == Ok::<HideFlags, ErrorView>(f),
            Err(e) => hide_of(opt_str_view(text)) == Err::<HideFlags, ErrorView>(e@),
        },
{
    match text {
        None => Ok(HideFlags::none()),
        Some(s) => HideFlags::from_str(s),
    }
}

/// Reads an expand parameter.
pub fn read_expand(text: Option<&str>) -> (r: Result<Option<ExpandFlags>, FatcatError>)
    ensures
        match r {
            Ok(f) => expand_of(opt_str_view(text)) == Ok::<Option<ExpandFlags>, ErrorView>(f),
            Err(e) => expand_of(opt_str_view(text)) == Err::<Option<ExpandFlags>, ErrorView>(e@),
        },
{
    match text {
        None => Ok(None),
        Some(s) => match ExpandFlags::from_str(s) {
            Ok(f) => Ok(Some(f)),
            Err(e) => Err(e),
        },
    }
}

/// The catalog behind its request boundary.
pub struct Server {
    pub(crate) catalog: Catalog,
}

impl View for Server {
    type V = CatalogView;

    open(crate) spec fn view(&self) -> CatalogView {
        self.catalog@
    }
}

/// An entity that was read, with what was attached to it.
#[derive(Debug, PartialEq, Eq)]
pub struct EntityReply {
    pub found: Found,
    pub expansion: Option<Expansion>,
}

pub struct EntityReplyView {
    pub found: FoundView,
    pub expansion: Option<ExpansionView>,
}

impl View for EntityReply {
    type V = EntityReplyView;

    open spec fn view(&self) -> EntityReplyView {
        EntityReplyView {
            found: self.found@,
            expansion: match self.expansion {
                Some(x) => Some(x@),
                None => None,
            },
        }
    }
}

/// What is attached to what was found: the expansion of an entity where
/// expand flags were given, nothing otherwise.
pub open spec fn attached(c: CatalogView, f: FoundView, flags: Option<ExpandFlags>, hide: HideFlags) -> Option<
    ExpansionView,
> {
    match (flags, f) {
        (Some(x), FoundView::Entity(e)) => Some(expansion_of(c, e, x, hide)),
        _ => None,
    }
}

/// What reading an entity by its identifier answers.
pub open spec fn get_entity_answer(
    c: CatalogView,
    t: EntityType,
    ident: Seq<char>,
    expand: Option<Seq<char>>,
    hide: Option<Seq<char>>,
) -> Result<EntityReplyView, ErrorView> {
    if ident_of(ident) is Err {
        Err(ident_of(ident)->Err_0)
    } else if hide_of(hide) is Err {
        Err(hide_of(hide)->Err_0)
    } else if expand_of(expand) is Err {
        Err(expand_of(expand)->Err_0)
    } else {
        match get_verdict(c, t, ident_of(ident)->Ok_0, hide_of(hide)->Ok_0) {
            Err(e) => Err(e),
            Ok(f) => Ok(
                EntityReplyView {
                    found: f,
                    expansion: attached(c, f, expand_of(expand)->Ok_0, hide_of(hide)->Ok_0),
                },
            ),
        }
    }
}

/// What reading a revision by its id answers.
pub open spec fn get_revision_answer(
    c: CatalogView,
    t: EntityType,
    rev_id: Seq<char>,
    expand: Option<Seq<char>>,
    hide: Option<Seq<char>>,
) -> Result<EntityReplyView, ErrorView> {
    if uuid_of(rev_id) is Err {
        Err(uuid_of(rev_id)->Err_0)
    } else if hide_of(hide) is Err {
        Err(hide_of(hide)->Err_0)
    } else if expand_of(expand) is Err {
        Err(expand_of(expand)->Err_0)
    } else {
        match get_revision_verdict(c, t, uuid_of(rev_id)->Ok_0, hide_of(hide)->Ok_0) {
            Err(e) => Err(e),
            Ok(e) => Ok(
                EntityReplyView {
                    found: FoundView::Entity(e),
                    expansion: attached(
                        c,
                        FoundView::Entity(e),
                        expand_of(expand)->Ok_0,
                        hide_of(hide)->Ok_0,
                    ),
                },
            ),
        }
    }
}

impl Server {
    /// What holds of the server's catalog at all times.
    pub open spec fn wf(&self) -> bool {
        self@.wf()
    }

    /// A server with an empty catalog.
    pub fn new() -> (s: Server)
        ensures
            s.wf(),
            s@ == CatalogView::empty(),
    {
        Server { catalog: Catalog::new() }
    }

    /// The catalog, to read.
    pub fn catalog(&self) -> (c: &Catalog)
        ensures
            c@ == self@,
    {
        &self.catalog
    }

    /// Attaches to what was found what the expand flags ask for.
    fn attach(&self, f: &Found, flags: Option<ExpandFlags>, hide: HideFlags) -> (x: Option<Expansion>)
        requires
            self.wf(),
        ensures
            (match x {
                Some(v) => Some(v@),
                None => None,
            }) == attached(self@, f@, flags, hide),
    {
        match flags {
            None => None,
            Some(fl) => match f {
                Found::Entity(e) => Some(self.catalog.expand_entity(e, fl, hide)),
                _ => None,
            },
        }
    }

    /// Reads an entity by its identifier.
    pub fn get_entity(&self, t: EntityType, ident: &str, expand: Option<&str>, hide: Option<&str>) -> (reply:
        Reply<EntityReply>)
        requires
            self.wf(),
        ensures
            match get_entity_answer(self@, t, ident@, opt_str_view(expand), opt_str_view(hide)) {
                Ok(v) => found(reply, Seq::empty()) && reply.response->Found_0@ == v,
                Err(e) => failed(reply, e),
            },
    {
        let id = match read_ident(ident) {
            Ok(id) => id,
            Err(e) => {
                return fail(e);
            },
        };
        let h = match read_hide(hide) {
            Ok(h) => h,
            Err(e) => {
                return fail(e);
            },
        };
        let x = match read_expand(expand) {
            Ok(x) => x,
            Err(e) => {
                return fail(e);
            },
        };
        match self.catalog.get_entity(t, id, h) {
            Err(e) => fail(e),
            Ok(f) => {
                let expansion = self.attach(&f, x, h);
                reply_found(EntityReply { found: f, expansion })
            },
        }
    }

    /// Reads a revision by its id.
    pub fn get_entity_revision(
        &self,
        t: EntityType,
        rev_id: &str,
        expand: Option<&str>,
        hide: Option<&str>,
    ) -> (reply: Reply<EntityReply>)
        requires
            self.wf(),
        ensures
            match get_revision_answer(self@, t, rev_id@, opt_str_view(expand), opt_str_view(hide)) {
                Ok(v) => found(reply, Seq::empty()) && reply.response->Found_0@ == v,
                Err(e) => failed(reply, e),
            },
    {
        let r = match read_uuid(rev_id) {
            Ok(r) => r,
            Err(e) => {
                return fail(e);
            },
        };
        let h = match read_hide(hide) {
            Ok(h) => h,
            Err(e) => {
                return fail(e);
            },
        };
        let x = match read_expand(expand) {
            Ok(x) => x,
            Err(e) => {
                return fail(e);
            },
        };
        match self.catalog.get_revision(t, r, h) {
            Err(e) => fail(e),
            Ok(e) => {
                let f = Found::Entity(e);
                let expansion = self.attach(&f, x, h);
                reply_found(EntityReply { found: f, expansion })
            },
        }
    }
}

/// The texts of a list of identifiers.
pub open spec fn fcid_texts(ids: Seq<u128>) -> Seq<Seq<char>> {
    Seq::new(ids.len(), |i: int| fcid_text(ids[i]))
}

/// The texts of a list of identifiers.
pub fn write_idents(ids: &Vec<u128>) -> (out: Vec<String>)
    ensures
        texts_view(out@) == fcid_texts(ids@),
{
    let mut out: Vec<String> = Vec::new();
    let mut i: usize = 0;
    while i < ids.len()
        invariant
            i <= ids@.len(),
            out@.len() == i,
            forall|j: int| 0 <= j < i ==> (#[trigger] out@[j])@ == fcid_text(ids@[j]),
        decreases ids@.len() - i,
    {
        out.push(FatcatId(ids[i]).to_string());
        i += 1;
    }
    assert(texts_view(out@) =~= fcid_texts(ids@));
    out
}

/// A parameter is present where it is given and not empty.
pub open spec fn present(p: Option<Seq<char>>) -> bool {
    p is Some && p->0.len() > 0
}

/// How many of the first `n` parameters are present.
pub open spec fn count_present(params: Seq<(ExtIdKind, Option<Seq<char>>)>, n: int) -> nat
    decreases n,
{
    if n <= 0 {
        0
    } else if present(params[n - 1].1) {
        count_present(params, n - 1) + 1
    } else {
        count_present(params, n - 1)
    }
}

/// Place of the last of the first `n` parameters that is present; -1 where none is.
pub open spec fn last_present(params: Seq<(ExtIdKind, Option<Seq<char>>)>, n: int) -> int
    decreases n,
{
    if n <= 0 {
        -1
    } else if present(params[n - 1].1) {
        n - 1
    } else {
        last_present(params, n - 1)
    }
}

/// The external identifier to look up: the one parameter that is present.
/// None present is refused, and so is more than one.
pub open spec fn chosen_param(params: Seq<(ExtIdKind, Option<Seq<char>>)>) -> Result<
    (ExtIdKind, Seq<char>),
    ErrorView,
> {
    let n = count_present(params, params.len() as int);
    if n == 0 {
        Err(ErrorView::MissingOrMultipleExternalId)
    } else if n > 1 {
        Err(ErrorView::MultipleQueryParams)
    } else {
        let p = params[last_present(params, params.len() as int)];
        Ok((p.0, p.1->0))
    }
}

pub open spec fn params_view(v: Seq<(ExtIdKind, Option<&str>)>) -> Seq<(ExtIdKind, Option<Seq<char>>)> {
    Seq::new(v.len(), |i: int| (v[i].0, opt_str_view(v[i].1)))
}

/// Picks the external identifier to look up.
pub fn choose_param<'a>(params: &Vec<(ExtIdKind, Option<&'a str>)>) -> (r: Result<
    (ExtIdKind, &'a str),
    FatcatError,
>)
    ensures
        match r {
            Ok((k, v)) => chosen_param(params_view(params@)) == Ok::<
                (ExtIdKind, Seq<char>),
                ErrorView,
            >((k, v@)),
            Err(e) => chosen_param(params_view(params@)) == Err::<
                (ExtIdKind, Seq<char>),
                ErrorView,
            >(e@),
        },
{
    let ghost all = params_view(params@);
    let mut count: usize = 0;
    let mut last: Option<(ExtIdKind, &'a str)> = None;
    let mut i: usize = 0;
    while i < params.len()
        invariant
            i <= params@.len(),
            all == params_view(params@),
            count == count_present(all, i as int),
            count <= i,
            match last {
                Some((k, v)) => last_present(all, i as int) >= 0 && all[last_present(all, i as int)]
                    == (k, Some(v@)),
                None => count == 0,
            },
        decreases params@.len() - i,
    {
        let (k, p) = params[i];
        match p {
            Some(v) => {
                if v.unicode_len() > 0 {
                    count += 1;
                    last = Some((k, v));
                }
            },
            None => {},
        }
        i += 1;
    }
    if count == 0 {
        Err(FatcatError::MissingOrMultipleExternalId)
    } else if count > 1 {
        Err(FatcatError::MultipleQueryParams)
    } else {
        match last {
            Some(x) => Ok(x),
            None => Err(FatcatError::MissingOrMultipleExternalId),
        }
    }
}

/// Whether `reply` answers a request for the entities of type `source` that
/// refer to the entity `ident` of type `target`.
pub open spec fn referrers_answer(
    c: CatalogView,
    source: EntityType,
    target: EntityType,
    ident: Seq<char>,
    hide: Option<Seq<char>>,
    reply: Reply<Vec<Entity>>,
) -> bool {
    if ident_of(ident) is Err {
        failed(reply, ident_of(ident)->Err_0)
    } else if hide_of(hide) is Err {
        failed(reply, hide_of(hide)->Err_0)
    } else {
        match referrers_verdict(
            c,
            source,
            target,
            ident_of(ident)->Ok_0,
            hide_of(hide)->Ok_0,
        ) {
            Ok(v) => found(reply, Seq::empty()) && entities_view(reply.response->Found_0@)
                == v,
            Err(e) => failed(reply, e),
        }
    }
}

/// Whether `reply` answers a lookup of an entity of type `t` by the one
/// external identifier that is present among the parameters.
pub open spec fn lookup_answer(
    c: CatalogView,
    t: EntityType,
    params: Seq<(ExtIdKind, Option<Seq<char>>)>,
    expand: Option<Seq<char>>,
    hide: Option<Seq<char>>,
    reply: Reply<EntityReply>,
) -> bool {
    if expand_of(expand) is Err {
        failed(reply, expand_of(expand)->Err_0)
    } else if hide_of(hide) is Err {
        failed(reply, hide_of(hide)->Err_0)
    } else if chosen_param(params) is Err {
        failed(reply, chosen_param(params)->Err_0)
    } else {
        let (k, text) = chosen_param(params)->Ok_0;
        let h = hide_of(hide)->Ok_0;
        let x = expand_of(expand)->Ok_0;
        match reply.response {
            Response::Found(v) => {
                &&& found(reply, Seq::empty())
                &&& v.found is Entity
                &&& lookup_result(
                    c,
                    t,
                    k,
                    text,
                    h,
                    Ok::<EntityView, ErrorView>(v.found->Entity_0@),
                )
                &&& v@.expansion == attached(c, v.found@, x, h)
            },
            _ => exists|e: ErrorView|
                lookup_result(c, t, k, text, h, Err::<EntityView, ErrorView>(e))
                    && #[trigger] failed(reply, e),
        }
    }
}

/// An editgroup with its edits.
#[derive(Debug, PartialEq, Eq)]
pub struct EditgroupReply {
    pub editgroup: Editgroup,
    pub edits: Vec<EditRow>,
}

/// A changelog entry with its editgroup and the editgroup's edits.
#[derive(Debug, PartialEq, Eq)]
pub struct ChangelogEntryReply {
    pub entry: ChangelogRow,
    pub editgroup: Editgroup,
    pub edits: Vec<EditRow>,
}

impl Server {
    /// Reads an edit by its id, with its metadata.
    pub fn get_entity_edit(&self, t: EntityType, edit_id: &str) -> (reply: Reply<Edit>)
        requires
            self.wf(),
        ensures
            match uuid_of(edit_id@) {
                Err(e) => failed(reply, e),
                Ok(id) => match read_edit_verdict(self@, t, id) {
                    Ok(v) => found(reply, Seq::empty()) && reply.response->Found_0@ == v,
                    Err(e) => failed(reply, e),
                },
            },
    {
        let id = match read_uuid(edit_id) {
            Ok(id) => id,
            Err(e) => {
                return fail(e);
            },
        };
        match self.catalog.read_edit(t, id) {
            Ok(e) => reply_found(e),
            Err(e) => fail(e),
        }
    }

    /// Reads the accepted edits on an identifier, newest first.
    pub fn get_entity_history(&self, t: EntityType, ident: &str, limit: Option<i64>) -> (reply: Reply<
        Vec<HistoryEntry>,
    >)
        requires
            self.wf(),
        ensures
            match ident_of(ident@) {
                Err(e) => failed(reply, e),
                Ok(id) => match history_verdict(self@, t, id, limit) {
                    Ok(v) => found(reply, Seq::empty()) && history_view(reply.response->Found_0@)
                        == v,
                    Err(e) => failed(reply, e),
                },
            },
    {
        let id = match read_ident(ident) {
            Ok(id) => id,
            Err(e) => {
                return fail(e);
            },
        };
        match self.catalog.get_history(t, id, limit) {
            Ok(h) => reply_found(h),
            Err(e) => fail(e),
        }
    }

    /// The live identifiers that redirect to an identifier, as texts.
    pub fn get_entity_redirects(&self, t: EntityType, ident: &str) -> (reply: Reply<Vec<String>>)
        requires
            self.wf(),
        ensures
            match ident_of(ident@) {
                Err(e) => failed(reply, e),
                Ok(id) => match redirects_verdict(self@, t, id) {
                    Ok(v) => found(reply, Seq::empty()) && texts_view(reply.response->Found_0@)
                        == fcid_texts(v),
                    Err(e) => failed(reply, e),
                },
            },
    {
        let id = match read_ident(ident) {
            Ok(id) => id,
            Err(e) => {
                return fail(e);
            },
        };
        match self.catalog.get_redirects(t, id) {
            Ok(v) => reply_found(write_idents(&v)),
            Err(e) => fail(e),
        }
    }

    /// The live entities of type `source` that refer to an entity of type `target`.
    pub fn get_referrers(&self, source: EntityType, target: EntityType, ident: &str, hide: Option<&str>) -> (reply:
        Reply<Vec<Entity>>)
        requires
            self.wf(),
        ensures
            referrers_answer(self@, source, target, ident@, opt_str_view(hide), reply),
    {
        let id = match read_ident(ident) {
            Ok(id) => id,
            Err(e) => {
                return fail(e);
            },
        };
        let h = match read_hide(hide) {
            Ok(h) => h,
            Err(e) => {
                return fail(e);
            },
        };
        match self.catalog.get_referrers(source, target, id, h) {
            Ok(v) => reply_found(v),
            Err(e) => fail(e),
        }
    }

    /// Looks an entity of type `t` up by the one external identifier that is
    /// given among the parameters.
    pub fn lookup(
        &self,
        t: EntityType,
        params: &Vec<(ExtIdKind, Option<&str>)>,
        expand: Option<&str>,
        hide: Option<&str>,
    ) -> (reply: Reply<EntityReply>)
        requires
            self.wf(),
        ensures
            lookup_answer(
                self@,
                t,
                params_view(params@),
                opt_str_view(expand),
                opt_str_view(hide),
                reply,
            ),
    {
        let x = match read_expand(expand) {
            Ok(x) => x,
            Err(e) => {
                return fail(e);
            },
        };
        let h = match read_hide(hide) {
            Ok(h) => h,
            Err(e) => {
                return fail(e);
            },
        };
        let (k, text) = match choose_param(params) {
            Ok(p) => p,
            Err(e) => {
                return fail(e);
            },
        };
        match self.catalog.lookup_entity(t, k, text, h) {
            Err(e) => {
                let ghost ev = e@;
                let reply = fail(e);
                assert(failed(reply, ev));
                reply
            },
            Ok(e) => {
                let f = Found::Entity(e);
                let expansion = self.attach(&f, x, h);
                reply_found(EntityReply { found: f, expansion })
            },
        }
    }

    /// The row of an editor.
    pub fn get_editor(&self, editor_id: &str) -> (reply: Reply<Editor>)
        requires
            self.wf(),
        ensures
            match ident_of(editor_id@) {
                Err(e) => failed(reply, e),
                Ok(id) => if self@.has_editor(id) {
                    found(reply, Seq::empty()) && reply.response->Found_0@ == self@.editor(id)
                } else {
                    failed(reply, ErrorView::NotFound(Resource::Editor(id)))
                },
            },
    {
        let id = match read_ident(editor_id) {
            Ok(id) => id,
            Err(e) => {
                return fail(e);
            },
        };
        match self.catalog.get_editor(id) {
            Ok(e) => reply_found(e),
            Err(e) => fail(e),
        }
    }

    /// The changelog entries of the editgroups of an editor, newest first.
    pub fn get_editor_changelog(&self, editor_id: &str) -> (reply: Reply<Vec<ChangelogRow>>)
        requires
            self.wf(),
        ensures
            match ident_of(editor_id@) {
                Err(e) => failed(reply, e),
                Ok(id) => if self@.has_editor(id) {
                    found(reply, Seq::empty()) && reply.response->Found_0@ == editor_changelog_upto(
                        self@,
                        id,
                        self@.changelog.len() as int,
                    )
                } else {
                    failed(reply, ErrorView::NotFound(Resource::Editor(id)))
                },
            },
    {
        let id = match read_ident(editor_id) {
            Ok(id) => id,
            Err(e) => {
                return fail(e);
            },
        };
        match self.catalog.get_editor_changelog(id) {
            Ok(v) => reply_found(v),
            Err(e) => fail(e),
        }
    }

    /// An editgroup with its edits.
    pub fn get_editgroup(&self, editgroup_id: &str) -> (reply: Reply<EditgroupReply>)
        requires
            self.wf(),
        ensures
            match ident_of(editgroup_id@) {
                Err(e) => failed(reply, e),
                Ok(g) => if self@.has_editgroup(g) {
                    &&& found(reply, Seq::empty())
                    &&& reply.response->Found_0.editgroup@ == self@.editgroup(g)
                    &&& reply.response->Found_0.edits@ == group_edits(self@, g)
                } else {
                    failed(reply, ErrorView::NotFound(Resource::Editgroup(g)))
                },
            },
    {
        let g = match read_ident(editgroup_id) {
            Ok(g) => g,
            Err(e) => {
                return fail(e);
            },
        };
        match self.catalog.get_editgroup(g) {
            Ok(eg) => reply_found(EditgroupReply { editgroup: eg, edits: self.catalog.get_group_edits(g) }),
            Err(e) => fail(e),
        }
    }

    /// The changelog, newest entry first, at most `limit` entries where a
    /// limit is given.
    pub fn get_changelog(&self, limit: Option<i64>) -> (reply: Reply<Vec<ChangelogRow>>)
        requires
            self.wf(),
        ensures
            found(reply, Seq::empty()),
            reply.response->Found_0@ == changelog_newest_first(self@).take(
                limited(self@.changelog.len(), limit) as int,
            ),
    {
        reply_found(self.catalog.get_changelog(limit))
    }

    /// A changelog entry with its editgroup and the editgroup's edits.
    pub fn get_changelog_entry(&self, id: i64) -> (reply: Reply<ChangelogEntryReply>)
        requires
            self.wf(),
        ensures
            if 1 <= id <= self@.changelog.len() {
                let entry = self@.changelog[id - 1];
                &&& found(reply, Seq::empty())
                &&& reply.response->Found_0.entry == entry
                &&& reply.response->Found_0.editgroup@ == self@.editgroup(entry.editgroup_id)
                &&& reply.response->Found_0.edits@ == group_edits(self@, entry.editgroup_id)
            } else {
                failed(reply, ErrorView::NotFound(Resource::ChangelogEntry(id)))
            },
    {
        let entry = match self.catalog.get_changelog_row(id) {
            Ok(e) => e,
            Err(e) => {
                return fail(e);
            },
        };
        match self.catalog.get_editgroup(entry.editgroup_id) {
            Ok(eg) => reply_found(
                ChangelogEntryReply {
                    entry,
                    editgroup: eg,
                    edits: self.catalog.get_group_edits(entry.editgroup_id),
                },
            ),
            Err(e) => fail(e),
        }
    }
}

/// The verdict on a request that needs a role: the editor that the
/// credential authenticates, who must hold the role.
pub open spec fn authed(c: CatalogView, cred: Credential, now: i64, role: Role) -> Result<
    AuthContext,
    ErrorView,
> {
    match auth_verdict(c, cred, now) {
        Err(e) => Err(e),
        Ok(a) => if a.spec_has_role(role) {
            Ok(a)
        } else {
            Err(ErrorView::InsufficientPrivileges(role))
        },
    }
}

/// The context in which an authenticated editor edits in an editgroup.
pub open spec fn context_of(a: AuthContext, g: u128) -> EditContext {
    EditContext { editor_id: a.editor_id, editgroup_id: g, autoaccept: false }
}

/// The verdict on a request to edit in an editgroup, up to the edit itself:
/// the editgroup's identifier must be well formed, the credential must
/// authenticate an editor, and the editor must be allowed in the editgroup.
pub open spec fn editing_verdict(c: CatalogView, editgroup_id: Seq<char>, cred: Credential, now: i64) -> Result<
    EditContext,
    ErrorView,
> {
    if ident_of(editgroup_id) is Err {
        Err(ident_of(editgroup_id)->Err_0)
    } else if authed(c, cred, now, Role::Editor) is Err {
        Err(authed(c, cred, now, Role::Editor)->Err_0)
    } else {
        let a = authed(c, cred, now, Role::Editor)->Ok_0;
        let g = ident_of(editgroup_id)->Ok_0;
        match editgroup_verdict(c, a, g) {
            Err(e) => Err(e),
            Ok(_) => Ok(context_of(a, g)),
        }
    }
}

/// The verdict on a request to edit an identifier in an editgroup, up to the
/// edit itself: the editgroup's identifier must be well formed, the
/// credential must authenticate an editor, the identifier must be well
/// formed, and the editor must be allowed in the editgroup.
pub open spec fn edit_request(
    c: CatalogView,
    ident: Seq<char>,
    editgroup_id: Seq<char>,
    cred: Credential,
    now: i64,
) -> Result<(EditContext, u128), ErrorView> {
    if ident_of(editgroup_id) is Err {
        Err(ident_of(editgroup_id)->Err_0)
    } else if authed(c, cred, now, Role::Editor) is Err {
        Err(authed(c, cred, now, Role::Editor)->Err_0)
    } else if ident_of(ident) is Err {
        Err(ident_of(ident)->Err_0)
    } else {
        let a = authed(c, cred, now, Role::Editor)->Ok_0;
        let g = ident_of(editgroup_id)->Ok_0;
        match editgroup_verdict(c, a, g) {
            Err(e) => Err(e),
            Ok(_) => Ok((context_of(a, g), ident_of(ident)->Ok_0)),
        }
    }
}

/// The verdict on the parameters of an update: the edit context, the
/// identifier, the revision that the caller saw and the identifier to
/// redirect to, each read from its text; or the error of the first that is
/// refused.
pub open spec fn update_request(
    c: CatalogView,
    ident: Seq<char>,
    revision: Option<Seq<char>>,
    redirect: Option<Seq<char>>,
    editgroup_id: Seq<char>,
    cred: Credential,
    now: i64,
) -> Result<(EditContext, u128, Option<u128>, Option<u128>), ErrorView> {
    if edit_request(c, ident, editgroup_id, cred, now) is Err {
        Err(edit_request(c, ident, editgroup_id, cred, now)->Err_0)
    } else if revision is Some && uuid_of(revision->0) is Err {
        Err(uuid_of(revision->0)->Err_0)
    } else if redirect is Some && ident_of(redirect->0) is Err {
        Err(ident_of(redirect->0)->Err_0)
    } else {
        let (ctx, id) = edit_request(c, ident, editgroup_id, cred, now)->Ok_0;
        Ok(
            (
                ctx,
                id,
                match revision {
                    Some(text) => Some(uuid_of(text)->Ok_0),
                    None => None,
                },
                match redirect {
                    Some(text) => Some(ident_of(text)->Ok_0),
                    None => None,
                },
            ),
        )
    }
}

/// Writes a UUID as text, in lower-case hexadecimal digits with hyphens.
pub fn write_uuid(u: u128) -> (s: String)
    ensures
        s@ == uuid_text(u),
{
    format_uuid(u)
}

/// The name under which the wire API knows an entity type.
pub open spec fn model_name(t: EntityType) -> Seq<char> {
    match t {
        EntityType::Container => "ContainerEntity"@,
        EntityType::Creator => "CreatorEntity"@,
        EntityType::File => "FileEntity"@,
        EntityType::Fileset => "FilesetEntity"@,
        EntityType::Webcapture => "WebcaptureEntity"@,
        EntityType::Release => "ReleaseEntity"@,
        EntityType::Work => "WorkEntity"@,
    }
}

/// The name under which the wire API knows an entity type.
pub fn model_name_of(t: EntityType) -> (s: &'static str)
    ensures
        s@ == model_name(t),
{
    match t {
        EntityType::Container => "ContainerEntity",
        EntityType::Creator => "CreatorEntity",
        EntityType::File => "FileEntity",
        EntityType::Fileset => "FilesetEntity",
        EntityType::Webcapture => "WebcaptureEntity",
        EntityType::Release => "ReleaseEntity",
        EntityType::Work => "WorkEntity",
    }
}

/// The message that confirms the removal of an edit.
pub open spec fn edit_deleted_text(t: EntityType, edit_id: u128) -> Seq<char> {
    "Successfully deleted work-in-progress "@ + model_name(t) + " edit: "@ + uuid_text(edit_id)
}

pub open spec fn accepted_text() -> Seq<char> {
    "horray!"@
}

pub open spec fn auth_ok_text() -> Seq<char> {
    "auth check successful!"@
}

pub open spec fn id_mismatch_text() -> Seq<char> {
    "editor_id doesn't match"@
}

pub open spec fn unknown_role_text(role: Seq<char>) -> Seq<char> {
    "unknown auth role: "@ + role
}

pub open spec fn time_range_text() -> Seq<char> {
    "time is out of range"@
}

/// The number of seconds for which a token issued at sign-in is valid: 31 days.
pub open spec fn token_lifetime() -> int {
    31int * 86_400int
}

/// What a sign-in answers: the editor and the claims of a token for it.
#[derive(Debug, PartialEq, Eq)]
pub struct OidcReply {
    pub editor: Editor,
    pub token: TokenClaims,
}

impl Server {
    /// Authenticates a request and checks that the editor holds a role.
    fn authenticate(&self, cred: &Credential, now: i64, role: Role) -> (r: Result<AuthContext, FatcatError>)
        ensures
            match r {
                Ok(a) => authed(self@, *cred, now, role) == Ok::<AuthContext, ErrorView>(a),
                Err(e) => authed(self@, *cred, now, role) == Err::<AuthContext, ErrorView>(e@),
            },
    {
        let a = match self.catalog.require_auth(cred, now) {
            Ok(a) => a,
            Err(e) => {
                return Err(e);
            },
        };
        match a.require_role(role) {
            Ok(_) => Ok(a),
            Err(e) => Err(e),
        }
    }

    /// Authenticates a request to edit in an editgroup.
    fn enter_editgroup(&self, editgroup_id: &str, cred: &Credential, now: i64) -> (r: Result<
        EditContext,
        FatcatError,
    >)
        ensures
            match r {
                Ok(ctx) => editing_verdict(self@, editgroup_id@, *cred, now) == Ok::<
                    EditContext,
                    ErrorView,
                >(ctx) && context_verdict(self@, ctx) is Ok,
                Err(e) => editing_verdict(self@, editgroup_id@, *cred, now) == Err::<
                    EditContext,
                    ErrorView,
                >(e@),
            },
    {
        let g = match read_ident(editgroup_id) {
            Ok(g) => g,
            Err(e) => {
                return Err(e);
            },
        };
        let a = match self.authenticate(cred, now, Role::Editor) {
            Ok(a) => a,
            Err(e) => {
                return Err(e);
            },
        };
        match self.catalog.require_editgroup(&a, g) {
            Ok(_) => Ok(EditContext { editor_id: a.editor_id, editgroup_id: g, autoaccept: false }),
            Err(e) => Err(e),
        }
    }

    /// Authenticates a request to edit an identifier in an editgroup.
    fn enter_edit(&self, ident: &str, editgroup_id: &str, cred: &Credential, now: i64) -> (r: Result<
        (EditContext, u128),
        FatcatError,
    >)
        ensures
            match r {
                Ok((ctx, id)) => edit_request(self@, ident@, editgroup_id@, *cred, now) == Ok::<
                    (EditContext, u128),
                    ErrorView,
                >((ctx, id)) && context_verdict(self@, ctx) is Ok,
                Err(e) => edit_request(self@, ident@, editgroup_id@, *cred, now) == Err::<
                    (EditContext, u128),
                    ErrorView,
                >(e@),
            },
    {
        let g = match read_ident(editgroup_id) {
            Ok(g) => g,
            Err(e) => {
                return Err(e);
            },
        };
        let a = match self.authenticate(cred, now, Role::Editor) {
            Ok(a) => a,
            Err(e) => {
                return Err(e);
            },
        };
        let id = match read_ident(ident) {
            Ok(id) => id,
            Err(e) => {
                return Err(e);
            },
        };
        match self.catalog.require_editgroup(&a, g) {
            Ok(_) => Ok((EditContext { editor_id: a.editor_id, editgroup_id: g, autoaccept: false }, id)),
            Err(e) => Err(e),
        }
    }

    /// Creates an entity in an editgroup.
    pub fn create_entity(
        &mut self,
        t: EntityType,
        content: EntityContent,
        editgroup_id: &str,
        cred: &Credential,
        now: i64,
    ) -> (reply: Reply<EditRow>)
        requires
            old(self).wf(),
        ensures
            final(self).wf(),
            match editing_verdict(old(self)@, editgroup_id@, *cred, now) {
                Err(e) => failed(reply, e)
                    && final(self)@ == old(self)@,
                Ok(ctx) => match create_verdict(old(self)@, ctx, t, content@) {
                    Err(e) => failed(reply, e) && final(self)@ == old(self)@,
                    Ok(stored) => {
                        &&& created(reply, one(Metric::EntitiesCreated))
                        &&& reply.response->Created_0 == created_edit(old(self)@, ctx, t)
                        &&& final(self)@ == after_create(old(self)@, ctx, t, stored)
                    },
                },
            },
    {
        let ctx = match self.enter_editgroup(editgroup_id, cred, now) {
            Ok(c) => c,
            Err(e) => {
                return fail(e);
            },
        };
        match self.catalog.create_entity(&ctx, t, content) {
            Err(e) => fail(e),
            Ok(edit) => Reply {
                response: Response::Created(edit),
                reported: false,
                metrics: counted(Metric::EntitiesCreated),
            },
        }
    }

    /// Updates a live entity in an editgroup. `revision` is the revision
    /// that the caller saw, as the text of a UUID; `redirect`, where given,
    /// is the text of the identifier to which the entity is to redirect.
    pub fn update_entity(
        &mut self,
        t: EntityType,
        ident: &str,
        content: EntityContent,
        revision: Option<&str>,
        redirect: Option<&str>,
        editgroup_id: &str,
        cred: &Credential,
        now: i64,
    ) -> (reply: Reply<EditRow>)
        requires
            old(self).wf(),
        ensures
            final(self).wf(),
            match update_request(
                old(self)@,
                ident@,
                opt_str_view(revision),
                opt_str_view(redirect),
                editgroup_id@,
                *cred,
                now,
            ) {
                Err(e) => failed(reply, e)
                    && final(self)@ == old(self)@,
                Ok((ctx, id, rev, target)) => match update_verdict(
                    old(self)@,
                    ctx,
                    t,
                    id,
                    rev,
                    target,
                    content@,
                ) {
                    Err(e) => failed(reply, e) && final(self)@ == old(self)@,
                    Ok(stored) => {
                        &&& found(reply, one(Metric::EntitiesUpdated))
                        &&& reply.response->Found_0 == updated_edit(old(self)@, ctx, t, id, target)
                        &&& final(self)@ == after_update(old(self)@, ctx, t, id, target, stored)
                    },
                },
            },
    {
        let (ctx, id) = match self.enter_edit(ident, editgroup_id, cred, now) {
            Ok(p) => p,
            Err(e) => {
                return fail(e);
            },
        };
        let rev = match revision {
            None => None,
            Some(text) => match read_uuid(text) {
                Ok(r) => Some(r),
                Err(e) => {
                    return fail(e);
                },
            },
        };
        let target = match redirect {
            None => None,
            Some(text) => match read_ident(text) {
                Ok(r) => Some(r),
                Err(e) => {
                    return fail(e);
                },
            },
        };
        match self.catalog.update_entity(&ctx, t, id, rev, target, content) {
            Err(e) => fail(e),
            Ok(edit) => Reply {
                response: Response::Found(edit),
                reported: false,
                metrics: counted(Metric::EntitiesUpdated),
            },
        }
    }

    /// Deletes a live entity in an editgroup.
    pub fn delete_entity(&mut self, t: EntityType, ident: &str, editgroup_id: &str, cred: &Credential, now: i64) -> (reply:
        Reply<EditRow>)
        requires
            old(self).wf(),
        ensures
            final(self).wf(),
            match edit_request(old(self)@, ident@, editgroup_id@, *cred, now) {
                Err(e) => failed(reply, e)
                    && final(self)@ == old(self)@,
                Ok((ctx, id)) => match delete_verdict(old(self)@, ctx, t, id) {
                    Err(e) => failed(reply, e) && final(self)@ == old(self)@,
                    Ok(_) => {
                        &&& found(reply, one(Metric::EntitiesDeleted))
                        &&& reply.response->Found_0 == changed_edit(old(self)@, ctx, t, id, None, None)
                        &&& final(self)@ == old(self)@.with_edit(reply.response->Found_0)
                    },
                },
            },
    {
        let (ctx, id) = match self.enter_edit(ident, editgroup_id, cred, now) {
            Ok(p) => p,
            Err(e) => {
                return fail(e);
            },
        };
        match self.catalog.delete_entity(&ctx, t, id) {
            Err(e) => fail(e),
            Ok(edit) => Reply {
                response: Response::Found(edit),
                reported: false,
                metrics: counted(Metric::EntitiesDeleted),
            },
        }
    }

    /// Removes a work-in-progress edit. The editor must be allowed in the
    /// edit's editgroup, which must be open.
    pub fn delete_entity_edit(&mut self, t: EntityType, edit_id: &str, cred: &Credential, now: i64) -> (reply:
        Reply<Success>)
        requires
            old(self).wf(),
        ensures
            final(self).wf(),
            if uuid_of(edit_id@) is Err {
                failed(reply, uuid_of(edit_id@)->Err_0) && final(self)@ == old(self)@
            } else if authed(old(self)@, *cred, now, Role::Editor) is Err {
                failed(
                    reply,
                    authed(old(self)@, *cred, now, Role::Editor)->Err_0,
                ) && final(self)@ == old(self)@
            } else if get_edit_verdict(old(self)@, t, uuid_of(edit_id@)->Ok_0) is Err {
                failed(
                    reply,
                    get_edit_verdict(old(self)@, t, uuid_of(edit_id@)->Ok_0)->Err_0,
                ) && final(self)@ == old(self)@
            } else {
                let id = uuid_of(edit_id@)->Ok_0;
                let a = authed(old(self)@, *cred, now, Role::Editor)->Ok_0;
                match editgroup_verdict(old(self)@, a, old(self)@.edit(id).editgroup_id) {
                    Err(e) => failed(reply, e) && final(self)@ == old(self)@,
                    Ok(_) => {
                        &&& found(reply, Seq::empty())
                        &&& reply.response->Found_0.success
                        &&& reply.response->Found_0.message@ == edit_deleted_text(t, id)
                        &&& final(self)@ == old(self)@.without_edit(id)
                    },
                }
            },
    {
        let id = match read_uuid(edit_id) {
            Ok(id) => id,
            Err(e) => {
                return fail(e);
            },
        };
        let a = match self.authenticate(cred, now, Role::Editor) {
            Ok(a) => a,
            Err(e) => {
                return fail(e);
            },
        };
        let edit = match self.catalog.get_edit(t, id) {
            Ok(e) => e,
            Err(e) => {
                return fail(e);
            },
        };
        match self.catalog.require_editgroup(&a, edit.editgroup_id) {
            Ok(_) => {},
            Err(e) => {
                return fail(e);
            },
        }
        match self.catalog.delete_edit(t, id) {
            Err(e) => fail(e),
            Ok(_) => {
                let mut message = String::from_str("Successfully deleted work-in-progress ");
                message.append(model_name_of(t));
                message.append(" edit: ");
                let u = format_uuid(id);
                message.append(u.as_str());
                reply_found(Success { success: true, message })
            },
        }
    }

    /// Accepts an editgroup. The editor must be an admin.
    pub fn accept_editgroup(&mut self, editgroup_id: &str, cred: &Credential, now: i64) -> (reply: Reply<
        Success,
    >)
        requires
            old(self).wf(),
        ensures
            final(self).wf(),
            if ident_of(editgroup_id@) is Err {
                failed(reply, ident_of(editgroup_id@)->Err_0) && final(self)@ == old(self)@
            } else if authed(old(self)@, *cred, now, Role::Admin) is Err {
                failed(
                    reply,
                    authed(old(self)@, *cred, now, Role::Admin)->Err_0,
                ) && final(self)@ == old(self)@
            } else {
                let g = ident_of(editgroup_id@)->Ok_0;
                let a = authed(old(self)@, *cred, now, Role::Admin)->Ok_0;
                match editgroup_verdict(old(self)@, a, g) {
                    Err(e) => failed(reply, e) && final(self)@ == old(self)@,
                    Ok(_) => if accept_ok(old(self)@, g) {
                        &&& found(reply, one(Metric::EditgroupAccepted))
                        &&& reply.response->Found_0.success
                        &&& reply.response->Found_0.message@ == accepted_text()
                        &&& final(self)@ == after_accept(old(self)@, g, now)
                    } else {
                        &&& final(self)@ == old(self)@
                        &&& exists|e: ErrorView|
                            accept_error(old(self)@, g, e) && #[trigger] failed(reply, e)
                    },
                }
            },
    {
        let g = match read_ident(editgroup_id) {
            Ok(g) => g,
            Err(e) => {
                return fail(e);
            },
        };
        let a = match self.authenticate(cred, now, Role::Admin) {
            Ok(a) => a,
            Err(e) => {
                return fail(e);
            },
        };
        match self.catalog.require_editgroup(&a, g) {
            Ok(_) => {},
            Err(e) => {
                return fail(e);
            },
        }
        match self.catalog.accept_editgroup(g, now) {
            Err(e) => {
                let ghost ev = e@;
                let reply = fail(e);
                assert(failed(reply, ev));
                reply
            },
            Ok(_) => Reply {
                response: Response::Found(Success { success: true, message: String::from_str("horray!") }),
                reported: false,
                metrics: counted(Metric::EditgroupAccepted),
            },
        }
    }
}

/// The verdict on a request to open an editgroup: the editor in whose name
/// it is opened. An editor opens editgroups in their own name; only an admin
/// opens them in the name of another.
pub open spec fn editgroup_owner(a: AuthContext, editor_id: Option<Seq<char>>) -> Result<u128, ErrorView> {
    match editor_id {
        None => Ok(a.editor_id),
        Some(text) => if text != fcid_text(a.editor_id) && !a.spec_has_role(Role::Admin) {
            Err(ErrorView::InsufficientPrivileges(Role::Admin))
        } else {
            ident_of(text)
        },
    }
}

/// The editgroup that a request opens.
pub open spec fn opened_editgroup(
    c: CatalogView,
    owner: u128,
    description: Option<Seq<char>>,
    extra: Option<Seq<char>>,
    now: i64,
) -> EditgroupView {
    EditgroupView {
        editgroup_id: (c.editgroups.len() + 1) as u128,
        editor_id: owner,
        created_at: now,
        submitted_at: None,
        changelog_id: None,
        description,
        extra,
    }
}

impl Server {
    /// A server over a catalog.
    pub fn with_catalog(catalog: Catalog) -> (s: Server)
        requires
            catalog.wf(),
        ensures
            s.wf(),
            s@ == catalog@,
    {
        Server { catalog }
    }

    /// The catalog, to change outside a request: to set up the first
    /// editors, and to revoke tokens.
    pub fn into_catalog(self) -> (c: Catalog)
        ensures
            c@ == self@,
    {
        self.catalog
    }

    /// Opens an editgroup, in the name of the editor who asks or, for an
    /// admin, in the name of `editor_id`.
    pub fn create_editgroup(
        &mut self,
        editor_id: Option<&str>,
        description: &Option<String>,
        extra: &Option<String>,
        cred: &Credential,
        now: i64,
    ) -> (reply: Reply<Editgroup>)
        requires
            old(self).wf(),
        ensures
            final(self).wf(),
            if authed(old(self)@, *cred, now, Role::Editor) is Err {
                failed(
                    reply,
                    authed(old(self)@, *cred, now, Role::Editor)->Err_0,
                ) && final(self)@ == old(self)@
            } else {
                let a = authed(old(self)@, *cred, now, Role::Editor)->Ok_0;
                match editgroup_owner(a, opt_str_view(editor_id)) {
                    Err(e) => failed(reply, e) && final(self)@ == old(self)@,
                    Ok(owner) => if !old(self)@.has_editor(owner) {
                        failed(
                            reply,
                            ErrorView::NotFound(Resource::Editor(owner)),
                        ) && final(self)@ == old(self)@
                    } else {
                        let g = opened_editgroup(
                            old(self)@,
                            owner,
                            opt_text_view(*description),
                            opt_text_view(*extra),
                            now,
                        );
                        &&& created(reply, one(Metric::EditgroupCreated))
                        &&& reply.response->Created_0@ == g
                        &&& final(self)@ == old(self)@.with_editgroup(g)
                    },
                }
            },
    {
        let a = match self.authenticate(cred, now, Role::Editor) {
            Ok(a) => a,
            Err(e) => {
                return fail(e);
            },
        };
        let owner = match editor_id {
            None => a.editor_id,
            Some(text) => {
                let own = FatcatId(a.editor_id).to_string();
                if !crate::text::text_eq(text, own.as_str()) && !a.has_role(Role::Admin) {
                    return fail(FatcatError::InsufficientPrivileges(Role::Admin));
                }
                match read_ident(text) {
                    Ok(id) => id,
                    Err(e) => {
                        return fail(e);
                    },
                }
            },
        };
        match self.catalog.create_editgroup(owner, description, extra, now) {
            Err(e) => fail(e),
            Ok(g) => Reply {
                response: Response::Created(g),
                reported: false,
                metrics: counted(Metric::EditgroupCreated),
            },
        }
    }

    /// Gives an editor a new username. `editor_id` is the identifier in the
    /// request's path and `body_editor_id` that in its body; they must be
    /// the same text. An editor renames themselves; only an admin renames
    /// another.
    pub fn update_editor(
        &mut self,
        editor_id: &str,
        body_editor_id: Option<&str>,
        username: &str,
        cred: &Credential,
        now: i64,
    ) -> (reply: Reply<Editor>)
        requires
            old(self).wf(),
        ensures
            final(self).wf(),
            if opt_str_view(body_editor_id) != Some(editor_id@) {
                failed(
                    reply,
                    ErrorView::OtherBadRequest(id_mismatch_text()),
                ) && final(self)@ == old(self)@
            } else if auth_verdict(old(self)@, *cred, now) is Err {
                failed(
                    reply,
                    auth_verdict(old(self)@, *cred, now)->Err_0,
                ) && final(self)@ == old(self)@
            } else if ident_of(editor_id@) is Err {
                failed(reply, ident_of(editor_id@)->Err_0) && final(self)@ == old(self)@
            } else {
                let a = auth_verdict(old(self)@, *cred, now)->Ok_0;
                let id = ident_of(editor_id@)->Ok_0;
                let role = if id == a.editor_id {
                    Role::Editor
                } else {
                    Role::Admin
                };
                if !a.spec_has_role(role) {
                    failed(
                        reply,
                        ErrorView::InsufficientPrivileges(role),
                    ) && final(self)@ == old(self)@
                } else if !old(self)@.has_editor(id) {
                    failed(
                        reply,
                        ErrorView::NotFound(Resource::Editor(id)),
                    ) && final(self)@ == old(self)@
                } else if old(self)@.username_taken(username@) && old(self)@.editor(id).username
                    != username@ {
                    failed(
                        reply,
                        ErrorView::DatabaseError(username_taken_text()),
                    ) && final(self)@ == old(self)@
                } else {
                    let e = EditorView { username: username@, ..old(self)@.editor(id) };
                    &&& found(reply, Seq::empty())
                    &&& reply.response->Found_0@ == e
                    &&& final(self)@ == old(self)@.with_editor_row(id, e)
                }
            },
    {
        let same = match body_editor_id {
            Some(b) => crate::text::text_eq(b, editor_id),
            None => false,
        };
        if !same {
            return fail(FatcatError::OtherBadRequest(String::from_str("editor_id doesn't match")));
        }
        let a = match self.catalog.require_auth(cred, now) {
            Ok(a) => a,
            Err(e) => {
                return fail(e);
            },
        };
        let id = match read_ident(editor_id) {
            Ok(id) => id,
            Err(e) => {
                return fail(e);
            },
        };
        let role = if id == a.editor_id {
            Role::Editor
        } else {
            Role::Admin
        };
        match a.require_role(role) {
            Ok(_) => {},
            Err(e) => {
                return fail(e);
            },
        }
        match self.catalog.update_editor_username(id, username) {
            Err(e) => fail(e),
            Ok(e) => reply_found(e),
        }
    }

    /// Signs an account of an identity provider in, for a superuser, and
    /// gives the claims of a token for the editor that is valid for 31 days.
    pub fn auth_oidc(
        &mut self,
        provider: &str,
        sub: &str,
        iss: &str,
        preferred_username: &str,
        cred: &Credential,
        now: i64,
    ) -> (reply: Reply<OidcReply>)
        requires
            old(self).wf(),
        ensures
            final(self).wf(),
            if authed(old(self)@, *cred, now, Role::Superuser) is Err {
                failed(
                    reply,
                    authed(old(self)@, *cred, now, Role::Superuser)->Err_0,
                ) && final(self)@ == old(self)@
            } else if now + token_lifetime() > i64::MAX {
                failed(
                    reply,
                    ErrorView::InternalError(time_range_text()),
                ) && final(self)@ == old(self)@
            } else if old(self)@.has_oidc_link(provider@, sub@) {
                let id = old(self)@.oidc_editor(provider@, sub@);
                &&& found(reply, one(Metric::AccountLogin))
                &&& reply.response->Found_0.editor@ == old(self)@.editor(id)
                &&& reply.response->Found_0.token == (TokenClaims {
                    editor_id: id,
                    issued_at: now,
                    expires_at: Some((now + token_lifetime()) as i64),
                })
                &&& final(self)@ == old(self)@
            } else if old(self)@.username_taken(preferred_username@) && longest_username(
                old(self)@.editors,
                old(self)@.editors.len() as int,
            ) >= usize::MAX {
                failed(
                    reply,
                    ErrorView::InternalError(username_too_long_text()),
                ) && final(self)@ == old(self)@
            } else {
                let e = EditorView {
                    editor_id: (old(self)@.editors.len() + 1) as u128,
                    username: old(self)@.free_username(preferred_username@),
                    is_admin: false,
                    is_bot: false,
                    is_superuser: false,
                    auth_epoch: now,
                    wrangler_id: None,
                };
                &&& created(reply, one(Metric::AccountSignup))
                &&& reply.response->Created_0.editor@ == e
                &&& reply.response->Created_0.token == (TokenClaims {
                    editor_id: e.editor_id,
                    issued_at: now,
                    expires_at: Some((now + token_lifetime()) as i64),
                })
                &&& final(self)@ == old(self)@.with_editor(e).with_oidc(
                    OidcLinkView { provider: provider@, sub: sub@, iss: iss@, editor_id: e.editor_id },
                )
            },
    {
        match self.authenticate(cred, now, Role::Superuser) {
            Ok(_) => {},
            Err(e) => {
                return fail(e);
            },
        }
        let lifetime = seconds_in_days(31);
        let expires = match now.checked_add(lifetime) {
            Some(t) => t,
            None => {
                return fail(FatcatError::InternalError(String::from_str("time is out of range")));
            },
        };
        match self.catalog.auth_oidc(provider, sub, iss, preferred_username, now) {
            Err(e) => fail(e),
            Ok((editor, was_created)) => {
                let token = TokenClaims {
                    editor_id: editor.editor_id,
                    issued_at: now,
                    expires_at: Some(expires),
                };
                if was_created {
                    let reply = Reply {
                        response: Response::Created(OidcReply { editor, token }),
                        reported: false,
                        metrics: counted(Metric::AccountSignup),
                    };
                    reply
                } else {
                    proof {
                        let c = old(self)@;
                        let id = c.oidc_editor(provider@, sub@);
                        assert(c.editors[id - 1].editor_id == id);
                    }
                    let reply = Reply {
                        response: Response::Found(OidcReply { editor, token }),
                        reported: false,
                        metrics: counted(Metric::AccountLogin),
                    };
                    reply
                }
            },
        }
    }

    /// Checks a credential, and that its editor holds a role where one is named.
    pub fn auth_check(&self, role: Option<&str>, cred: &Credential, now: i64) -> (reply: Reply<Success>)
        requires
            self.wf(),
        ensures
            match auth_verdict(self@, *cred, now) {
                Err(e) => failed(reply, e),
                Ok(a) => match role {
                    None => found(reply, Seq::empty()) && reply.response->Found_0.success
                        && reply.response->Found_0.message@ == auth_ok_text(),
                    Some(name) => match role_of_name(name@) {
                        None => failed(reply, ErrorView::OtherBadRequest(unknown_role_text(name@))),
                        Some(r) => if a.spec_has_role(r) {
                            found(reply, Seq::empty()) && reply.response->Found_0.success
                                && reply.response->Found_0.message@ == auth_ok_text()
                        } else {
                            failed(reply, ErrorView::InsufficientPrivileges(r))
                        },
                    },
                },
            },
    {
        let a = match self.catalog.require_auth(cred, now) {
            Ok(a) => a,
            Err(e) => {
                return fail(e);
            },
        };
        match role {
            None => {},
            Some(name) => match crate::auth::parse_role(name) {
                None => {
                    let mut m = String::from_str("unknown auth role: ");
                    m.append(name);
                    return fail(FatcatError::OtherBadRequest(m));
                },
                Some(r) => match a.require_role(r) {
                    Ok(_) => {},
                    Err(e) => {
                        return fail(e);
                    },
                },
            },
        }
        reply_found(Success { success: true, message: String::from_str("auth check successful!") })
    }
}

pub open spec fn opt_param(k: ExtIdKind, v: Option<&str>) -> (ExtIdKind, Option<Seq<char>>) {
    (k, opt_str_view(v))
}

/// The counters that a batch raises: one for each entity that was created,
/// and, where `autoaccept` was asked for, one for the editgroup that was
/// opened and one for its acceptance.
pub open spec fn batch_metrics(n: nat, autoaccept: Option<bool>) -> Seq<MetricCount> {
    let made = seq![MetricCount { metric: Metric::EntitiesCreated, count: n as u64 }];
    if autoaccept == Some(true) {
        made + seq![
            MetricCount { metric: Metric::EditgroupCreated, count: 1 },
            MetricCount { metric: Metric::EditgroupAccepted, count: 1 },
        ]
    } else {
        made
    }
}

impl Server {
    /// Creates one entity for each of the contents, all or none. With an
    /// editgroup, the entities are created in it; with `autoaccept` and
    /// none, an editgroup is opened for them; with `autoaccept`, the
    /// editgroup is accepted at the end.
    pub fn create_entity_batch(
        &mut self,
        t: EntityType,
        contents: &Vec<EntityContent>,
        autoaccept: Option<bool>,
        editgroup_id: Option<&str>,
        cred: &Credential,
        now: i64,
    ) -> (reply: Reply<Vec<EditRow>>)
        requires
            old(self).wf(),
        ensures
            final(self).wf(),
            if authed(old(self)@, *cred, now, Role::Editor) is Err {
                failed(
                    reply,
                    authed(old(self)@, *cred, now, Role::Editor)->Err_0,
                ) && final(self)@ == old(self)@
            } else if editgroup_id is Some && ident_of(editgroup_id->0@) is Err {
                failed(reply, ident_of(editgroup_id->0@)->Err_0) && final(self)@ == old(self)@
            } else if editgroup_id is Some && editgroup_verdict(
                old(self)@,
                authed(old(self)@, *cred, now, Role::Editor)->Ok_0,
                ident_of(editgroup_id->0@)->Ok_0,
            ) is Err {
                failed(
                    reply,
                    editgroup_verdict(
                        old(self)@,
                        authed(old(self)@, *cred, now, Role::Editor)->Ok_0,
                        ident_of(editgroup_id->0@)->Ok_0,
                    )->Err_0,
                ) && final(self)@ == old(self)@
            } else {
                let a = authed(old(self)@, *cred, now, Role::Editor)->Ok_0;
                let g = match editgroup_id {
                    Some(text) => Some(ident_of(text@)->Ok_0),
                    None => None,
                };
                let auto = autoaccept == Some(true);
                match reply.response {
                    Response::Created(edits) => {
                        &&& created(reply, batch_metrics(edits@.len(), autoaccept))
                        &&& batch_result(
                            old(self)@,
                            a.editor_id,
                            g,
                            auto,
                            t,
                            contents_view(contents@),
                            now,
                            final(self)@,
                            Ok::<Seq<EditRow>, ErrorView>(edits@),
                        )
                    },
                    _ => exists|e: ErrorView|
                        batch_result(
                            old(self)@,
                            a.editor_id,
                            g,
                            auto,
                            t,
                            contents_view(contents@),
                            now,
                            final(self)@,
                            Err::<Seq<EditRow>, ErrorView>(e),
                        ) && #[trigger] failed(reply, e),
                }
            },
    {
        let a = match self.authenticate(cred, now, Role::Editor) {
            Ok(a) => a,
            Err(e) => {
                return fail(e);
            },
        };
        let g = match editgroup_id {
            None => None,
            Some(text) => {
                let g = match read_ident(text) {
                    Ok(g) => g,
                    Err(e) => {
                        return fail(e);
                    },
                };
                match self.catalog.require_editgroup(&a, g) {
                    Ok(_) => {},
                    Err(e) => {
                        return fail(e);
                    },
                }
                Some(g)
            },
        };
        let auto = match autoaccept {
            Some(b) => b,
            None => false,
        };
        match self.catalog.create_batch(a.editor_id, g, auto, t, contents, now) {
            Err(e) => {
                let ghost ev = e@;
                let reply = fail(e);
                assert(failed(reply, ev));
                reply
            },
            Ok(edits) => {
                let mut metrics: Vec<MetricCount> = Vec::new();
                metrics.push(MetricCount { metric: Metric::EntitiesCreated, count: edits.len() as u64 });
                if auto {
                    metrics.push(MetricCount { metric: Metric::EditgroupCreated, count: 1 });
                    metrics.push(MetricCount { metric: Metric::EditgroupAccepted, count: 1 });
                }
                assert(metrics@ =~= batch_metrics(edits@.len(), autoaccept));
                Reply { response: Response::Created(edits), reported: false, metrics }
            },
        }
    }

    /// Looks a release up by one of its external identifiers.
    pub fn lookup_release(
        &self,
        doi: Option<&str>,
        wikidata_qid: Option<&str>,
        isbn13: Option<&str>,
        pmid: Option<&str>,
        pmcid: Option<&str>,
        core_id: Option<&str>,
        expand: Option<&str>,
        hide: Option<&str>,
    ) -> (reply: Reply<EntityReply>)
        requires
            self.wf(),
        ensures
            lookup_answer(
                self@,
                EntityType::Release,
                seq![
                    opt_param(ExtIdKind::Doi, doi),
                    opt_param(ExtIdKind::WikidataQid, wikidata_qid),
                    opt_param(ExtIdKind::Isbn13, isbn13),
                    opt_param(ExtIdKind::Pmid, pmid),
                    opt_param(ExtIdKind::Pmcid, pmcid),
                    opt_param(ExtIdKind::CoreId, core_id),
                ],
                opt_str_view(expand),
                opt_str_view(hide),
                reply,
            ),
    {
        let params = vec![
            (ExtIdKind::Doi, doi),
            (ExtIdKind::WikidataQid, wikidata_qid),
            (ExtIdKind::Isbn13, isbn13),
            (ExtIdKind::Pmid, pmid),
            (ExtIdKind::Pmcid, pmcid),
            (ExtIdKind::CoreId, core_id),
        ];
        assert(params_view(params@) =~= seq![
            opt_param(ExtIdKind::Doi, doi),
            opt_param(ExtIdKind::WikidataQid, wikidata_qid),
            opt_param(ExtIdKind::Isbn13, isbn13),
            opt_param(ExtIdKind::Pmid, pmid),
            opt_param(ExtIdKind::Pmcid, pmcid),
            opt_param(ExtIdKind::CoreId, core_id),
        ]);
        self.lookup(EntityType::Release, &params, expand, hide)
    }

    /// Looks a file up by one of its digests.
    pub fn lookup_file(
        &self,
        md5: Option<&str>,
        sha1: Option<&str>,
        sha256: Option<&str>,
        expand: Option<&str>,
        hide: Option<&str>,
    ) -> (reply: Reply<EntityReply>)
        requires
            self.wf(),
        ensures
            lookup_answer(
                self@,
                EntityType::File,
                seq![
                    opt_param(ExtIdKind::Md5, md5),
                    opt_param(ExtIdKind::Sha1, sha1),
                    opt_param(ExtIdKind::Sha256, sha256),
                ],
                opt_str_view(expand),
                opt_str_view(hide),
                reply,
            ),
    {
        let params = vec![(ExtIdKind::Md5, md5), (ExtIdKind::Sha1, sha1), (ExtIdKind::Sha256, sha256)];
        assert(params_view(params@) =~= seq![
            opt_param(ExtIdKind::Md5, md5),
            opt_param(ExtIdKind::Sha1, sha1),
            opt_param(ExtIdKind::Sha256, sha256),
        ]);
        self.lookup(EntityType::File, &params, expand, hide)
    }

    /// Looks a container up by its ISSN-L or its Wikidata item.
    pub fn lookup_container(
        &self,
        issnl: Option<&str>,
        wikidata_qid: Option<&str>,
        expand: Option<&str>,
        hide: Option<&str>,
    ) -> (reply: Reply<EntityReply>)
        requires
            self.wf(),
        ensures
            lookup_answer(
                self@,
                EntityType::Container,
                seq![
                    opt_param(ExtIdKind::Issnl, issnl),
                    opt_param(ExtIdKind::WikidataQid, wikidata_qid),
                ],
                opt_str_view(expand),
                opt_str_view(hide),
                reply,
            ),
    {
        let params = vec![(ExtIdKind::Issnl, issnl), (ExtIdKind::WikidataQid, wikidata_qid)];
        assert(params_view(params@) =~= seq![
            opt_param(ExtIdKind::Issnl, issnl),
            opt_param(ExtIdKind::WikidataQid, wikidata_qid),
        ]);
        self.lookup(EntityType::Container, &params, expand, hide)
    }

    /// Looks a creator up by their ORCID or their Wikidata item.
    pub fn lookup_creator(
        &self,
        orcid: Option<&str>,
        wikidata_qid: Option<&str>,
        expand: Option<&str>,
        hide: Option<&str>,
    ) -> (reply: Reply<EntityReply>)
        requires
            self.wf(),
        ensures
            lookup_answer(
                self@,
                EntityType::Creator,
                seq![
                    opt_param(ExtIdKind::Orcid, orcid),
                    opt_param(ExtIdKind::WikidataQid, wikidata_qid),
                ],
                opt_str_view(expand),
                opt_str_view(hide),
                reply,
            ),
    {
        let params = vec![(ExtIdKind::Orcid, orcid), (ExtIdKind::WikidataQid, wikidata_qid)];
        assert(params_view(params@) =~= seq![
            opt_param(ExtIdKind::Orcid, orcid),
            opt_param(ExtIdKind::WikidataQid, wikidata_qid),
        ]);
        self.lookup(EntityType::Creator, &params, expand, hide)
    }

    /// The files that hold a release.
    pub fn get_release_files(&self, ident: &str, hide: Option<&str>) -> (reply: Reply<Vec<Entity>>)
        requires
            self.wf(),
        ensures
            referrers_answer(
                self@,
                EntityType::File,
                EntityType::Release,
                ident@,
                opt_str_view(hide),
                reply,
            ),
    {
        self.get_referrers(EntityType::File, EntityType::Release, ident, hide)
    }

    /// The filesets that hold a release.
    pub fn get_release_filesets(&self, ident: &str, hide: Option<&str>) -> (reply: Reply<Vec<Entity>>)
        requires
            self.wf(),
        ensures
            referrers_answer(
                self@,
                EntityType::Fileset,
                EntityType::Release,
                ident@,
                opt_str_view(hide),
                reply,
            ),
    {
        self.get_referrers(EntityType::Fileset, EntityType::Release, ident, hide)
    }

    /// The web captures that hold a release.
    pub fn get_release_webcaptures(&self, ident: &str, hide: Option<&str>) -> (reply: Reply<Vec<Entity>>)
        requires
            self.wf(),
        ensures
            referrers_answer(
                self@,
                EntityType::Webcapture,
                EntityType::Release,
                ident@,
                opt_str_view(hide),
                reply,
            ),
    {
        self.get_referrers(EntityType::Webcapture, EntityType::Release, ident, hide)
    }

    /// The releases of a work.
    pub fn get_work_releases(&self, ident: &str, hide: Option<&str>) -> (reply: Reply<Vec<Entity>>)
        requires
            self.wf(),
        ensures
            referrers_answer(
                self@,
                EntityType::Release,
                EntityType::Work,
                ident@,
                opt_str_view(hide),
                reply,
            ),
    {
        self.get_referrers(EntityType::Release, EntityType::Work, ident, hide)
    }

    /// The releases to which a creator contributed.
    pub fn get_creator_releases(&self, ident: &str, hide: Option<&str>) -> (reply: Reply<Vec<Entity>>)
        requires
            self.wf(),
        ensures
            referrers_answer(
                self@,
                EntityType::Release,
                EntityType::Creator,
                ident@,
                opt_str_view(hide),
                reply,
            ),
    {
        self.get_referrers(EntityType::Release, EntityType::Creator, ident, hide)
    }
}

impl Server {
    /// Creates again an entity that is work in progress in an editgroup:
    /// the editgroup's edit on it is replaced, not added to.
    pub fn recreate_entity(
        &mut self,
        t: EntityType,
        ident: &str,
        content: EntityContent,
        editgroup_id: &str,
        cred: &Credential,
        now: i64,
    ) -> (reply: Reply<EditRow>)
        requires
            old(self).wf(),
        ensures
            final(self).wf(),
            match edit_request(old(self)@, ident@, editgroup_id@, *cred, now) {
                Err(e) => failed(reply, e)
                    && final(self)@ == old(self)@,
                Ok((ctx, id)) => match recreate_verdict(old(self)@, ctx, t, id, content@) {
                    Err(e) => failed(reply, e) && final(self)@ == old(self)@,
                    Ok(stored) => {
                        &&& created(reply, one(Metric::EntitiesCreated))
                        &&& reply.response->Created_0 == recreated_edit(old(self)@, ctx, t, id)
                        &&& final(self)@ == after_recreate(old(self)@, ctx, t, id, stored)
                    },
                },
            },
    {
        let (ctx, id) = match self.enter_edit(ident, editgroup_id, cred, now) {
            Ok(p) => p,
            Err(e) => {
                return fail(e);
            },
        };
        match self.catalog.recreate_entity(&ctx, t, id, content) {
            Err(e) => fail(e),
            Ok(edit) => Reply {
                response: Response::Created(edit),
                reported: false,
                metrics: counted(Metric::EntitiesCreated),
            },
        }
    }
}

} // verus!

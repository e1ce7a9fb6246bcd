//! Which renderer id a template has, and whether the renderer has to create it again.
use fxhash::FxHashMap;
use vstd::prelude::*;

use crate::ids::RendererTemplateId;
use crate::location::{LocationParts, TemplateId};

verus! {

/// The hasher of `fxhash`.
#[verifier::external_type_specification]
#[verifier::external_body]
pub struct ExFxHasher(fxhash::FxHasher);

/// The hasher factory of the standard library that makes a hasher with `Default`.
#[verifier::external_type_specification]
#[verifier::external_body]
#[verifier::reject_recursive_types(H)]
pub struct ExBuildHasherDefault<H>(std::hash::BuildHasherDefault<H>);

/// What a template is found by: the parts of its location.
pub type LocationKey = (String, String, u32, u32);

/// The table of the templates: their number in the renderer, and whether they are dirty.
pub type TemplateTable = FxHashMap<LocationKey, (usize, bool)>;

/// The mathematical view of a [`TemplateTable`].
pub type TemplateEntries = Map<LocationParts, (usize, bool)>;

/// What the table holds.
pub uninterp spec fn entries(
    table: FxHashMap<(String, String, u32, u32), (usize, bool)>,
) -> Map<(Seq<char>, Seq<char>, u32, u32), (usize, bool)>;

/// The parts that a key stands for.
pub open spec fn key_parts(key: LocationKey) -> LocationParts {
    (key.0@, key.1@, key.2, key.3)
}

/// `FxHashMap::default`, that is `HashMap::default` with the hasher of `fxhash`, makes an empty table.
#[verifier::external_body]
fn new_table() -> (res: TemplateTable)
    ensures
        entries(res) == TemplateEntries::empty(),
{
    FxHashMap::default()
}

/// `HashMap::get` finds the value of a key. The keys are tuples of strings and numbers, whose `Eq` and
/// `Hash` are those of the standard library, and `FxHasher` starts from the same state every time.
#[verifier::external_body]
fn table_get<'a>(table: &'a TemplateTable, key: &LocationKey) -> (res: Option<&'a (usize, bool)>)
    ensures
        match res {
            Some(entry) => {
                &&& entries(*table).contains_key(key_parts(*key))
                &&& *entry == entries(*table)[key_parts(*key)]
            },
            None => !entries(*table).contains_key(key_parts(*key)),
        },
{
    table.get(key)
}

/// `HashMap::get_mut` finds the value of a key. What is written to it is then the value of that key;
/// the rest of the table stays as it is.
#[verifier::external_body]
fn table_get_mut<'a>(table: &'a mut TemplateTable, key: &LocationKey) -> (res: Option<
    &'a mut (usize, bool),
>)
    ensures
        match res {
            Some(entry) => {
                &&& entries(*old(table)).contains_key(key_parts(*key))
                &&& *entry == entries(*old(table))[key_parts(*key)]
                &&& entries(*final(table)) == entries(*old(table)).insert(
                    key_parts(*key),
                    *final(entry),
                )
            },
            None => {
                &&& !entries(*old(table)).contains_key(key_parts(*key))
                &&& entries(*final(table)) == entries(*old(table))
            },
        },
{
    table.get_mut(key)
}

/// `HashMap::insert` gives a key a value, and returns the value that the key had before. That there is
/// memory for a table that has to grow, without which the call does not return, is not stated.
#[verifier::external_body]
fn table_insert(table: &mut TemplateTable, key: LocationKey, entry: (usize, bool)) -> (res: Option<
    (usize, bool),
>)
    ensures
        entries(*final(table)) == entries(*old(table)).insert(key_parts(key), entry),
        res == if entries(*old(table)).contains_key(key_parts(key)) {
            Some(entries(*old(table))[key_parts(key)])
        } else {
            None
        },
{
    table.insert(key, entry)
}

/// What a template is found by.
fn location_key(id: &TemplateId) -> (res: LocationKey)
    ensures
        key_parts(res) == id@.parts(),
{
    let (crate_path, file_path, line, column) = id.0.hash_parts();
    (crate_path.to_owned(), file_path.to_owned(), line, column)
}

/// Gives every template an id in the renderer, and keeps which of them have to be created again.
pub struct TemplateResolver {
    /// Maps a template to its number in the renderer and whether it needs to be created again.
    pub template_id_mapping: TemplateTable,
    /// How many ids were given out.
    pub template_count: usize,
}

/// The mathematical view of a [`TemplateResolver`].
pub struct ResolverView {
    pub templates: TemplateEntries,
    pub count: nat,
}

impl View for TemplateResolver {
    type V = ResolverView;

    open spec fn view(&self) -> ResolverView {
        ResolverView {
            templates: entries(self.template_id_mapping),
            count: self.template_count as nat,
        }
    }
}

impl ResolverView {
    /// Ids are given out in order, and no two templates share one.
    pub open spec fn wf(self) -> bool {
        &&& self.templates.dom().finite()
        &&& self.templates.dom().len() == self.count
        &&& forall|a: LocationParts| #[trigger]
            self.templates.contains_key(a) ==> self.templates[a].0 < self.count
        &&& forall|a: LocationParts, b: LocationParts|
            #![trigger self.templates.contains_key(a), self.templates.contains_key(b)]
            self.templates.contains_key(a) && self.templates.contains_key(b) && a != b
                ==> self.templates[a].0 != self.templates[b].0
    }

    /// The template needs to be created again.
    pub open spec fn is_dirty(self, template: LocationParts) -> bool {
        self.templates.contains_key(template) && self.templates[template].1
    }

    /// What is left when a template was marked as dirty. Only a template that is known can be.
    pub open spec fn marked(self, template: LocationParts) -> ResolverView {
        if self.templates.contains_key(template) {
            ResolverView {
                templates: self.templates.insert(template, (self.templates[template].0, true)),
                count: self.count,
            }
        } else {
            self
        }
    }

    /// The id that a request for a template returns, and whether the request creates it.
    pub open spec fn requested_id(self, template: LocationParts) -> (nat, bool) {
        if self.templates.contains_key(template) {
            (self.templates[template].0 as nat, false)
        } else {
            (self.count, true)
        }
    }

    /// What is left when a template was requested.
    pub open spec fn requested(self, template: LocationParts) -> ResolverView {
        if self.templates.contains_key(template) {
            self
        } else {
            ResolverView {
                templates: self.templates.insert(template, (self.count as usize, false)),
                count: self.count + 1,
            }
        }
    }
}

impl Default for TemplateResolver {
    fn default() -> (res: Self)
        ensures
            res@.templates == TemplateEntries::empty(),
            res@.count == 0,
            res@.wf(),
    {
        TemplateResolver { template_id_mapping: new_table(), template_count: 0 }
    }
}

impl TemplateResolver {
    /// Marks a template as one that has to be created again. Returns whether the template is known;
    /// one that is not is left alone.
    pub fn mark_dirty(&mut self, id: &TemplateId) -> (res: bool)
        ensures
            res == old(self)@.templates.contains_key(id@.parts()),
            final(self)@ == old(self)@.marked(id@.parts()),
    {
        let key: LocationKey = location_key(id);
        match table_get_mut(&mut self.template_id_mapping, &key) {
            Some(entry) => {
                entry.1 = true;
                true
            },
            None => false,
        }
    }

    /// Whether a template has to be created again.
    pub fn is_dirty(&self, id: &TemplateId) -> (res: bool)
        ensures
            res == self@.is_dirty(id@.parts()),
    {
        let key: LocationKey = location_key(id);
        match table_get(&self.template_id_mapping, &key) {
            Some(entry) => entry.1,
            None => false,
        }
    }

    /// Whether a template has a renderer id.
    pub fn is_known(&self, id: &TemplateId) -> (res: bool)
        ensures
            res == self@.templates.contains_key(id@.parts()),
    {
        let key: LocationKey = location_key(id);
        table_get(&self.template_id_mapping, &key).is_some()
    }

    /// The renderer id of a template, which is created where the template has none yet, and whether
    /// it was. A template that has to be created again keeps its id: see
    /// [`TemplateResolver::is_dirty`].
    pub fn get_or_create_client_id(&mut self, template_id: &TemplateId) -> (res: (
        RendererTemplateId,
        bool,
    ))
        requires
            old(self)@.templates.contains_key(template_id@.parts()) || old(self).template_count
                < usize::MAX,
        ensures
            (res.0.0 as nat, res.1) == old(self)@.requested_id(template_id@.parts()),
            final(self)@ == old(self)@.requested(template_id@.parts()),
    {
        let key: LocationKey = location_key(template_id);
        if let Some(entry) = table_get(&self.template_id_mapping, &key) {
            (RendererTemplateId(entry.0), false)
        } else {
            let id: usize = self.template_count;
            let renderer_id = RendererTemplateId(id);
            let _ = table_insert(&mut self.template_id_mapping, key, (id, false));
            self.template_count += 1;
            (renderer_id, true)
        }
    }
}

/// Requests and marks keep ids in order and apart.
pub proof fn law_resolver_stays_well_formed(resolver: ResolverView, template: LocationParts)
    requires
        resolver.wf(),
        resolver.count <= usize::MAX,
    ensures
        resolver.marked(template).wf(),
        resolver.requested(template).wf(),
{
    let marked = resolver.marked(template);
    assert(marked.templates.dom() =~= resolver.templates.dom());
}

/// A template keeps its id, whatever else is requested or marked.
pub proof fn law_an_id_is_kept(
    resolver: ResolverView,
    template: LocationParts,
    other: LocationParts,
)
    requires
        resolver.templates.contains_key(template),
    ensures
        resolver.requested(other).requested_id(template).0 == resolver.requested_id(template).0,
        resolver.marked(other).requested_id(template).0 == resolver.requested_id(template).0,
{
}

/// A template that was requested is known from then on under the id that was returned. To request it
/// again returns that id, which is not created a second time, and changes nothing.
pub proof fn law_a_request_is_remembered(resolver: ResolverView, template: LocationParts)
    requires
        resolver.count <= usize::MAX,
    ensures
        resolver.requested(template).requested_id(template) == (
            resolver.requested_id(template).0,
            false,
        ),
        resolver.requested(template).requested(template) == resolver.requested(template),
{
}

/// A new id is none that any template has or ever had, so that two templates never share one.
pub proof fn law_ids_are_unique(resolver: ResolverView, a: LocationParts, b: LocationParts)
    requires
        resolver.wf(),
        a != b,
    ensures
        resolver.requested(a).requested_id(b).0 != resolver.requested_id(a).0,
{
}

/// A template is dirty after it was marked, if it is known, and stays so when it is requested: it is to
/// be created again under the id that it has, and no new id is created for it.
pub proof fn law_marked_templates_are_created_again(resolver: ResolverView, template: LocationParts)
    requires
        resolver.templates.contains_key(template),
    ensures
        resolver.marked(template).is_dirty(template),
        resolver.marked(template).requested(template).is_dirty(template),
        resolver.marked(template).requested_id(template) == (
            resolver.requested_id(template).0,
            false,
        ),
{
}

/// To mark a template makes no other template dirty, and one that is not known is not remembered.
pub proof fn law_marking_touches_one_template(
    resolver: ResolverView,
    template: LocationParts,
    other: LocationParts,
)
    requires
        other != template || !resolver.templates.contains_key(template),
    ensures
        resolver.marked(template).is_dirty(other) == resolver.is_dirty(other),
        resolver.marked(template).requested_id(other) == resolver.requested_id(other),
{
}

/// A new template is not dirty.
pub proof fn law_new_templates_are_clean(resolver: ResolverView, template: LocationParts)
    requires
        !resolver.templates.contains_key(template),
    ensures
        !resolver.requested(template).is_dirty(template),
{
}

/// A call that may change a resolver.
pub enum ResolverCall {
    /// [`TemplateResolver::mark_dirty`].
    MarkDirty { template: LocationParts },
    /// [`TemplateResolver::get_or_create_client_id`].
    Request { template: LocationParts },
}

impl ResolverCall {
    /// The template that the call is about.
    pub open spec fn template(self) -> LocationParts {
        match self {
            ResolverCall::MarkDirty { template } => template,
            ResolverCall::Request { template } => template,
        }
    }
}

impl ResolverView {
    /// The call can be made: a template that is not known needs an id that is left.
    pub open spec fn permits(self, call: ResolverCall) -> bool {
        match call {
            ResolverCall::MarkDirty { template } => true,
            ResolverCall::Request { template } => self.templates.contains_key(template)
                || self.count < usize::MAX,
        }
    }

    /// What is left after a call.
    pub open spec fn after_call(self, call: ResolverCall) -> ResolverView {
        match call {
            ResolverCall::MarkDirty { template } => self.marked(template),
            ResolverCall::Request { template } => self.requested(template),
        }
    }

    /// What is left after some calls, one after the other.
    pub open spec fn after(self, calls: Seq<ResolverCall>) -> ResolverView
        decreases calls.len(),
    {
        if calls.len() == 0 {
            self
        } else {
            self.after(calls.drop_last()).after_call(calls.last())
        }
    }

    /// The calls can be made one after the other.
    pub open spec fn permits_all(self, calls: Seq<ResolverCall>) -> bool {
        forall|i: int|
            0 <= i < calls.len() ==> self.after(calls.take(i)).permits(#[trigger] calls[i])
    }

    /// The template is known after the first `n` of the calls: it was before, or one of them
    /// requests it.
    pub open spec fn is_known_after(
        self,
        calls: Seq<ResolverCall>,
        n: int,
        template: LocationParts,
    ) -> bool {
        ||| self.templates.contains_key(template)
        ||| exists|i: int|
            0 <= i < n && #[trigger] calls[i] == (ResolverCall::Request { template })
    }
}

/// Ids stay in order and apart over any number of calls, and never more are given out than there are.
pub proof fn law_resolver_stays_well_formed_over_a_history(
    start: ResolverView,
    calls: Seq<ResolverCall>,
)
    requires
        start.wf(),
        start.count <= usize::MAX,
        start.permits_all(calls),
    ensures
        start.after(calls).wf(),
        start.after(calls).count <= usize::MAX,
    decreases calls.len(),
{
    if calls.len() > 0 {
        let before = calls.drop_last();
        assert(before =~= calls.take(calls.len() - 1));
        assert forall|i: int| 0 <= i < before.len() implies start.after(before.take(i)).permits(
            #[trigger] before[i],
        ) by {
            assert(before.take(i) =~= calls.take(i));
            assert(before[i] == calls[i]);
        }
        law_resolver_stays_well_formed_over_a_history(start, before);
        assert(start.after(calls.take(calls.len() - 1)).permits(calls[calls.len() - 1]));
        law_resolver_stays_well_formed(start.after(before), calls.last().template());
    }
}

/// The first calls of a list can be made if all of them can.
proof fn lemma_permits_some(start: ResolverView, calls: Seq<ResolverCall>, n: int)
    requires
        start.permits_all(calls),
        0 <= n <= calls.len(),
    ensures
        start.permits_all(calls.take(n)),
{
    let first = calls.take(n);
    assert forall|i: int| 0 <= i < first.len() implies start.after(first.take(i)).permits(
        #[trigger] first[i],
    ) by {
        assert(first.take(i) =~= calls.take(i));
        assert(first[i] == calls[i]);
    }
}

/// A call keeps the id of a template that is known.
proof fn lemma_one_call_keeps_an_id(
    resolver: ResolverView,
    call: ResolverCall,
    template: LocationParts,
)
    requires
        resolver.templates.contains_key(template),
    ensures
        resolver.after_call(call).templates.contains_key(template),
        resolver.after_call(call).templates[template].0 == resolver.templates[template].0,
{
}

/// An id that was returned is kept by the call that returned it.
proof fn lemma_a_request_keeps_its_id(resolver: ResolverView, template: LocationParts)
    requires
        resolver.templates.contains_key(template) || resolver.count < usize::MAX,
    ensures
        resolver.requested(template).templates.contains_key(template),
        resolver.requested(template).templates[template].0 == resolver.requested_id(template).0,
{
}

/// An id that was returned is kept over all later calls.
proof fn lemma_returned_id_is_kept(
    start: ResolverView,
    calls: Seq<ResolverCall>,
    i: int,
    n: int,
)
    requires
        0 <= i < n <= calls.len(),
        calls[i] is Request,
        start.after(calls.take(i)).permits(calls[i]),
    ensures
        start.after(calls.take(n)).templates.contains_key(calls[i].template()),
        start.after(calls.take(n)).templates[calls[i].template()].0 == start.after(
            calls.take(i),
        ).requested_id(calls[i].template()).0,
    decreases n,
{
    let before = start.after(calls.take(n - 1));
    assert(calls.take(n).drop_last() =~= calls.take(n - 1));
    assert(calls.take(n).last() == calls[n - 1]);
    assert(start.after(calls.take(n)) == before.after_call(calls[n - 1]));
    if i < n - 1 {
        lemma_returned_id_is_kept(start, calls, i, n - 1);
        lemma_one_call_keeps_an_id(before, calls[n - 1], calls[i].template());
    } else {
        lemma_a_request_keeps_its_id(before, calls[i].template());
    }
}

/// Over any number of calls, two requests return the same id exactly where they are for the same
/// template.
pub proof fn law_ids_are_unique_over_a_history(
    start: ResolverView,
    calls: Seq<ResolverCall>,
    i: int,
    j: int,
)
    requires
        start.wf(),
        start.count <= usize::MAX,
        start.permits_all(calls),
        0 <= i <= j < calls.len(),
        calls[i] is Request,
        calls[j] is Request,
    ensures
        start.after(calls.take(i)).requested_id(calls[i].template()).0 == start.after(
            calls.take(j),
        ).requested_id(calls[j].template()).0 <==> calls[i].template() == calls[j].template(),
{
    if i < j {
        lemma_permits_some(start, calls, j);
        law_resolver_stays_well_formed_over_a_history(start, calls.take(j));
        lemma_returned_id_is_kept(start, calls, i, j);
    }
}

proof fn lemma_known_after(
    start: ResolverView,
    calls: Seq<ResolverCall>,
    n: int,
    template: LocationParts,
)
    requires
        0 <= n <= calls.len(),
    ensures
        start.after(calls.take(n)).templates.contains_key(template) <==> start.is_known_after(
            calls,
            n,
            template,
        ),
    decreases n,
{
    if n > 0 {
        assert(calls.take(n).drop_last() =~= calls.take(n - 1));
        assert(calls.take(n).last() == calls[n - 1]);
        lemma_known_after(start, calls, n - 1, template);
        if start.is_known_after(calls, n, template) && !start.is_known_after(
            calls,
            n - 1,
            template,
        ) {
            assert(calls[n - 1] == (ResolverCall::Request { template }));
        }
    }
}

/// After any number of calls a template is known exactly where it was at the start or was requested,
/// and it is dirty exactly where it was at the start or was marked while it was known.
pub proof fn law_what_is_dirty_after_a_history(
    start: ResolverView,
    calls: Seq<ResolverCall>,
    template: LocationParts,
)
    ensures
        start.after(calls).templates.contains_key(template) <==> start.is_known_after(
            calls,
            calls.len() as int,
            template,
        ),
        start.after(calls).is_dirty(template) <==> {
            ||| start.is_dirty(template)
            ||| exists|i: int|
                {
                    &&& 0 <= i < calls.len()
                    &&& #[trigger] calls[i] == (ResolverCall::MarkDirty { template })
                    &&& start.is_known_after(calls, i, template)
                }
        },
    decreases calls.len(),
{
    lemma_known_after(start, calls, calls.len() as int, template);
    assert(calls.take(calls.len() as int) =~= calls);
    if calls.len() > 0 {
        let n = calls.len() - 1;
        let before = calls.drop_last();
        assert(before =~= calls.take(n));
        law_what_is_dirty_after_a_history(start, before, template);
        lemma_known_after(start, calls, n, template);
        assert forall|k: int| 0 <= k <= n implies #[trigger] start.is_known_after(
            before,
            k,
            template,
        ) == start.is_known_after(calls, k, template) by {
            assert(forall|i: int| 0 <= i < n ==> before[i] == #[trigger] calls[i]);
        }
        assert(forall|i: int| 0 <= i < n ==> before[i] == #[trigger] calls[i]);
    }
}

/// A request creates an id exactly where the template is not known. The id is the number of templates
/// that are known, so that ids are given out from zero on without a gap. The template is known
/// afterwards, and of no other template anything changes.
pub proof fn law_what_a_request_does(
    resolver: ResolverView,
    template: LocationParts,
    other: LocationParts,
)
    requires
        resolver.wf(),
        resolver.templates.contains_key(template) || resolver.count < usize::MAX,
    ensures
        resolver.requested_id(template).1 <==> !resolver.templates.contains_key(template),
        !resolver.templates.contains_key(template) ==> resolver.requested_id(template).0
            == resolver.templates.dom().len(),
        resolver.templates.contains_key(template) ==> resolver.requested_id(template).0
            == resolver.templates[template].0,
        resolver.requested(template).templates.dom() == resolver.templates.dom().insert(template),
        resolver.requested(template).templates[template].0 == resolver.requested_id(template).0,
        resolver.requested(template).templates[template].1 <==> resolver.is_dirty(template),
        resolver.templates.contains_key(other) && other != template ==> resolver.requested(
            template,
        ).templates[other] == resolver.templates[other],
        resolver.requested(template).count == resolver.requested(template).templates.dom().len(),
{
    assert(resolver.requested(template).templates.dom() =~= resolver.templates.dom().insert(
        template,
    ));
}

/// To mark a template leaves every id, every other mark and the number of templates as they were.
pub proof fn law_what_a_mark_does(
    resolver: ResolverView,
    template: LocationParts,
    other: LocationParts,
)
    ensures
        resolver.marked(template).templates.dom() == resolver.templates.dom(),
        resolver.marked(template).count == resolver.count,
        resolver.templates.contains_key(other) ==> resolver.marked(template).templates[other].0
            == resolver.templates[other].0,
        resolver.templates.contains_key(other) ==> (resolver.marked(template).templates[other].1
            <==> other == template || resolver.templates[other].1),
{
    assert(resolver.marked(template).templates.dom() =~= resolver.templates.dom());
}

/// A template is dirty exactly where it is known and its mark is set. Where no template is known, none
/// is dirty, and none has an id.
pub proof fn law_what_is_dirty(resolver: ResolverView, template: LocationParts)
    ensures
        resolver.is_dirty(template) ==> resolver.templates.contains_key(template),
        resolver.templates.contains_key(template) ==> resolver.is_dirty(template)
            == resolver.templates[template].1,
        resolver.templates.dom() == Set::<LocationParts>::empty() ==> !resolver.is_dirty(template)
            && resolver.requested_id(template).1,
{
}

/// The parts by which a template is found are all that its location says.
pub proof fn law_templates_are_found_by_their_location(id: TemplateId, key: LocationKey)
    ensures
        id@.parts().0 == id.0@.crate_path,
        id@.parts().1 == id.0@.file_path,
        id@.parts().2 == id.0@.line,
        id@.parts().3 == id.0@.column,
        key_parts(key).0 == key.0@,
        key_parts(key).1 == key.1@,
        key_parts(key).2 == key.2,
        key_parts(key).3 == key.3,
{
}

/// What a resolver says is what its table holds and how many ids were given out.
pub proof fn law_what_a_resolver_says(resolver: TemplateResolver)
    ensures
        resolver@.templates == entries(resolver.template_id_mapping),
        resolver@.count == resolver.template_count,
{
}

/// To mark a template marks it and tells whether it is known. A template is asked whether it is dirty or
/// known. A request returns the id of the template, tells whether it created it, and remembers it.
pub proof fn law_what_a_resolver_does(id: &TemplateId)
    ensures
        forall|resolver: &mut TemplateResolver, res: bool| #[trigger]
            call_ensures(TemplateResolver::mark_dirty, (resolver, id), res) ==> {
                &&& res <==> resolver@.templates.contains_key(id@.parts())
                &&& final(resolver)@ == resolver@.marked(id@.parts())
            },
        forall|resolver: &TemplateResolver, res: bool| #[trigger]
            call_ensures(TemplateResolver::is_dirty, (resolver, id), res) ==> (res
                <==> resolver@.templates.contains_key(id@.parts()) && resolver@.templates[id@.parts()].1),
        forall|resolver: &TemplateResolver, res: bool| #[trigger]
            call_ensures(TemplateResolver::is_known, (resolver, id), res) ==> (res
                <==> resolver@.templates.contains_key(id@.parts())),
        forall|resolver: &mut TemplateResolver, res: (RendererTemplateId, bool)| #[trigger]
            call_ensures(TemplateResolver::get_or_create_client_id, (resolver, id), res) && (
            resolver@.templates.contains_key(id@.parts()) || resolver@.count < usize::MAX) ==> {
                &&& res.0.0 == resolver@.requested_id(id@.parts()).0
                &&& res.1 <==> !resolver@.templates.contains_key(id@.parts())
                &&& final(resolver)@ == resolver@.requested(id@.parts())
            },
        forall|resolver: TemplateResolver| #[trigger]
            call_ensures(<TemplateResolver as Default>::default, (), resolver) ==> {
                &&& resolver@.templates.dom() == Set::<LocationParts>::empty()
                &&& resolver.template_count == 0
                &&& resolver@.wf()
            },
{
}

/// An id can be requested wherever the template is known or an id is left. Everything else can be asked
/// for at any time.
pub proof fn law_when_to_request(id: &TemplateId)
    ensures
        forall|resolver: &mut TemplateResolver|
            resolver@.templates.contains_key(id@.parts()) || resolver.template_count < usize::MAX
                ==> #[trigger] call_requires(
                TemplateResolver::get_or_create_client_id,
                (resolver, id),
            ),
        forall|resolver: &mut TemplateResolver| #[trigger]
            call_requires(TemplateResolver::mark_dirty, (resolver, id)),
        forall|resolver: &TemplateResolver| #[trigger]
            call_requires(TemplateResolver::is_dirty, (resolver, id)),
{
}

} // verus!

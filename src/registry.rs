//! The registry of documented operations and the document folded from it.

use vstd::prelude::*;

use crate::method::HttpMethod;
use crate::operation::{Operation, OperationView};

verus! {

/// One registered operation: its canonical path, its method, and what it
/// documents.
#[derive(Debug, PartialEq, Eq)]
pub struct RegistryEntry {
    pub path: String,
    pub method: HttpMethod,
    pub operation: Operation,
}

/// The mathematical content of a [`RegistryEntry`].
pub type EntryView = (Seq<char>, HttpMethod, OperationView);

impl View for RegistryEntry {
    type V = EntryView;

    open spec fn view(&self) -> EntryView {
        (self.path@, self.method, self.operation@)
    }
}

/// The operations documented under one path, one slot per method.
#[derive(Debug, PartialEq, Eq)]
pub struct PathItem {
    pub path: String,
    pub get: Option<Operation>,
    pub post: Option<Operation>,
    pub put: Option<Operation>,
    pub delete: Option<Operation>,
    pub head: Option<Operation>,
    pub options: Option<Operation>,
    pub connect: Option<Operation>,
    pub patch: Option<Operation>,
}

/// A path with the operations documented under it, by method.
pub type PathItemView = (Seq<char>, Map<HttpMethod, OperationView>);

/// Paths in the order in which they were first registered.
pub type PathsView = Seq<PathItemView>;

impl PathItem {
    /// The slot of method `m`.
    pub open spec fn slot(&self, m: HttpMethod) -> Option<Operation> {
        match m {
            HttpMethod::Get => self.get,
            HttpMethod::Post => self.post,
            HttpMethod::Put => self.put,
            HttpMethod::Delete => self.delete,
            HttpMethod::Head => self.head,
            HttpMethod::Options => self.options,
            HttpMethod::Connect => self.connect,
            HttpMethod::Patch => self.patch,
        }
    }

    /// A path item with the single operation `op` under method `m`.
    pub fn new(path: String, m: HttpMethod, op: Operation) -> (r: PathItem)
        ensures
            r@ == (path@, map![m => op@]),
    {
        let mut item = PathItem {
            path,
            get: None,
            post: None,
            put: None,
            delete: None,
            head: None,
            options: None,
            connect: None,
            patch: None,
        };
        let ghost op_view = op@;
        item.set(m, op);
        assert(item@.1 =~= map![m => op_view]);
        item
    }

    /// Puts `op` in the slot of method `m`, replacing what was there.
    pub fn set(&mut self, m: HttpMethod, op: Operation)
        ensures
            final(self)@ == (old(self)@.0, old(self)@.1.insert(m, op@)),
    {
        let ghost op_view = op@;
        match m {
            HttpMethod::Get => self.get = Some(op),
            HttpMethod::Post => self.post = Some(op),
            HttpMethod::Put => self.put = Some(op),
            HttpMethod::Delete => self.delete = Some(op),
            HttpMethod::Head => self.head = Some(op),
            HttpMethod::Options => self.options = Some(op),
            HttpMethod::Connect => self.connect = Some(op),
            HttpMethod::Patch => self.patch = Some(op),
        }
        assert(self@.1 =~= old(self)@.1.insert(m, op_view));
    }

    /// The operation documented under method `m`, if any.
    pub fn operation(&self, m: HttpMethod) -> (r: Option<&Operation>)
        ensures
            match r {
                Some(op) => self@.1.contains_key(m) && self@.1[m] == op@,
                None => !self@.1.contains_key(m),
            },
    {
        match m {
            HttpMethod::Get => self.get.as_ref(),
            HttpMethod::Post => self.post.as_ref(),
            HttpMethod::Put => self.put.as_ref(),
            HttpMethod::Delete => self.delete.as_ref(),
            HttpMethod::Head => self.head.as_ref(),
            HttpMethod::Options => self.options.as_ref(),
            HttpMethod::Connect => self.connect.as_ref(),
            HttpMethod::Patch => self.patch.as_ref(),
        }
    }
}

impl View for PathItem {
    type V = PathItemView;

    open spec fn view(&self) -> PathItemView {
        (
            self.path@,
            Map::new(|m: HttpMethod| self.slot(m) is Some, |m: HttpMethod| self.slot(m)->0@),
        )
    }
}

/// The views of a sequence of path items.
pub open spec fn path_views(v: Seq<PathItem>) -> PathsView {
    v.map_values(|p: PathItem| p@)
}

/// Whether some item of `ps` has path `path`.
pub open spec fn has_path(ps: PathsView, path: Seq<char>) -> bool {
    exists|j: int| 0 <= j < ps.len() && (#[trigger] ps[j]).0 == path
}

/// Whether no two items of `ps` have the same path.
pub open spec fn unique_paths(ps: PathsView) -> bool {
    forall|i: int, j: int|
        0 <= i < ps.len() && 0 <= j < ps.len() && i != j ==> (#[trigger] ps[i]).0 != (
        #[trigger] ps[j]).0
}

/// `ps` with entry `e` merged in: an item with the entry's path gets the
/// entry's operation in the entry's method slot, replacing what was there; a
/// new path is appended with that one operation.
pub open spec fn merge_entry(ps: PathsView, e: EntryView) -> PathsView {
    if has_path(ps, e.0) {
        let j = choose|j: int| 0 <= j < ps.len() && (#[trigger] ps[j]).0 == e.0;
        ps.update(j, (e.0, ps[j].1.insert(e.1, e.2)))
    } else {
        ps.push((e.0, map![e.1 => e.2]))
    }
}

/// The paths folded from registered entries, in registration order.
pub open spec fn fold_entries(es: Seq<EntryView>) -> PathsView
    decreases es.len(),
{
    if es.len() == 0 {
        Seq::empty()
    } else {
        merge_entry(fold_entries(es.drop_last()), es.last())
    }
}

proof fn lemma_merge_keeps_unique(ps: PathsView, e: EntryView)
    requires
        unique_paths(ps),
    ensures
        unique_paths(merge_entry(ps, e)),
        has_path(merge_entry(ps, e), e.0),
{
    let r = merge_entry(ps, e);
    if has_path(ps, e.0) {
        let j = choose|j: int| 0 <= j < ps.len() && (#[trigger] ps[j]).0 == e.0;
        assert(r[j].0 == e.0);
        assert forall|a: int, b: int|
            0 <= a < r.len() && 0 <= b < r.len() && a != b implies (#[trigger] r[a]).0 != (
            #[trigger] r[b]).0 by {
            assert(ps[a].0 == r[a].0);
            assert(ps[b].0 == r[b].0);
        }
    } else {
        assert(r[ps.len() as int].0 == e.0);
        assert forall|a: int, b: int|
            0 <= a < r.len() && 0 <= b < r.len() && a != b implies (#[trigger] r[a]).0 != (
            #[trigger] r[b]).0 by {
            if a < ps.len() {
                assert(r[a] == ps[a]);
            }
            if b < ps.len() {
                assert(r[b] == ps[b]);
            }
        }
    }
}

/// Folded paths never hold two items for one path.
pub proof fn lemma_fold_unique(es: Seq<EntryView>)
    ensures
        unique_paths(fold_entries(es)),
    decreases es.len(),
{
    if es.len() > 0 {
        lemma_fold_unique(es.drop_last());
        lemma_merge_keeps_unique(fold_entries(es.drop_last()), es.last());
    }
}

/// Merges one entry into `paths`.
fn merge_into(paths: &mut Vec<PathItem>, path: String, method: HttpMethod, operation: Operation)
    requires
        unique_paths(path_views(old(paths)@)),
    ensures
        path_views(final(paths)@) == merge_entry(
            path_views(old(paths)@),
            (path@, method, operation@),
        ),
{
    let ghost ps = path_views(paths@);
    let ghost ev = (path@, method, operation@);
    let mut i: usize = 0;
    while i < paths.len()
        invariant
            ps == path_views(paths@),
            paths@ == old(paths)@,
            unique_paths(ps),
            ev == (path@, method, operation@),
            i <= paths@.len(),
            forall|j: int| 0 <= j < i ==> (#[trigger] ps[j]).0 != ev.0,
        decreases paths@.len() - i,
    {
        assert(ps[i as int] == paths@[i as int]@);
        if paths[i].path == path {
            assert(ps[i as int].0 == ev.0);
            assert(has_path(ps, ev.0));
            let ghost before = paths@[i as int]@;
            paths[i].set(method, operation);
            proof {
                let j = choose|j: int| 0 <= j < ps.len() && (#[trigger] ps[j]).0 == ev.0;
                assert(j == i);
                assert(ps[j] == before);
                assert(paths@[i as int]@ == (ev.0, before.1.insert(ev.1, ev.2)));
                assert(path_views(paths@) =~= ps.update(i as int, (ev.0, before.1.insert(ev.1, ev.2))));
                assert(merge_entry(ps, ev) == ps.update(j, (ev.0, ps[j].1.insert(ev.1, ev.2))));
            }
            return;
        }
        i = i + 1;
    }
    assert(!has_path(ps, ev.0));
    let item = PathItem::new(path, method, operation);
    paths.push(item);
    assert(path_views(paths@) =~= ps.push((ev.0, map![ev.1 => ev.2])));
}

/// A document: top-level metadata and the documented paths.
#[derive(Debug, PartialEq, Eq)]
pub struct Document<M> {
    pub info: M,
    pub paths: Vec<PathItem>,
}

/// The mathematical content of a [`Document`].
pub struct DocumentView<M> {
    pub info: M,
    pub paths: PathsView,
}

impl<M> View for Document<M> {
    type V = DocumentView<M>;

    open spec fn view(&self) -> DocumentView<M> {
        DocumentView { info: self.info, paths: path_views(self.paths@) }
    }
}

impl<M> Document<M> {
    /// The item documented under `path`, if any.
    pub fn path_item(&self, path: &str) -> (r: Option<&PathItem>)
        ensures
            match r {
                Some(item) => item@.0 == path@ && exists|j: int|
                    0 <= j < self@.paths.len() && self@.paths[j] == item@,
                None => !has_path(self@.paths, path@),
            },
    {
        let wanted = String::from_str(path);
        let mut i: usize = 0;
        while i < self.paths.len()
            invariant
                i <= self.paths@.len(),
                wanted@ == path@,
                forall|j: int| 0 <= j < i ==> (#[trigger] self@.paths[j]).0 != path@,
            decreases self.paths@.len() - i,
        {
            assert(self@.paths[i as int] == self.paths@[i as int]@);
            if self.paths[i].path == wanted {
                return Some(&self.paths[i]);
            }
            i = i + 1;
        }
        None
    }
}

/// The views of a sequence of registry entries.
pub open spec fn entry_views(v: Seq<RegistryEntry>) -> Seq<EntryView> {
    v.map_values(|e: RegistryEntry| e@)
}

/// The registry of pending entries and the cached document, passed to every
/// registration, build and reset.
pub struct OpenApiContext<M> {
    endpoints: Vec<RegistryEntry>,
    built: Option<Document<M>>,
}

/// The mathematical content of an [`OpenApiContext`].
pub struct ContextView<M> {
    pub endpoints: Seq<EntryView>,
    pub built: Option<DocumentView<M>>,
}

impl<M> View for OpenApiContext<M> {
    type V = ContextView<M>;

    closed spec fn view(&self) -> ContextView<M> {
        ContextView {
            endpoints: entry_views(self.endpoints@),
            built: match self.built {
                Some(d) => Some(d@),
                None => None,
            },
        }
    }
}

/// A context with nothing registered and nothing built.
pub open spec fn empty_context<M>() -> ContextView<M> {
    ContextView { endpoints: Seq::empty(), built: None }
}

/// `c` with entry `e` appended to the registry; the cache is left as it is.
pub open spec fn register_view<M>(c: ContextView<M>, e: EntryView) -> ContextView<M> {
    ContextView { endpoints: c.endpoints.push(e), built: c.built }
}

/// `c` with the entries `es` registered one after another.
pub open spec fn register_all<M>(c: ContextView<M>, es: Seq<EntryView>) -> ContextView<M>
    decreases es.len(),
{
    if es.len() == 0 {
        c
    } else {
        register_view(register_all(c, es.drop_last()), es.last())
    }
}

/// `c` after a build whose metadata initializer gives `info`: a cached
/// document stays as it is, with the registry; otherwise the registry is
/// drained and folded into the document.
pub open spec fn build_view<M>(c: ContextView<M>, info: M) -> ContextView<M> {
    match c.built {
        Some(_) => c,
        None => ContextView {
            endpoints: Seq::empty(),
            built: Some(DocumentView { info, paths: fold_entries(c.endpoints) }),
        },
    }
}

impl<M> OpenApiContext<M> {
    /// A context with nothing registered and nothing built.
    pub fn new() -> (r: OpenApiContext<M>)
        ensures
            r@ == empty_context::<M>(),
    {
        let r = OpenApiContext { endpoints: Vec::new(), built: None };
        assert(r@.endpoints =~= Seq::<EntryView>::empty());
        r
    }

    /// Appends `entry` to the registry.  Entries are not deduplicated.
    pub fn register(&mut self, entry: RegistryEntry)
        ensures
            final(self)@ == register_view(old(self)@, entry@),
    {
        let ghost before = self.endpoints@;
        self.endpoints.push(entry);
        assert(entry_views(self.endpoints@) =~= entry_views(before).push(entry@));
    }

    /// The entries registered since the last build or reset.
    pub fn pending(&self) -> (r: &Vec<RegistryEntry>)
        ensures
            entry_views(r@) == self@.endpoints,
    {
        &self.endpoints
    }

    /// The cached document, if one has been built since the last reset.
    pub fn built(&self) -> (r: Option<&Document<M>>)
        ensures
            match r {
                Some(d) => self@.built == Some(d@),
                None => self@.built is None,
            },
    {
        self.built.as_ref()
    }
}

/// Clears the registry and drops the cached document.
pub fn reset_openapi<M>(ctx: &mut OpenApiContext<M>)
    ensures
        final(ctx)@ == empty_context::<M>(),
{
    ctx.endpoints = Vec::new();
    ctx.built = None;
    assert(ctx@.endpoints =~= Seq::<EntryView>::empty());
}

/// Folds registry entries, in order, into paths.
fn fold_registry(entries: Vec<RegistryEntry>) -> (r: Vec<PathItem>)
    ensures
        path_views(r@) == fold_entries(entry_views(entries@)),
{
    let ghost all = entry_views(entries@);
    let mut rest = entries;
    let mut paths: Vec<PathItem> = Vec::new();
    let ghost mut k: int = 0;
    assert(all.take(0) =~= Seq::<EntryView>::empty());
    assert(path_views(paths@) =~= Seq::<PathItemView>::empty());
    while rest.len() > 0
        invariant
            0 <= k <= all.len(),
            k + rest@.len() == all.len(),
            entry_views(rest@) == all.skip(k),
            path_views(paths@) == fold_entries(all.take(k)),
            unique_paths(path_views(paths@)),
        decreases rest@.len(),
    {
        let ghost before = rest@;
        let e = rest.remove(0);
        proof {
            assert(entry_views(before)[0] == all.skip(k)[0]);
            assert(e@ == all[k]);
            assert forall|i: int| 0 <= i < rest@.len() implies entry_views(rest@)[i] == all.skip(
                k + 1,
            )[i] by {
                assert(rest@[i] == before[i + 1]);
                assert(entry_views(before)[i + 1] == all.skip(k)[i + 1]);
            }
            assert(entry_views(rest@) =~= all.skip(k + 1));
            assert(all.take(k + 1).drop_last() =~= all.take(k));
            lemma_fold_unique(all.take(k + 1));
        }
        merge_into(&mut paths, e.path, e.method, e.operation);
        proof {
            k = k + 1;
        }
    }
    assert(all.take(k) =~= all);
    paths
}

/// Builds the document once: where none is cached, drains the registry, folds
/// its entries into paths (a later entry's operation replacing an earlier one
/// under the same path and method), calls `f` for the top-level metadata and
/// caches the result.  Where one is cached, returns it unchanged, whatever has
/// been registered since.
pub fn build_openapi<M, F: Fn() -> M>(ctx: &mut OpenApiContext<M>, f: F) -> (r: &Document<M>)
    requires
        old(ctx)@.built is None ==> f.requires(()),
    ensures
        final(ctx)@.built is Some,
        final(ctx)@ == build_view(old(ctx)@, final(ctx)@.built->0.info),
        old(ctx)@.built is None ==> f.ensures((), final(ctx)@.built->0.info),
        final(ctx)@.built == Some(r@),
{
    if ctx.built.is_none() {
        let mut entries: Vec<RegistryEntry> = Vec::new();
        std::mem::swap(&mut entries, &mut ctx.endpoints);
        let paths = fold_registry(entries);
        let info = f();
        ctx.built = Some(Document { info, paths });
        assert(ctx@.endpoints =~= Seq::<EntryView>::empty());
    }
    ctx.built.as_ref().unwrap()
}

proof fn lemma_register_all<M>(c: ContextView<M>, es: Seq<EntryView>)
    ensures
        register_all(c, es).endpoints == c.endpoints + es,
        register_all(c, es).built == c.built,
    decreases es.len(),
{
    if es.len() == 0 {
        assert(c.endpoints + es =~= c.endpoints);
    } else {
        lemma_register_all(c, es.drop_last());
        assert(c.endpoints + es =~= (c.endpoints + es.drop_last()).push(es.last()));
    }
}

/// After a reset, a build documents exactly the entries registered since.
pub proof fn lemma_reset_then_build<M>(es: Seq<EntryView>, info: M)
    ensures
        build_view(register_all(empty_context::<M>(), es), info).built == Some(
            DocumentView { info, paths: fold_entries(es) },
        ),
{
    lemma_register_all(empty_context::<M>(), es);
    assert(Seq::<EntryView>::empty() + es =~= es);
}

/// A second build without a reset in between gives the document of the first,
/// whatever was registered between the two.
pub proof fn lemma_build_memoized<M>(c: ContextView<M>, es: Seq<EntryView>, first: M, second: M)
    ensures
        build_view(register_all(build_view(c, first), es), second).built == build_view(
            c,
            first,
        ).built,
{
    lemma_register_all(build_view(c, first), es);
}

proof fn lemma_merge_entry_items(ps: PathsView, e: EntryView)
    requires
        unique_paths(ps),
    ensures
        forall|j: int|
            0 <= j < ps.len() && (#[trigger] ps[j]).0 == e.0 ==> merge_entry(ps, e)[j] == (
                e.0,
                ps[j].1.insert(e.1, e.2),
            ),
        !has_path(ps, e.0) ==> merge_entry(ps, e)[ps.len() as int] == (e.0, map![e.1 => e.2]),
        !has_path(ps, e.0) ==> merge_entry(ps, e).len() == ps.len() + 1,
        has_path(ps, e.0) ==> merge_entry(ps, e).len() == ps.len(),
{
    if has_path(ps, e.0) {
        let c = choose|j: int| 0 <= j < ps.len() && (#[trigger] ps[j]).0 == e.0;
        assert forall|j: int| 0 <= j < ps.len() && (#[trigger] ps[j]).0 == e.0 implies merge_entry(
            ps,
            e,
        )[j] == (e.0, ps[j].1.insert(e.1, e.2)) by {
            assert(j == c);
        }
    }
}

/// Two entries registered under one path with two different methods give one
/// item for that path, holding each operation under its own method.
pub proof fn lemma_same_path_merges(
    es: Seq<EntryView>,
    path: Seq<char>,
    m1: HttpMethod,
    op1: OperationView,
    m2: HttpMethod,
    op2: OperationView,
)
    requires
        m1 != m2,
    ensures
        ({
            let ps = fold_entries(es.push((path, m1, op1)).push((path, m2, op2)));
            &&& unique_paths(ps)
            &&& has_path(ps, path)
            &&& forall|j: int|
                0 <= j < ps.len() && (#[trigger] ps[j]).0 == path ==> ps[j].1.contains_key(m1)
                    && ps[j].1[m1] == op1 && ps[j].1.contains_key(m2) && ps[j].1[m2] == op2
        }),
{
    let e1 = (path, m1, op1);
    let e2 = (path, m2, op2);
    let s1 = es.push(e1);
    let s2 = s1.push(e2);
    assert(s2.drop_last() =~= s1);
    assert(s1.drop_last() =~= es);
    let p0 = fold_entries(es);
    let p1 = fold_entries(s1);
    let p2 = fold_entries(s2);
    lemma_fold_unique(es);
    lemma_fold_unique(s1);
    lemma_fold_unique(s2);
    lemma_merge_entry_items(p0, e1);
    lemma_merge_entry_items(p1, e2);
    lemma_merge_keeps_unique(p0, e1);
    lemma_merge_keeps_unique(p1, e2);
    assert forall|j: int| 0 <= j < p1.len() && (#[trigger] p1[j]).0 == path implies p1[j].1.contains_key(
        m1,
    ) && p1[j].1[m1] == op1 by {
        if has_path(p0, path) {
            assert(p0[j].0 == path);
        } else {
            if j < p0.len() {
                assert(p1[j] == p0[j]);
                assert(has_path(p0, path));
            }
        }
    }
    assert(has_path(p1, path));
    assert forall|j: int| 0 <= j < p2.len() && (#[trigger] p2[j]).0 == path implies p2[j].1.contains_key(
        m1,
    ) && p2[j].1[m1] == op1 && p2[j].1.contains_key(m2) && p2[j].1[m2] == op2 by {
        assert(p2.len() == p1.len());
        let k = choose|k: int| 0 <= k < p1.len() && (#[trigger] p1[k]).0 == path;
        if j != k {
            assert(p2[j] == p1[j]);
        }
        assert(p1[j].0 == path);
    }
}

} // verus!

//! Metadata grouping engine: partition the raw metadata records recovered
//! from one artifact scan by owning component. Groups are created in
//! first-seen order of namespace declarations; a second pass attributes every
//! declaration to its group and checks that the namespace declarations agree.

use vstd::prelude::*;

use crate::error::{Error, ErrorModel};

verus! {

/// The kind of one declared construct.
#[derive(Clone, Copy, PartialEq, Eq, Structural, Debug)]
pub enum DeclKind {
    Function,
    Record,
    Enum,
    Object,
}

/// Whether a declaration of this kind introduces a type that references
/// within the component can resolve to.
pub open spec fn is_type_kind(k: DeclKind) -> bool {
    k != DeclKind::Function
}

/// One declared construct: its kind, its name, and the names of the types it
/// references.
#[derive(Debug)]
pub struct DeclInfo {
    pub kind: DeclKind,
    pub name: String,
    pub type_refs: Vec<String>,
}

/// Spec-level value of a [`DeclInfo`].
pub struct DeclModel {
    pub kind: DeclKind,
    pub name: Seq<char>,
    pub type_refs: Seq<Seq<char>>,
}

impl View for DeclInfo {
    type V = DeclModel;

    open spec fn view(&self) -> DeclModel {
        DeclModel { kind: self.kind, name: self.name@, type_refs: self.type_refs.deep_view() }
    }
}

impl DeepView for DeclInfo {
    type V = DeclModel;

    open spec fn deep_view(&self) -> DeclModel {
        self@
    }
}

/// The declaration-specific payload of one raw metadata record.
#[derive(Debug)]
pub enum MetadataPayload {
    /// A namespace declaration: fixes the component's namespace name.
    Namespace { name: String },
    /// One declared construct.
    Decl(DeclInfo),
}

/// Spec-level value of a [`MetadataPayload`].
pub enum PayloadModel {
    Namespace { name: Seq<char> },
    Decl(DeclModel),
}

impl View for MetadataPayload {
    type V = PayloadModel;

    open spec fn view(&self) -> PayloadModel {
        match self {
            MetadataPayload::Namespace { name } => PayloadModel::Namespace { name: name@ },
            MetadataPayload::Decl(d) => PayloadModel::Decl(d@),
        }
    }
}

/// One atomic metadata record recovered from the artifact, tagged with the
/// component (crate) it belongs to.
#[derive(Debug)]
pub struct RawMetadataItem {
    pub crate_name: String,
    pub payload: MetadataPayload,
}

/// Spec-level value of a [`RawMetadataItem`].
pub struct ItemModel {
    pub crate_name: Seq<char>,
    pub payload: PayloadModel,
}

impl View for RawMetadataItem {
    type V = ItemModel;

    open spec fn view(&self) -> ItemModel {
        ItemModel { crate_name: self.crate_name@, payload: self.payload@ }
    }
}

impl DeepView for RawMetadataItem {
    type V = ItemModel;

    open spec fn deep_view(&self) -> ItemModel {
        self@
    }
}

/// The identity of one component: its crate name and its namespace name.
#[derive(Debug)]
pub struct Namespace {
    pub crate_name: String,
    pub name: String,
}

/// One component's namespace plus every declaration attributed to it, in
/// artifact order.
#[derive(Debug)]
pub struct MetadataGroup {
    pub namespace: Namespace,
    pub items: Vec<DeclInfo>,
}

/// Spec-level value of a [`MetadataGroup`].
pub struct GroupModel {
    pub crate_name: Seq<char>,
    pub ns_name: Seq<char>,
    pub items: Seq<DeclModel>,
}

impl View for MetadataGroup {
    type V = GroupModel;

    open spec fn view(&self) -> GroupModel {
        GroupModel {
            crate_name: self.namespace.crate_name@,
            ns_name: self.namespace.name@,
            items: self.items.deep_view(),
        }
    }
}

impl DeepView for MetadataGroup {
    type V = GroupModel;

    open spec fn deep_view(&self) -> GroupModel {
        self@
    }
}

/// The distinct crate names of namespace declarations, in first-seen order:
/// the components one artifact scan discovers.
pub open spec fn ns_crates(items: Seq<ItemModel>) -> Seq<Seq<char>>
    decreases items.len(),
{
    if items.len() == 0 {
        Seq::empty()
    } else {
        let prev = ns_crates(items.drop_last());
        let it = items.last();
        if it.payload is Namespace && !prev.contains(it.crate_name) {
            prev.push(it.crate_name)
        } else {
            prev
        }
    }
}

/// The namespace name fixed by the first namespace declaration for crate `c`.
pub open spec fn ns_name_for(items: Seq<ItemModel>, c: Seq<char>) -> Seq<char>
    decreases items.len(),
{
    if items.len() == 0 {
        Seq::empty()
    } else {
        match items.first().payload {
            PayloadModel::Namespace { name } => if items.first().crate_name == c {
                name
            } else {
                ns_name_for(items.drop_first(), c)
            },
            PayloadModel::Decl(_) => ns_name_for(items.drop_first(), c),
        }
    }
}

/// The declarations attributed to crate `c`, in artifact order.
pub open spec fn decls_for(items: Seq<ItemModel>, c: Seq<char>) -> Seq<DeclModel>
    decreases items.len(),
{
    if items.len() == 0 {
        Seq::empty()
    } else {
        let prev = decls_for(items.drop_last(), c);
        match items.last().payload {
            PayloadModel::Decl(d) => if items.last().crate_name == c {
                prev.push(d)
            } else {
                prev
            },
            PayloadModel::Namespace { .. } => prev,
        }
    }
}

/// The grouping fault of the item at position `i`, if any: a declaration for
/// an undiscovered component cannot be attributed, and a namespace
/// declaration must agree with the first one for its component.
pub open spec fn group_err_at(items: Seq<ItemModel>, i: int) -> Option<ErrorModel> {
    let it = items[i];
    match it.payload {
        PayloadModel::Namespace { name } => if name != ns_name_for(items, it.crate_name) {
            Some(ErrorModel::InconsistentNamespace { crate_name: it.crate_name })
        } else {
            None
        },
        PayloadModel::Decl(_) => if !ns_crates(items).contains(it.crate_name) {
            Some(ErrorModel::UnknownCrate { crate_name: it.crate_name })
        } else {
            None
        },
    }
}

/// The first grouping fault at or after position `i`.
pub open spec fn first_group_err_from(items: Seq<ItemModel>, i: int) -> Option<ErrorModel>
    decreases items.len() - i,
{
    if i < 0 || i >= items.len() {
        None
    } else if group_err_at(items, i) is Some {
        group_err_at(items, i)
    } else {
        first_group_err_from(items, i + 1)
    }
}

/// The first grouping fault of the whole record sequence.
pub open spec fn first_group_err(items: Seq<ItemModel>) -> Option<ErrorModel> {
    first_group_err_from(items, 0)
}

/// The shape the first pass establishes: one empty group per discovered
/// crate, in first-seen order, named by its first namespace declaration.
pub open spec fn groups_created(groups: Seq<GroupModel>, items: Seq<ItemModel>) -> bool {
    &&& groups.len() == ns_crates(items).len()
    &&& forall|j: int|
        0 <= j < groups.len() ==> {
            &&& (#[trigger] groups[j]).crate_name == ns_crates(items)[j]
            &&& groups[j].ns_name == ns_name_for(items, ns_crates(items)[j])
            &&& groups[j].items.len() == 0
        }
}

/// The shape the second pass establishes: every declaration attributed, in
/// artifact order, to the group of its component.
pub open spec fn groups_final(groups: Seq<GroupModel>, items: Seq<ItemModel>) -> bool {
    &&& groups.len() == ns_crates(items).len()
    &&& forall|j: int|
        0 <= j < groups.len() ==> {
            &&& (#[trigger] groups[j]).crate_name == ns_crates(items)[j]
            &&& groups[j].ns_name == ns_name_for(items, ns_crates(items)[j])
            &&& groups[j].items == decls_for(items, ns_crates(items)[j])
        }
}

/// Discovery lists each crate once.
pub proof fn lemma_ns_crates_distinct(items: Seq<ItemModel>)
    ensures
        forall|a: int, b: int|
            0 <= a < b < ns_crates(items).len() ==> ns_crates(items)[a] != ns_crates(items)[b],
    decreases items.len(),
{
    if items.len() > 0 {
        lemma_ns_crates_distinct(items.drop_last());
        let prev = ns_crates(items.drop_last());
        let it = items.last();
        if it.payload is Namespace && !prev.contains(it.crate_name) {
            assert forall|a: int, b: int|
                0 <= a < b < ns_crates(items).len() implies ns_crates(items)[a]
                != ns_crates(items)[b] by {
                if b == prev.len() {
                    if ns_crates(items)[a] == it.crate_name {
                        assert(prev[a] == it.crate_name);
                        assert(prev.contains(it.crate_name));
                    }
                }
            }
        }
    }
}

/// Every namespace declaration in a prefix is discovered by scanning that
/// prefix.
pub proof fn lemma_ns_crates_complete(items: Seq<ItemModel>, k: int, n: int)
    requires
        0 <= k < n <= items.len(),
        items[k].payload is Namespace,
    ensures
        ns_crates(items.take(n)).contains(items[k].crate_name),
    decreases n,
{
    let pre = items.take(n);
    assert(pre.drop_last() =~= items.take(n - 1));
    assert(pre.last() == items[n - 1]);
    if k == n - 1 {
        let prev = ns_crates(items.take(n - 1));
        if prev.contains(items[k].crate_name) {
            let w = choose|w: int| 0 <= w < prev.len() && prev[w] == items[k].crate_name;
            assert(ns_crates(pre)[w] == items[k].crate_name);
        } else {
            assert(ns_crates(pre).last() == items[k].crate_name);
        }
    } else {
        lemma_ns_crates_complete(items, k, n - 1);
        let prev = ns_crates(items.take(n - 1));
        let w = choose|w: int| 0 <= w < prev.len() && prev[w] == items[k].crate_name;
        assert(ns_crates(pre)[w] == items[k].crate_name);
    }
}

/// The namespace name for a crate is the one of its first namespace
/// declaration.
proof fn lemma_ns_name_first(items: Seq<ItemModel>, i: int, name: Seq<char>)
    requires
        0 <= i < items.len(),
        items[i].payload == (PayloadModel::Namespace { name }),
        forall|k: int|
            0 <= k < i ==> !((#[trigger] items[k].payload) is Namespace && items[k].crate_name
                == items[i].crate_name),
    ensures
        ns_name_for(items, items[i].crate_name) == name,
    decreases i,
{
    if i == 0 {
        assert(items.first() == items[0]);
    } else {
        let rest = items.drop_first();
        assert(forall|k: int| 0 <= k < items.len() - 1 ==> #[trigger] rest[k] == items[k + 1]);
        assert(rest[i - 1] == items[i]);
        lemma_ns_name_first(rest, i - 1, name);
        assert(!(items[0].payload is Namespace && items[0].crate_name == items[i].crate_name));
        assert(items.first() == items[0]);
    }
}

/// The index of the group that owns `crate_name`, if any.
fn find_group(groups: &Vec<MetadataGroup>, crate_name: &String) -> (r: Option<usize>)
    ensures
        match r {
            Some(g) => g < groups.len() && groups[g as int].namespace.crate_name@ == crate_name@,
            None => forall|j: int|
                0 <= j < groups.len() ==> (#[trigger] groups[j].namespace.crate_name@)
                    != crate_name@,
        },
{
    let n = groups.len();
    let mut j: usize = 0;
    while j < n
        invariant
            j <= n,
            n == groups.len(),
            forall|k: int|
                0 <= k < j ==> (#[trigger] groups[k].namespace.crate_name@) != crate_name@,
        decreases n - j,
    {
        if groups[j].namespace.crate_name == *crate_name {
            return Some(j);
        }
        j += 1;
    }
    None
}

/// First pass: create one empty group per component, in first-seen order of
/// namespace declarations; the first declaration for a component fixes its
/// namespace name.
pub fn create_metadata_groups(items: &Vec<RawMetadataItem>) -> (groups: Vec<MetadataGroup>)
    ensures
        groups_created(groups.deep_view(), items.deep_view()),
{
    let ghost its = items.deep_view();
    let mut groups: Vec<MetadataGroup> = Vec::new();
    let n = items.len();
    let mut i: usize = 0;
    while i < n
        invariant
            i <= n,
            n == items.len(),
            its == items.deep_view(),
            groups.deep_view().len() == ns_crates(its.take(i as int)).len(),
            forall|j: int|
                0 <= j < groups.deep_view().len() ==> {
                    &&& (#[trigger] groups.deep_view()[j]).crate_name == ns_crates(
                        its.take(i as int),
                    )[j]
                    &&& groups.deep_view()[j].ns_name == ns_name_for(
                        its,
                        ns_crates(its.take(i as int))[j],
                    )
                    &&& groups.deep_view()[j].items.len() == 0
                },
        decreases n - i,
    {
        proof {
            assert(its.take(i + 1).drop_last() =~= its.take(i as int));
            assert(its.take(i + 1).last() == its[i as int]);
        }
        let item = &items[i];
        match &item.payload {
            MetadataPayload::Namespace { name } => {
                match find_group(&groups, &item.crate_name) {
                    Some(g) => {
                        proof {
                            let prev = ns_crates(its.take(i as int));
                            assert(groups.deep_view()[g as int].crate_name == its[
                                i as int
                            ].crate_name);
                            assert(prev[g as int] == its[i as int].crate_name);
                            assert(prev.contains(its[i as int].crate_name));
                        }
                    },
                    None => {
                        proof {
                            let prev = ns_crates(its.take(i as int));
                            if prev.contains(its[i as int].crate_name) {
                                let w = choose|w: int|
                                    0 <= w < prev.len() && prev[w] == its[i as int].crate_name;
                                assert(groups.deep_view()[w].crate_name == its[
                                    i as int
                                ].crate_name);
                                assert(groups[w].namespace.crate_name@ == its[
                                    i as int
                                ].crate_name);
                                assert(false);
                            }
                            assert forall|k: int|
                                0 <= k < i implies !((#[trigger] its[k].payload) is Namespace
                                && its[k].crate_name == its[i as int].crate_name) by {
                                if its[k].payload is Namespace && its[k].crate_name == its[
                                    i as int
                                ].crate_name {
                                    lemma_ns_crates_complete(its, k, i as int);
                                }
                            }
                            lemma_ns_name_first(its, i as int, name@);
                        }
                        let group = MetadataGroup {
                            namespace: Namespace {
                                crate_name: item.crate_name.clone(),
                                name: name.clone(),
                            },
                            items: Vec::new(),
                        };
                        let ghost gprev = groups.deep_view();
                        let ghost gmodel = group@;
                        groups.push(group);
                        proof {
                            assert(groups.deep_view() =~= gprev.push(gmodel));
                        }
                    },
                }
            },
            MetadataPayload::Decl(_) => {},
        }
        i += 1;
    }
    proof {
        assert(its.take(n as int) =~= its);
    }
    groups
}

/// A fault-free prefix moves the first fault past it.
proof fn lemma_first_err_skip(items: Seq<ItemModel>, i: int)
    requires
        0 <= i <= items.len(),
        forall|k: int| 0 <= k < i ==> group_err_at(items, k) is None,
    ensures
        first_group_err(items) == first_group_err_from(items, i),
    decreases i,
{
    if i > 0 {
        lemma_first_err_skip(items, i - 1);
        assert(first_group_err_from(items, i - 1) == first_group_err_from(items, i));
    }
}

/// Second pass: attribute every declaration, in artifact order, to the group
/// of its component, and check that every namespace declaration agrees with
/// the namespace the first pass fixed. An item that cannot be attributed, or
/// a disagreeing namespace declaration, aborts the pass with the first fault;
/// the groups' namespaces survive either way.
pub fn group_metadata(groups: &mut Vec<MetadataGroup>, items: Vec<RawMetadataItem>) -> (r: Result<
    (),
    Error,
>)
    requires
        groups_created(old(groups).deep_view(), items.deep_view()),
    ensures
        match r {
            Ok(()) => first_group_err(items.deep_view()) is None && groups_final(
                final(groups).deep_view(),
                items.deep_view(),
            ),
            Err(e) => first_group_err(items.deep_view()) == Some(e@),
        },
        final(groups).deep_view().len() == ns_crates(items.deep_view()).len(),
        forall|j: int|
            0 <= j < final(groups).deep_view().len() ==> {
                &&& (#[trigger] final(groups).deep_view()[j]).crate_name == ns_crates(
                    items.deep_view(),
                )[j]
                &&& final(groups).deep_view()[j].ns_name == ns_name_for(
                    items.deep_view(),
                    ns_crates(items.deep_view())[j],
                )
            },
{
    let ghost its = items.deep_view();
    proof {
        lemma_ns_crates_distinct(its);
    }
    let mut left = items;
    let n = left.len();
    let mut i: usize = 0;
    while i < n
        invariant
            i <= n,
            n == its.len(),
            its == items.deep_view(),
            left.deep_view() == its.skip(i as int),
            groups.deep_view().len() == ns_crates(its).len(),
            forall|j: int|
                0 <= j < groups.deep_view().len() ==> {
                    &&& (#[trigger] groups.deep_view()[j]).crate_name == ns_crates(its)[j]
                    &&& groups.deep_view()[j].ns_name == ns_name_for(its, ns_crates(its)[j])
                    &&& groups.deep_view()[j].items == decls_for(
                        its.take(i as int),
                        ns_crates(its)[j],
                    )
                },
            forall|k: int| 0 <= k < i ==> group_err_at(its, k) is None,
        decreases n - i,
    {
        let ghost lprev = left.deep_view();
        let ghost lview = left@;
        proof {
            assert(lprev.len() == lview.len());
            assert(lprev.len() == n - i);
        }
        let item = left.remove(0);
        proof {
            assert(lprev[0] == lview[0].deep_view());
            assert(item.deep_view() == its[i as int]);
            assert forall|j: int| 0 <= j < left@.len() implies left.deep_view()[j] == its[i as int
                + 1 + j] by {
                assert(left.deep_view()[j] == left@[j].deep_view());
                assert(left@[j] == lview[j + 1]);
                assert(lprev[j + 1] == lview[j + 1].deep_view());
                assert(lprev[j + 1] == its.skip(i as int)[j + 1]);
            }
            assert(left.deep_view() =~= its.skip(i as int + 1));
            assert(its.take(i as int + 1).drop_last() =~= its.take(i as int));
            assert(its.take(i as int + 1).last() == its[i as int]);
            lemma_ns_crates_distinct(its);
        }
        let RawMetadataItem { crate_name, payload } = item;
        match payload {
            MetadataPayload::Namespace { name } => {
                match find_group(groups, &crate_name) {
                    Some(g) => {
                        proof {
                            assert(groups.deep_view()[g as int].crate_name == crate_name@);
                            assert(ns_crates(its)[g as int] == crate_name@);
                        }
                        if !strings_equal(&groups[g].namespace.name, &name) {
                            proof {
                                assert(name@ != ns_name_for(its, crate_name@));
                                assert(group_err_at(its, i as int) == Some(
                                    ErrorModel::InconsistentNamespace { crate_name: crate_name@ },
                                ));
                                lemma_first_err_skip(its, i as int);
                                assert(first_group_err_from(its, i as int) == group_err_at(
                                    its,
                                    i as int,
                                ));
                            }
                            return Err(Error::InconsistentNamespace { crate_name });
                        }
                        proof {
                            assert(name@ == ns_name_for(its, crate_name@));
                            assert(group_err_at(its, i as int) is None);
                        }
                    },
                    None => {
                        proof {
                            lemma_ns_crates_complete(its, i as int, its.len() as int);
                            assert(its.take(its.len() as int) =~= its);
                            let w = choose|w: int|
                                0 <= w < ns_crates(its).len() && ns_crates(its)[w] == crate_name@;
                            assert(groups.deep_view()[w].crate_name == crate_name@);
                            assert(groups[w].namespace.crate_name@ == crate_name@);
                            assert(false);
                        }
                        // the first pass created a group for every namespace
                        // declaration, so this cannot be reached
                        return Err(Error::UnknownCrate { crate_name });
                    },
                }
            },
            MetadataPayload::Decl(d) => {
                match find_group(groups, &crate_name) {
                    Some(g) => {
                        proof {
                            assert(groups.deep_view()[g as int].crate_name == crate_name@);
                            assert(ns_crates(its)[g as int] == crate_name@);
                            assert(ns_crates(its).contains(crate_name@));
                            assert(group_err_at(its, i as int) is None);
                        }
                        let ghost gdv = groups.deep_view();
                        let ghost dm = d@;
                        let mut entry = groups.remove(g);
                        entry.items.push(d);
                        proof {
                            assert(entry.items.deep_view() =~= gdv[g as int].items.push(dm));
                        }
                        groups.insert(g, entry);
                        proof {
                            let gnew = GroupModel {
                                items: gdv[g as int].items.push(dm),
                                ..gdv[g as int]
                            };
                            assert(entry@ == gnew);
                            assert(groups.deep_view() =~= gdv.update(g as int, gnew));
                            assert forall|j: int|
                                0 <= j < groups.deep_view().len() implies (
                            #[trigger] groups.deep_view()[j]).items == decls_for(
                                its.take(i as int + 1),
                                ns_crates(its)[j],
                            ) by {
                                if j == g {
                                    assert(decls_for(its.take(i as int + 1), ns_crates(its)[j])
                                        == decls_for(its.take(i as int), ns_crates(its)[j]).push(
                                        dm,
                                    ));
                                } else {
                                    assert(ns_crates(its)[j] != crate_name@);
                                    assert(decls_for(its.take(i as int + 1), ns_crates(its)[j])
                                        == decls_for(its.take(i as int), ns_crates(its)[j]));
                                }
                            }
                        }
                    },
                    None => {
                        proof {
                            if ns_crates(its).contains(crate_name@) {
                                let w = choose|w: int|
                                    0 <= w < ns_crates(its).len() && ns_crates(its)[w]
                                        == crate_name@;
                                assert(groups.deep_view()[w].crate_name == crate_name@);
                                assert(groups[w].namespace.crate_name@ == crate_name@);
                                assert(false);
                            }
                            assert(group_err_at(its, i as int) == Some(
                                ErrorModel::UnknownCrate { crate_name: crate_name@ },
                            ));
                            lemma_first_err_skip(its, i as int);
                            assert(first_group_err_from(its, i as int) == group_err_at(
                                its,
                                i as int,
                            ));
                        }
                        return Err(Error::UnknownCrate { crate_name });
                    },
                }
            },
        }
        i += 1;
    }
    proof {
        lemma_first_err_skip(its, n as int);
        assert(its.take(n as int) =~= its);
    }
    Ok(())
}

/// True exactly when the two strings hold the same characters.
fn strings_equal(a: &String, b: &String) -> (r: bool)
    ensures
        r == (a@ == b@),
{
    a.eq(b)
}

} // verus!

//! Component interface builder: fold one metadata group into a validated
//! interface model. The fold is atomic — either the whole group passes the
//! structural rules (nonempty names, names unique within the component, every
//! type reference resolved by a type declared in the component) and the
//! interface holds it, or the interface is left untouched and the first fault
//! is returned. There is no partially-built observable state.

use vstd::prelude::*;

use crate::error::{Error, ErrorModel};
use crate::metadata::{is_type_kind, DeclInfo, DeclKind, DeclModel, MetadataGroup};

verus! {

/// A validated, self-contained interface model for one component.
#[derive(Debug)]
pub struct ComponentInterface {
    pub crate_name: String,
    pub namespace_name: String,
    /// Filled atomically by `add_metadata`; holds a group that passed the
    /// structural rules.
    pub decls: Vec<DeclInfo>,
}

/// Spec-level value of a [`ComponentInterface`].
pub struct CiModel {
    pub crate_name: Seq<char>,
    pub ns_name: Seq<char>,
    pub decls: Seq<DeclModel>,
}

impl View for ComponentInterface {
    type V = CiModel;

    open spec fn view(&self) -> CiModel {
        CiModel {
            crate_name: self.crate_name@,
            ns_name: self.namespace_name@,
            decls: self.decls.deep_view(),
        }
    }
}

impl DeepView for ComponentInterface {
    type V = CiModel;

    open spec fn deep_view(&self) -> CiModel {
        self@
    }
}

/// The name-level fault of declaration `i` against its predecessors: an empty
/// name is structurally malformed; a name already declared collides.
pub open spec fn name_err_at(c: Seq<char>, decls: Seq<DeclModel>, i: int) -> Option<ErrorModel> {
    if decls[i].name.len() == 0 {
        Some(ErrorModel::EmptyDeclName { crate_name: c })
    } else if exists|k: int| 0 <= k < i && (#[trigger] decls[k].name) == decls[i].name {
        Some(ErrorModel::NameCollision { crate_name: c, name: decls[i].name })
    } else {
        None
    }
}

/// The first name-level fault at or after declaration `i`.
pub open spec fn first_name_err_from(c: Seq<char>, decls: Seq<DeclModel>, i: int) -> Option<
    ErrorModel,
>
    decreases decls.len() - i,
{
    if i < 0 || i >= decls.len() {
        None
    } else if name_err_at(c, decls, i) is Some {
        name_err_at(c, decls, i)
    } else {
        first_name_err_from(c, decls, i + 1)
    }
}

/// `t` resolves within `decls`: some declaration of a type kind bears it.
pub open spec fn resolves(decls: Seq<DeclModel>, t: Seq<char>) -> bool {
    exists|k: int|
        0 <= k < decls.len() && is_type_kind((#[trigger] decls[k]).kind) && decls[k].name == t
}

/// The first reference among `refs`, at or after position `j`, that no type
/// declaration of the component resolves.
pub open spec fn first_unresolved_in(
    decls: Seq<DeclModel>,
    refs: Seq<Seq<char>>,
    j: int,
) -> Option<Seq<char>>
    decreases refs.len() - j,
{
    if j < 0 || j >= refs.len() {
        None
    } else if !resolves(decls, refs[j]) {
        Some(refs[j])
    } else {
        first_unresolved_in(decls, refs, j + 1)
    }
}

/// The reference-level fault of declaration `i`, if any.
pub open spec fn ref_err_at(c: Seq<char>, decls: Seq<DeclModel>, i: int) -> Option<ErrorModel> {
    match first_unresolved_in(decls, decls[i].type_refs, 0) {
        Some(t) => Some(ErrorModel::UnresolvedTypeRef { crate_name: c, name: t }),
        None => None,
    }
}

/// The first reference-level fault at or after declaration `i`.
pub open spec fn first_ref_err_from(c: Seq<char>, decls: Seq<DeclModel>, i: int) -> Option<
    ErrorModel,
>
    decreases decls.len() - i,
{
    if i < 0 || i >= decls.len() {
        None
    } else if ref_err_at(c, decls, i) is Some {
        ref_err_at(c, decls, i)
    } else {
        first_ref_err_from(c, decls, i + 1)
    }
}

/// The first structural fault of a component's declarations: name faults in
/// declaration order, then unresolved references in declaration order.
pub open spec fn first_interface_err(c: Seq<char>, decls: Seq<DeclModel>) -> Option<ErrorModel> {
    match first_name_err_from(c, decls, 0) {
        Some(e) => Some(e),
        None => first_ref_err_from(c, decls, 0),
    }
}

/// A structurally valid set of component declarations.
pub open spec fn valid_decls(decls: Seq<DeclModel>) -> bool {
    &&& forall|i: int| 0 <= i < decls.len() ==> (#[trigger] decls[i]).name.len() > 0
    &&& forall|i: int, k: int|
        0 <= k < i < decls.len() ==> (#[trigger] decls[k].name) != (#[trigger] decls[i].name)
    &&& forall|i: int, j: int|
        0 <= i < decls.len() && 0 <= j < decls[i].type_refs.len() ==> resolves(
            decls,
            (#[trigger] decls[i].type_refs[j]),
        )
}

/// A fault-free prefix moves the first name fault past it.
proof fn lemma_name_err_skip(c: Seq<char>, decls: Seq<DeclModel>, i: int)
    requires
        0 <= i <= decls.len(),
        forall|k: int| 0 <= k < i ==> name_err_at(c, decls, k) is None,
    ensures
        first_name_err_from(c, decls, 0) == first_name_err_from(c, decls, i),
    decreases i,
{
    if i > 0 {
        lemma_name_err_skip(c, decls, i - 1);
    }
}

/// A fault-free prefix moves the first reference fault past it.
proof fn lemma_ref_err_skip(c: Seq<char>, decls: Seq<DeclModel>, i: int)
    requires
        0 <= i <= decls.len(),
        forall|k: int| 0 <= k < i ==> ref_err_at(c, decls, k) is None,
    ensures
        first_ref_err_from(c, decls, 0) == first_ref_err_from(c, decls, i),
    decreases i,
{
    if i > 0 {
        lemma_ref_err_skip(c, decls, i - 1);
    }
}

/// An unresolved-free prefix of one declaration's references moves the first
/// unresolved reference past it.
proof fn lemma_unresolved_skip(decls: Seq<DeclModel>, refs: Seq<Seq<char>>, j: int)
    requires
        0 <= j <= refs.len(),
        forall|k: int| 0 <= k < j ==> resolves(decls, #[trigger] refs[k]),
    ensures
        first_unresolved_in(decls, refs, 0) == first_unresolved_in(decls, refs, j),
    decreases j,
{
    if j > 0 {
        lemma_unresolved_skip(decls, refs, j - 1);
    }
}

/// No structural fault means the declarations are valid, and conversely.
pub proof fn lemma_interface_err_none(c: Seq<char>, decls: Seq<DeclModel>)
    ensures
        first_interface_err(c, decls) is None <==> valid_decls(decls),
{
    if first_interface_err(c, decls) is None {
        assert forall|i: int| 0 <= i < decls.len() implies (#[trigger] decls[i]).name.len()
            > 0 by {
            lemma_err_at_of_none(c, decls, 0, i);
        }
        assert forall|i: int, k: int|
            0 <= k < i < decls.len() implies (#[trigger] decls[k].name) != (
        #[trigger] decls[i].name) by {
            lemma_err_at_of_none(c, decls, 0, i);
            assert(name_err_at(c, decls, i) is None);
        }
        assert forall|i: int, j: int|
            0 <= i < decls.len() && 0 <= j < decls[i].type_refs.len() implies resolves(
            decls,
            (#[trigger] decls[i].type_refs[j]),
        ) by {
            lemma_ref_at_of_none(c, decls, 0, i);
            assert(ref_err_at(c, decls, i) is None);
            assert(first_unresolved_in(decls, decls[i].type_refs, 0) is None);
            lemma_resolved_of_none(decls, decls[i].type_refs, 0, j);
        }
        assert(valid_decls(decls));
    }
    if valid_decls(decls) {
        lemma_none_of_valid_names(c, decls, 0);
        lemma_none_of_valid_refs(c, decls, 0);
        assert(first_name_err_from(c, decls, 0) is None);
        assert(first_ref_err_from(c, decls, 0) is None);
        assert(first_interface_err(c, decls) is None);
    }
}

/// Below a fault-free scan, every position is fault-free.
proof fn lemma_err_at_of_none(c: Seq<char>, decls: Seq<DeclModel>, j: int, i: int)
    requires
        0 <= j <= i < decls.len(),
        first_name_err_from(c, decls, j) is None,
    ensures
        name_err_at(c, decls, i) is None,
    decreases i - j,
{
    if j < i {
        lemma_err_at_of_none(c, decls, j + 1, i);
    }
}

/// Below a fault-free scan, every position's references are fault-free.
proof fn lemma_ref_at_of_none(c: Seq<char>, decls: Seq<DeclModel>, j: int, i: int)
    requires
        0 <= j <= i < decls.len(),
        first_ref_err_from(c, decls, j) is None,
    ensures
        ref_err_at(c, decls, i) is None,
    decreases i - j,
{
    if j < i {
        lemma_ref_at_of_none(c, decls, j + 1, i);
    }
}

/// Below an unresolved-free scan, every reference resolves.
proof fn lemma_resolved_of_none(decls: Seq<DeclModel>, refs: Seq<Seq<char>>, k: int, j: int)
    requires
        0 <= k <= j < refs.len(),
        first_unresolved_in(decls, refs, k) is None,
    ensures
        resolves(decls, refs[j]),
    decreases j - k,
{
    if k < j {
        lemma_resolved_of_none(decls, refs, k + 1, j);
    }
}

/// Valid declarations scan clean for names.
proof fn lemma_none_of_valid_names(c: Seq<char>, decls: Seq<DeclModel>, i: int)
    requires
        0 <= i <= decls.len(),
        valid_decls(decls),
    ensures
        first_name_err_from(c, decls, i) is None,
    decreases decls.len() - i,
{
    if i < decls.len() {
        lemma_none_of_valid_names(c, decls, i + 1);
    }
}

/// Valid declarations scan clean for references.
proof fn lemma_none_of_valid_refs(c: Seq<char>, decls: Seq<DeclModel>, i: int)
    requires
        0 <= i <= decls.len(),
        valid_decls(decls),
    ensures
        first_ref_err_from(c, decls, i) is None,
    decreases decls.len() - i,
{
    if i < decls.len() {
        lemma_none_of_valid_refs_inner(decls, decls[i].type_refs, 0);
        lemma_none_of_valid_refs(c, decls, i + 1);
    }
}

/// In valid declarations, one declaration's reference list scans clean.
proof fn lemma_none_of_valid_refs_inner(decls: Seq<DeclModel>, refs: Seq<Seq<char>>, j: int)
    requires
        0 <= j <= refs.len(),
        valid_decls(decls),
        exists|i: int|
            0 <= i < decls.len() && (#[trigger] decls[i].type_refs) == refs,
    ensures
        first_unresolved_in(decls, refs, j) is None,
    decreases refs.len() - j,
{
    if j < refs.len() {
        let i = choose|i: int| 0 <= i < decls.len() && (#[trigger] decls[i].type_refs) == refs;
        assert(resolves(decls, decls[i].type_refs[j]));
        lemma_none_of_valid_refs_inner(decls, refs, j + 1);
    }
}

/// True exactly when some type declaration among `decls` bears the name `t`.
fn resolves_name(decls: &Vec<DeclInfo>, t: &String) -> (r: bool)
    ensures
        r == resolves(decls.deep_view(), t@),
{
    let n = decls.len();
    let mut k: usize = 0;
    while k < n
        invariant
            k <= n,
            n == decls.len(),
            forall|w: int|
                0 <= w < k ==> !(is_type_kind((#[trigger] decls.deep_view()[w]).kind)
                    && decls.deep_view()[w].name == t@),
        decreases n - k,
    {
        if decls[k].kind != DeclKind::Function && decls[k].name.eq(t) {
            proof {
                assert(is_type_kind(decls.deep_view()[k as int].kind) && decls.deep_view()[
                    k as int
                ].name == t@);
            }
            return true;
        }
        k += 1;
    }
    false
}

/// True exactly when an earlier declaration (index below `i`) bears the same
/// name as declaration `i`.
fn name_collides(decls: &Vec<DeclInfo>, i: usize) -> (r: bool)
    requires
        i < decls.len(),
    ensures
        r == exists|k: int|
            0 <= k < i && (#[trigger] decls.deep_view()[k].name) == decls.deep_view()[
                i as int
            ].name,
{
    let mut k: usize = 0;
    while k < i
        invariant
            k <= i < decls.len(),
            forall|w: int|
                0 <= w < k ==> (#[trigger] decls.deep_view()[w].name) != decls.deep_view()[
                    i as int
                ].name,
        decreases i - k,
    {
        if decls[k].name.eq(&decls[i].name) {
            proof {
                assert(decls.deep_view()[k as int].name == decls.deep_view()[i as int].name);
            }
            return true;
        }
        k += 1;
    }
    false
}

impl ComponentInterface {
    /// An empty interface for one component.
    pub fn new(crate_name: &str) -> (r: ComponentInterface)
        ensures
            r@.crate_name == crate_name@,
            r@.ns_name == crate_name@,
            r@.decls.len() == 0,
    {
        ComponentInterface {
            crate_name: crate_name.to_owned(),
            namespace_name: crate_name.to_owned(),
            decls: Vec::new(),
        }
    }

    /// The validated declarations, in artifact order.
    pub fn decls(&self) -> (r: &Vec<DeclInfo>)
        ensures
            r.deep_view() == self@.decls,
    {
        &self.decls
    }

    /// Atomically fold one metadata group into this freshly created
    /// interface: on success the interface holds exactly the group's
    /// declarations and adopts its namespace; a group that breaks a
    /// structural rule leaves the interface untouched and yields the first
    /// fault, in declaration order.
    pub fn add_metadata(&mut self, group: MetadataGroup) -> (r: Result<(), Error>)
        requires
            old(self)@.decls.len() == 0,
        ensures
            match r {
                Ok(()) => {
                    &&& first_interface_err(old(self)@.crate_name, group@.items) is None
                    &&& valid_decls(group@.items)
                    &&& final(self)@.crate_name == old(self)@.crate_name
                    &&& final(self)@.ns_name == group@.ns_name
                    &&& final(self)@.decls == group@.items
                },
                Err(e) => {
                    &&& *final(self) == *old(self)
                    &&& first_interface_err(old(self)@.crate_name, group@.items) == Some(e@)
                },
            },
    {
        let ghost c = self.crate_name@;
        let ghost ds = group.items.deep_view();
        let n = group.items.len();
        let mut i: usize = 0;
        while i < n
            invariant
                i <= n,
                n == group.items.len(),
                ds == group.items.deep_view(),
                c == self.crate_name@,
                forall|k: int| 0 <= k < i ==> name_err_at(c, ds, k) is None,
            decreases n - i,
        {
            if group.items[i].name.as_str().is_empty() {
                proof {
                    lemma_name_err_skip(c, ds, i as int);
                }
                return Err(Error::EmptyDeclName { crate_name: self.crate_name.clone() });
            }
            if name_collides(&group.items, i) {
                proof {
                    lemma_name_err_skip(c, ds, i as int);
                }
                return Err(
                    Error::NameCollision {
                        crate_name: self.crate_name.clone(),
                        name: group.items[i].name.clone(),
                    },
                );
            }
            i += 1;
        }
        proof {
            lemma_name_err_skip(c, ds, n as int);
        }
        let mut i: usize = 0;
        while i < n
            invariant
                i <= n,
                n == group.items.len(),
                ds == group.items.deep_view(),
                c == self.crate_name@,
                first_name_err_from(c, ds, 0) is None,
                forall|k: int| 0 <= k < i ==> ref_err_at(c, ds, k) is None,
            decreases n - i,
        {
            let m = group.items[i].type_refs.len();
            let mut j: usize = 0;
            while j < m
                invariant
                    j <= m,
                    i < n == group.items.len(),
                    m == group.items[i as int].type_refs.len(),
                    ds == group.items.deep_view(),
                    c == self.crate_name@,
                    first_name_err_from(c, ds, 0) is None,
                    forall|k: int| 0 <= k < i ==> ref_err_at(c, ds, k) is None,
                    forall|k: int|
                        0 <= k < j ==> resolves(ds, #[trigger] ds[i as int].type_refs[k]),
                decreases m - j,
            {
                if !resolves_name(&group.items, &group.items[i].type_refs[j]) {
                    proof {
                        assert(ds[i as int].type_refs[j as int] == group.items[
                            i as int
                        ].type_refs.deep_view()[j as int]);
                        lemma_unresolved_skip(ds, ds[i as int].type_refs, j as int);
                        assert(ref_err_at(c, ds, i as int) == Some(
                            ErrorModel::UnresolvedTypeRef {
                                crate_name: c,
                                name: ds[i as int].type_refs[j as int],
                            },
                        ));
                        lemma_ref_err_skip(c, ds, i as int);
                    }
                    return Err(
                        Error::UnresolvedTypeRef {
                            crate_name: self.crate_name.clone(),
                            name: group.items[i].type_refs[j].clone(),
                        },
                    );
                }
                j += 1;
            }
            proof {
                lemma_unresolved_skip(ds, ds[i as int].type_refs, m as int);
                assert(ref_err_at(c, ds, i as int) is None);
            }
            i += 1;
        }
        proof {
            lemma_ref_err_skip(c, ds, n as int);
            lemma_interface_err_none(c, ds);
        }
        self.namespace_name = group.namespace.name;
        self.decls = group.items;
        Ok(())
    }
}

} // verus!

//! Qualified identifiers: crate name plus disambiguated, namespaced path
//! segments, and the plain path of names that pattern matching works on.
use vstd::prelude::*;

verus! {

pub type Symbol = String;

/// A path as a list of plain names, crate first.
pub type Path = Vec<String>;

/// One path segment, tagged with the namespace it lives in.
#[derive(Debug)]
pub enum DefPathItem {
    CrateRoot,
    Impl,
    ForeignMod,
    Use,
    GlobalAsm,
    TypeNs(Symbol),
    ValueNs(Symbol),
    MacroNs(Symbol),
    LifetimeNs(Symbol),
    ClosureExpr,
    Ctor,
    AnonConst,
    ImplTrait,
    ImplTraitAssocTy,
}

impl Clone for DefPathItem {
    fn clone(&self) -> (r: Self)
        ensures
            r == *self,
    {
        match self {
            DefPathItem::CrateRoot => DefPathItem::CrateRoot,
            DefPathItem::Impl => DefPathItem::Impl,
            DefPathItem::ForeignMod => DefPathItem::ForeignMod,
            DefPathItem::Use => DefPathItem::Use,
            DefPathItem::GlobalAsm => DefPathItem::GlobalAsm,
            DefPathItem::TypeNs(s) => DefPathItem::TypeNs(s.clone()),
            DefPathItem::ValueNs(s) => DefPathItem::ValueNs(s.clone()),
            DefPathItem::MacroNs(s) => DefPathItem::MacroNs(s.clone()),
            DefPathItem::LifetimeNs(s) => DefPathItem::LifetimeNs(s.clone()),
            DefPathItem::ClosureExpr => DefPathItem::ClosureExpr,
            DefPathItem::Ctor => DefPathItem::Ctor,
            DefPathItem::AnonConst => DefPathItem::AnonConst,
            DefPathItem::ImplTrait => DefPathItem::ImplTrait,
            DefPathItem::ImplTraitAssocTy => DefPathItem::ImplTraitAssocTy,
        }
    }
}

#[derive(Debug)]
pub struct DisambiguatedDefPathItem {
    pub data: DefPathItem,
    pub disambiguator: u32,
}

impl Clone for DisambiguatedDefPathItem {
    fn clone(&self) -> (r: Self)
        ensures
            r == *self,
    {
        DisambiguatedDefPathItem { data: self.data.clone(), disambiguator: self.disambiguator }
    }
}

/// A qualified identifier. Two identifiers are the same when their views
/// (crate name and full segment sequence) are equal.
#[derive(Debug)]
pub struct DefId {
    pub krate: String,
    pub path: Vec<DisambiguatedDefPathItem>,
}

pub type GlobalIdent = DefId;

impl View for DefId {
    type V = (Seq<char>, Seq<DisambiguatedDefPathItem>);

    open spec fn view(&self) -> Self::V {
        (self.krate@, self.path@)
    }
}

pub fn clone_path_items(items: &Vec<DisambiguatedDefPathItem>) -> (r: Vec<DisambiguatedDefPathItem>)
    ensures
        r@ == items@,
{
    let mut r: Vec<DisambiguatedDefPathItem> = Vec::new();
    let mut i: usize = 0;
    while i < items.len()
        invariant
            i <= items.len(),
            r@ == items@.subrange(0, i as int),
        decreases items.len() - i,
    {
        r.push(items[i].clone());
        i = i + 1;
    }
    assert(r@ =~= items@);
    r
}

impl Clone for DefId {
    fn clone(&self) -> (r: Self)
        ensures
            r@ == self@,
    {
        DefId { krate: self.krate.clone(), path: clone_path_items(&self.path) }
    }
}

/// The name carried by a segment, for the namespaces that carry one.
pub open spec fn segment_name(item: DefPathItem) -> Option<Seq<char>> {
    match item {
        DefPathItem::TypeNs(s) => Some(s@),
        DefPathItem::ValueNs(s) => Some(s@),
        DefPathItem::MacroNs(s) => Some(s@),
        DefPathItem::LifetimeNs(s) => Some(s@),
        _ => None,
    }
}

/// The names of the named segments, in order; structural markers are skipped.
pub open spec fn named_segments(path: Seq<DisambiguatedDefPathItem>) -> Seq<Seq<char>>
    decreases path.len(),
{
    if path.len() == 0 {
        Seq::empty()
    } else {
        let rest = named_segments(path.drop_last());
        match segment_name(path.last().data) {
            Some(n) => rest.push(n),
            None => rest,
        }
    }
}

/// The plain path of an identifier: its crate name, then its named segments.
pub open spec fn path_view(krate: Seq<char>, path: Seq<DisambiguatedDefPathItem>) -> Seq<Seq<char>> {
    seq![krate] + named_segments(path)
}

/// The plain path of `id`, as used to match macro paths against patterns.
pub fn path_of_def_id(id: &DefId) -> (r: Path)
    ensures
        r.deep_view() == path_view(id.krate@, id.path@),
{
    let mut r: Vec<String> = Vec::new();
    r.push(id.krate.clone());
    let mut i: usize = 0;
    while i < id.path.len()
        invariant
            i <= id.path.len(),
            r.deep_view() == path_view(id.krate@, id.path@.subrange(0, i as int)),
        decreases id.path.len() - i,
    {
        let ghost before = r.deep_view();
        let name: Option<String> = match &id.path[i].data {
            DefPathItem::TypeNs(s) => Some(s.clone()),
            DefPathItem::ValueNs(s) => Some(s.clone()),
            DefPathItem::MacroNs(s) => Some(s.clone()),
            DefPathItem::LifetimeNs(s) => Some(s.clone()),
            _ => None,
        };
        proof {
            assert(name matches Some(n) ==> segment_name(id.path@[i as int].data) == Some(n@));
            assert(name is None ==> segment_name(id.path@[i as int].data) is None);
        }
        match name {
            Some(n) => {
                r.push(n);
                assert(r.deep_view() =~= before.push(n@));
            },
            None => {},
        }
        proof {
            let p = id.path@.subrange(0, i + 1);
            assert(p.last() == id.path@[i as int]);
            assert(p.drop_last() =~= id.path@.subrange(0, i as int));
            assert(r.deep_view() =~= path_view(id.krate@, p));
        }
        i = i + 1;
    }
    assert(id.path@.subrange(0, id.path.len() as int) =~= id.path@);
    r
}

/// A host-side node identifier: owning declaration plus a local index.
#[derive(Debug, Clone)]
pub struct HirId {
    pub owner: DefId,
    pub local_id: usize,
}

/// A local variable as it appears in the output: its declared name and id.
#[derive(Debug, Clone)]
pub struct LocalIdent {
    pub name: String,
    pub id: HirId,
}

} // verus!

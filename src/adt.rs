//! Algebraic types as the host describes them, and the uniform
//! description of a construction or destructuring site.
use vstd::prelude::*;
use crate::ast::{CtorKind, VariantDiscr, VariantInformations};
use crate::ids::{DefId, Symbol};

verus! {

#[derive(Debug)]
pub enum Visibility {
    Public,
    Restricted(DefId),
}

#[derive(Debug)]
pub struct FieldDef {
    pub did: DefId,
    pub name: Symbol,
    pub vis: Visibility,
}

#[derive(Debug)]
pub struct VariantDef {
    pub def_id: DefId,
    pub ctor: Option<(CtorKind, DefId)>,
    pub name: Symbol,
    pub discr: VariantDiscr,
    pub fields: Vec<FieldDef>,
}

#[derive(Debug, Clone, Copy)]
pub enum AdtKind {
    Struct,
    Union,
    Enum,
}

/// An algebraic type: its identifier, its kind and its variants in order.
#[derive(Debug)]
pub struct AdtDescriptor {
    pub did: DefId,
    pub kind: AdtKind,
    pub variants: Vec<VariantDef>,
}

impl AdtDescriptor {
    /// Structs and unions have exactly one variant.
    pub open spec fn wf(&self) -> bool {
        !(self.kind is Enum) ==> self.variants.len() == 1
    }
}

/// Why a site could not be described.
#[derive(Debug, Clone, Copy)]
pub enum AdtError {
    NoSuchVariant,
    NoSuchField,
    TypeWithoutPath,
}

/// A name made of decimal digits only, as positional fields are named.
pub open spec fn is_numeric_name(s: Seq<char>) -> bool {
    s.len() > 0 && forall|i: int| 0 <= i < s.len() ==> '0' <= #[trigger] s[i] <= '9'
}

/// Some field has a name that is not a number.
pub open spec fn has_named_field(fields: Seq<FieldDef>) -> bool {
    exists|i: int| 0 <= i < fields.len() && !is_numeric_name(#[trigger] fields[i].name@)
}

/// Some field of some variant has a name that is not a number.
pub open spec fn any_variant_has_named_field(variants: Seq<VariantDef>) -> bool {
    exists|v: int| 0 <= v < variants.len() && has_named_field(#[trigger] variants[v].fields@)
}

pub open spec fn spec_typ_is_struct(adt: AdtDescriptor) -> bool {
    adt.kind is Struct && adt.variants.len() == 1
}

pub open spec fn spec_typ_is_record(adt: AdtDescriptor) -> bool {
    spec_typ_is_struct(adt) && any_variant_has_named_field(adt.variants@)
}

pub open spec fn spec_variant_is_record(adt: AdtDescriptor, v: int) -> bool {
    has_named_field(adt.variants@[v].fields@)
}

/// The identifier a field resolves to: the field's own, not the type's.
pub open spec fn field_id_view(adt: AdtDescriptor, v: int, f: int) -> (Seq<char>, Seq<crate::ids::DisambiguatedDefPathItem>) {
    adt.variants@[v].fields@[f].did@
}

pub open spec fn field_exists(adt: AdtDescriptor, v: int, f: int) -> bool {
    0 <= v < adt.variants.len() && 0 <= f < adt.variants@[v].fields.len()
}

/// `info` describes variant `v` of `adt`.
pub open spec fn describes_site(info: VariantInformations, adt: AdtDescriptor, v: int) -> bool {
    &&& info.typ@ == adt.did@
    &&& info.variant@ == adt.variants@[v].def_id@
    &&& info.type_namespace@ == (adt.did.krate@, adt.did.path@.drop_last())
    &&& info.typ_is_struct == spec_typ_is_struct(adt)
    &&& info.typ_is_record == spec_typ_is_record(adt)
    &&& info.variant_is_record == spec_variant_is_record(adt, v)
}

pub fn is_numeric(s: &String) -> (r: bool)
    ensures
        r == is_numeric_name(s@),
{
    let n = s.as_str().unicode_len();
    if n == 0 {
        return false;
    }
    let mut i: usize = 0;
    while i < n
        invariant
            n == s@.len(),
            i <= n,
            forall|j: int| 0 <= j < i ==> '0' <= #[trigger] s@[j] <= '9',
        decreases n - i,
    {
        let c = s.as_str().get_char(i);
        if !('0' <= c && c <= '9') {
            return false;
        }
        i = i + 1;
    }
    true
}

/// Whether some field is named by a name that is not a number.
pub fn is_record(fields: &Vec<FieldDef>) -> (r: bool)
    ensures
        r == has_named_field(fields@),
{
    let mut i: usize = 0;
    while i < fields.len()
        invariant
            i <= fields.len(),
            forall|j: int| 0 <= j < i ==> is_numeric_name(#[trigger] fields@[j].name@),
        decreases fields.len() - i,
    {
        if !is_numeric(&fields[i].name) {
            return true;
        }
        i = i + 1;
    }
    false
}

fn any_variant_is_record(variants: &Vec<VariantDef>) -> (r: bool)
    ensures
        r == any_variant_has_named_field(variants@),
{
    let mut v: usize = 0;
    while v < variants.len()
        invariant
            v <= variants.len(),
            forall|j: int| 0 <= j < v ==> !has_named_field(#[trigger] variants@[j].fields@),
        decreases variants.len() - v,
    {
        if is_record(&variants[v].fields) {
            return true;
        }
        v = v + 1;
    }
    false
}

/// The namespace `id` is declared in: `id` without its last segment.
pub fn parent_namespace(id: &DefId) -> (r: Option<DefId>)
    ensures
        id.path.len() == 0 <==> r is None,
        r matches Some(p) ==> p@ == (id.krate@, id.path@.drop_last()),
{
    let n = id.path.len();
    if n == 0 {
        return None;
    }
    let mut path: Vec<crate::ids::DisambiguatedDefPathItem> = Vec::new();
    let mut i: usize = 0;
    while i < n - 1
        invariant
            n == id.path.len(),
            n > 0,
            i <= n - 1,
            path@ == id.path@.subrange(0, i as int),
        decreases n - 1 - i,
    {
        path.push(id.path[i].clone());
        i = i + 1;
    }
    assert(path@ =~= id.path@.drop_last());
    Some(DefId { krate: id.krate.clone(), path })
}

/// Describes the site that constructs or matches variant `variant_index` of `adt`.
pub fn get_variant_information(adt: &AdtDescriptor, variant_index: usize) -> (r: Result<
    VariantInformations,
    AdtError,
>)
    ensures
        variant_index >= adt.variants.len() ==> r == Err::<VariantInformations, AdtError>(AdtError::NoSuchVariant),
        variant_index < adt.variants.len() && adt.did.path.len() == 0 ==> r == Err::<VariantInformations, AdtError>(AdtError::TypeWithoutPath),
        variant_index < adt.variants.len() && adt.did.path.len() > 0 ==> r is Ok,
        r matches Ok(info) ==> describes_site(info, *adt, variant_index as int),
{
    if variant_index >= adt.variants.len() {
        return Err(AdtError::NoSuchVariant);
    }
    let type_namespace = match parent_namespace(&adt.did) {
        Some(ns) => ns,
        None => {
            return Err(AdtError::TypeWithoutPath);
        },
    };
    let typ_is_struct = match adt.kind {
        AdtKind::Struct => adt.variants.len() == 1,
        _ => false,
    };
    let typ_is_record = typ_is_struct && any_variant_is_record(&adt.variants);
    let variant = &adt.variants[variant_index];
    Ok(
        VariantInformations {
            type_namespace,
            typ: adt.did.clone(),
            variant: variant.def_id.clone(),
            typ_is_record,
            variant_is_record: is_record(&variant.fields),
            typ_is_struct,
        },
    )
}

/// The identifier of field `field` of variant `variant_index` of `adt`.
pub fn field_def_id(adt: &AdtDescriptor, variant_index: usize, field: usize) -> (r: Result<DefId, AdtError>)
    ensures
        field_exists(*adt, variant_index as int, field as int) <==> r is Ok,
        r matches Ok(d) ==> d@ == field_id_view(*adt, variant_index as int, field as int),
        variant_index >= adt.variants.len() ==> r == Err::<DefId, AdtError>(AdtError::NoSuchVariant),
        variant_index < adt.variants.len() && !field_exists(*adt, variant_index as int, field as int)
            ==> r == Err::<DefId, AdtError>(AdtError::NoSuchField),
{
    if variant_index >= adt.variants.len() {
        return Err(AdtError::NoSuchVariant);
    }
    let fields = &adt.variants[variant_index].fields;
    if field >= fields.len() {
        return Err(AdtError::NoSuchField);
    }
    Ok(fields[field].did.clone())
}

} // verus!

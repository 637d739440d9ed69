//! The type resolver: recursive translation of source types into registry
//! entries, with a memoization cache.
//!
//! `resolve_spec` is the mathematical meaning of resolution: a pure function
//! from a source type and a registry state to the grown registry and the
//! resolved id (or nothing, for an unsupported type). The executable
//! `resolve` is proven to compute exactly that function; the cache is proven
//! to be a pure optimization (a hit returns what resolution would return,
//! and adds nothing).

use vstd::prelude::*;

use crate::model::{
    fields_view, lemma_fields_view_index, st_eq, variants_view, ArrayLength, FieldV, SourceType,
    FieldDecl, TypeV, VariantDecl, VariantV,
};
use crate::registry::{
    entry_ids_below, gor_spec, reg_extends, reg_wf, variant_entries_view, CompositeField,
    CompositeFieldV, EntryV, PortableRegistry, Primitive, RegistryEntry, VariantEntry,
    VariantEntryV, lemma_extends_index, lemma_extends_refl, lemma_extends_trans, lemma_gor_found,
    lemma_gor_props,
};

verus! {

broadcast use vstd::std_specs::vec::group_vec_axioms;

/// The bit width a source integer is widened to: the next power of two,
/// provided that is a width the target's primitive vocabulary has. Widths
/// that widen to anything else are unsupported.
pub open spec fn widened_bits(w: u16) -> Option<u16> {
    if 4 < w && w <= 8 {
        Option::Some(8u16)
    } else if 8 < w && w <= 16 {
        Option::Some(16u16)
    } else if 16 < w && w <= 32 {
        Option::Some(32u16)
    } else if 32 < w && w <= 64 {
        Option::Some(64u16)
    } else if 64 < w && w <= 128 {
        Option::Some(128u16)
    } else if 128 < w && w <= 256 {
        Option::Some(256u16)
    } else {
        Option::None
    }
}

/// The primitive kind an integer of width `w` resolves to, signedness kept.
pub open spec fn int_prim(w: u16, signed: bool) -> Option<Primitive> {
    match widened_bits(w) {
        Option::None => Option::None,
        Option::Some(b) => Option::Some(
            if signed {
                if b == 8 {
                    Primitive::I8
                } else if b == 16 {
                    Primitive::I16
                } else if b == 32 {
                    Primitive::I32
                } else if b == 64 {
                    Primitive::I64
                } else if b == 128 {
                    Primitive::I128
                } else {
                    Primitive::I256
                }
            } else {
                if b == 8 {
                    Primitive::U8
                } else if b == 16 {
                    Primitive::U16
                } else if b == 32 {
                    Primitive::U32
                } else if b == 64 {
                    Primitive::U64
                } else if b == 128 {
                    Primitive::U128
                } else {
                    Primitive::U256
                }
            },
        ),
    }
}

/// An unnamed composite field referencing `id`.
pub open spec fn anon_field(id: int) -> CompositeFieldV {
    CompositeFieldV { name: Option::None, type_label: Option::None, ty: id }
}

/// Address-like types lower to a single-field composite wrapping a byte
/// array of the context's address width.
pub open spec fn resolve_address_spec(r: Seq<EntryV>, alen: u32) -> (Seq<EntryV>, int) {
    let (r1, byteid) = gor_spec(EntryV::Primitive(Primitive::U8), r);
    let (r2, arrid) = gor_spec(EntryV::Array(alen, byteid), r1);
    gor_spec(EntryV::Composite(seq![anon_field(arrid)]), r2)
}

/// Stable insertion of a variant into a discriminant-sorted sequence.
pub open spec fn insert_by_disc(v: VariantEntryV, s: Seq<VariantEntryV>) -> Seq<VariantEntryV>
    decreases s.len(),
{
    if s.len() == 0 {
        seq![v]
    } else if v.discriminant < s[0].discriminant {
        seq![v] + s
    } else {
        seq![s[0]] + insert_by_disc(v, s.drop_first())
    }
}

/// Stable sort of enum variants by discriminant value.
pub open spec fn sort_by_disc(s: Seq<VariantEntryV>) -> Seq<VariantEntryV>
    decreases s.len(),
{
    if s.len() == 0 {
        Seq::empty()
    } else {
        insert_by_disc(s[0], sort_by_disc(s.drop_first()))
    }
}

/// Enum variants as registry variant entries, in declaration order.
pub open spec fn variant_conv(vs: Seq<VariantV>) -> Seq<VariantEntryV> {
    vs.map_values(|v: VariantV| VariantEntryV { name: v.name, discriminant: v.discriminant })
}

/// The named composite fields of a struct entry, given the resolved ids.
pub open spec fn named_fields(fs: Seq<FieldV>, ids: Seq<int>) -> Seq<CompositeFieldV> {
    Seq::new(
        fs.len(),
        |i: int| CompositeFieldV {
            name: Option::Some(fs[i].name),
            type_label: Option::None,
            ty: ids[i],
        },
    )
}

/// Wrap `id` in one array or sequence entry per dimension, outermost first.
pub open spec fn resolve_dims_spec(dims: Seq<ArrayLength>, id: int, r: Seq<EntryV>) -> (
    Seq<EntryV>,
    int,
)
    decreases dims.len(),
{
    if dims.len() == 0 {
        (r, id)
    } else {
        let (r1, id1) = match dims[0] {
            ArrayLength::Fixed(d) => gor_spec(EntryV::Array(d, id), r),
            ArrayLength::Dynamic => gor_spec(EntryV::Sequence(id), r),
        };
        resolve_dims_spec(dims.drop_first(), id1, r1)
    }
}

/// What resolution means: translate one source type into the id of its
/// registry entry, registering (deduplicated) any entries it needs.
/// A `None` id is the unsupported-type error.
pub open spec fn resolve_spec(t: TypeV, r: Seq<EntryV>, alen: u32) -> (Seq<EntryV>, Option<int>)
    decreases t,
{
    match t {
        TypeV::Bool => {
            let (r1, id) = gor_spec(EntryV::Primitive(Primitive::Bool), r);
            (r1, Option::Some(id))
        },
        TypeV::Str => {
            let (r1, id) = gor_spec(EntryV::Primitive(Primitive::Str), r);
            (r1, Option::Some(id))
        },
        TypeV::Uint(w) => match int_prim(w, false) {
            Option::None => (r, Option::None),
            Option::Some(p) => {
                let (r1, id) = gor_spec(EntryV::Primitive(p), r);
                (r1, Option::Some(id))
            },
        },
        TypeV::Int(w) => match int_prim(w, true) {
            Option::None => (r, Option::None),
            Option::Some(p) => {
                let (r1, id) = gor_spec(EntryV::Primitive(p), r);
                (r1, Option::Some(id))
            },
        },
        TypeV::Address => {
            let (r1, id) = resolve_address_spec(r, alen);
            (r1, Option::Some(id))
        },
        TypeV::Bytes(n) => {
            let (r1, byteid) = gor_spec(EntryV::Primitive(Primitive::U8), r);
            let (r2, id) = gor_spec(EntryV::Array(n as u32, byteid), r1);
            (r2, Option::Some(id))
        },
        TypeV::DynamicBytes => {
            let (r1, byteid) = gor_spec(EntryV::Primitive(Primitive::U8), r);
            let (r2, id) = gor_spec(EntryV::Sequence(byteid), r1);
            (r2, Option::Some(id))
        },
        TypeV::Array(el, dims) => {
            let (r1, h) = resolve_spec(*el, r, alen);
            match h {
                Option::None => (r1, Option::None),
                Option::Some(id) => {
                    let (r2, id2) = resolve_dims_spec(dims, id, r1);
                    (r2, Option::Some(id2))
                },
            }
        },
        TypeV::Struct(fs) => {
            let (r1, ids) = resolve_fields_spec(fs, r, alen);
            match ids {
                Option::None => (r1, Option::None),
                Option::Some(ids) => {
                    let (r2, id) = gor_spec(EntryV::Composite(named_fields(fs, ids)), r1);
                    (r2, Option::Some(id))
                },
            }
        },
        TypeV::Enum(vs) => {
            let (r1, id) = gor_spec(EntryV::Variant(sort_by_disc(variant_conv(vs))), r);
            (r1, Option::Some(id))
        },
        TypeV::FunctionRef => {
            let (r1, addrid) = resolve_address_spec(r, alen);
            let (r2, selid) = gor_spec(EntryV::Primitive(Primitive::U32), r1);
            let (r3, id) = gor_spec(
                EntryV::Composite(seq![anon_field(addrid), anon_field(selid)]),
                r2,
            );
            (r3, Option::Some(id))
        },
        TypeV::Ref(inner) => resolve_spec(*inner, r, alen),
        TypeV::StorageRef(inner) => resolve_spec(*inner, r, alen),
        TypeV::UserAlias(inner) => resolve_spec(*inner, r, alen),
        TypeV::Mapping(_, _) => (r, Option::None),
    }
}

/// Resolve each field's type in declared order, collecting the ids.
pub open spec fn resolve_fields_spec(fs: Seq<FieldV>, r: Seq<EntryV>, alen: u32) -> (
    Seq<EntryV>,
    Option<Seq<int>>,
)
    decreases fs,
{
    if fs.len() == 0 {
        (r, Option::Some(Seq::empty()))
    } else {
        let (r1, h) = resolve_spec(fs[0].ty, r, alen);
        match h {
            Option::None => (r1, Option::None),
            Option::Some(id) => {
                let (r2, rest) = resolve_fields_spec(fs.drop_first(), r1, alen);
                match rest {
                    Option::None => (r2, Option::None),
                    Option::Some(ids) => (r2, Option::Some(seq![id] + ids)),
                }
            },
        }
    }
}

/// `resolve_address_spec` keeps the registry well-formed and only appends.
pub proof fn lemma_address_props(r: Seq<EntryV>, alen: u32)
    requires
        reg_wf(r),
    ensures
        ({
            let (r2, id) = resolve_address_spec(r, alen);
            &&& reg_wf(r2)
            &&& reg_extends(r2, r)
            &&& 0 <= id < r2.len()
        }),
{
    let (ra, byteid) = gor_spec(EntryV::Primitive(Primitive::U8), r);
    lemma_gor_props(EntryV::Primitive(Primitive::U8), r);
    let (rb, arrid) = gor_spec(EntryV::Array(alen, byteid), ra);
    lemma_gor_props(EntryV::Array(alen, byteid), ra);
    let e = EntryV::Composite(seq![anon_field(arrid)]);
    lemma_gor_props(e, rb);
    lemma_extends_trans(gor_spec(e, rb).0, rb, ra);
    lemma_extends_trans(gor_spec(e, rb).0, ra, r);
}

/// `resolve_dims_spec` keeps the registry well-formed and only appends.
pub proof fn lemma_dims_props(dims: Seq<ArrayLength>, id: int, r: Seq<EntryV>)
    requires
        reg_wf(r),
        0 <= id < r.len(),
    ensures
        ({
            let (r2, id2) = resolve_dims_spec(dims, id, r);
            &&& reg_wf(r2)
            &&& reg_extends(r2, r)
            &&& 0 <= id2 < r2.len()
        }),
    decreases dims.len(),
{
    if dims.len() == 0 {
        lemma_extends_refl(r);
    } else {
        let e = match dims[0] {
            ArrayLength::Fixed(d) => EntryV::Array(d, id),
            ArrayLength::Dynamic => EntryV::Sequence(id),
        };
        lemma_gor_props(e, r);
        let (r1, id1) = gor_spec(e, r);
        lemma_dims_props(dims.drop_first(), id1, r1);
        lemma_extends_trans(resolve_dims_spec(dims.drop_first(), id1, r1).0, r1, r);
    }
}

/// Resolution keeps the registry well-formed, only appends, and a returned
/// id lies inside the grown registry.
pub proof fn lemma_resolve_props(t: TypeV, r: Seq<EntryV>, alen: u32)
    requires
        reg_wf(r),
    ensures
        ({
            let (r2, h) = resolve_spec(t, r, alen);
            &&& reg_wf(r2)
            &&& reg_extends(r2, r)
            &&& (h matches Option::Some(id) ==> 0 <= id < r2.len())
        }),
    decreases t,
{
    match t {
        TypeV::Bool => {
            lemma_gor_props(EntryV::Primitive(Primitive::Bool), r);
        },
        TypeV::Str => {
            lemma_gor_props(EntryV::Primitive(Primitive::Str), r);
        },
        TypeV::Uint(w) => {
            match int_prim(w, false) {
                Option::None => {
                    lemma_extends_refl(r);
                },
                Option::Some(p) => {
                    lemma_gor_props(EntryV::Primitive(p), r);
                },
            }
        },
        TypeV::Int(w) => {
            match int_prim(w, true) {
                Option::None => {
                    lemma_extends_refl(r);
                },
                Option::Some(p) => {
                    lemma_gor_props(EntryV::Primitive(p), r);
                },
            }
        },
        TypeV::Address => {
            lemma_address_props(r, alen);
        },
        TypeV::Bytes(n) => {
            lemma_gor_props(EntryV::Primitive(Primitive::U8), r);
            let (r1, byteid) = gor_spec(EntryV::Primitive(Primitive::U8), r);
            lemma_gor_props(EntryV::Array(n as u32, byteid), r1);
            lemma_extends_trans(gor_spec(EntryV::Array(n as u32, byteid), r1).0, r1, r);
        },
        TypeV::DynamicBytes => {
            lemma_gor_props(EntryV::Primitive(Primitive::U8), r);
            let (r1, byteid) = gor_spec(EntryV::Primitive(Primitive::U8), r);
            lemma_gor_props(EntryV::Sequence(byteid), r1);
            lemma_extends_trans(gor_spec(EntryV::Sequence(byteid), r1).0, r1, r);
        },
        TypeV::Array(el, dims) => {
            lemma_resolve_props(*el, r, alen);
            let (r1, h) = resolve_spec(*el, r, alen);
            match h {
                Option::None => {},
                Option::Some(id) => {
                    lemma_dims_props(dims, id, r1);
                    lemma_extends_trans(resolve_dims_spec(dims, id, r1).0, r1, r);
                },
            }
        },
        TypeV::Struct(fs) => {
            lemma_fields_props(fs, r, alen);
            let (r1, ids) = resolve_fields_spec(fs, r, alen);
            match ids {
                Option::None => {},
                Option::Some(ids) => {
                    let e = EntryV::Composite(named_fields(fs, ids));
                    assert(entry_ids_below(e, r1.len() as int));
                    lemma_gor_props(e, r1);
                    lemma_extends_trans(gor_spec(e, r1).0, r1, r);
                },
            }
        },
        TypeV::Enum(vs) => {
            lemma_gor_props(EntryV::Variant(sort_by_disc(variant_conv(vs))), r);
        },
        TypeV::FunctionRef => {
            lemma_address_props(r, alen);
            let (r1, addrid) = resolve_address_spec(r, alen);
            lemma_gor_props(EntryV::Primitive(Primitive::U32), r1);
            let (r2, selid) = gor_spec(EntryV::Primitive(Primitive::U32), r1);
            let e = EntryV::Composite(seq![anon_field(addrid), anon_field(selid)]);
            lemma_gor_props(e, r2);
            lemma_extends_trans(r2, r1, r);
            lemma_extends_trans(gor_spec(e, r2).0, r2, r);
        },
        TypeV::Ref(inner) => {
            lemma_resolve_props(*inner, r, alen);
        },
        TypeV::StorageRef(inner) => {
            lemma_resolve_props(*inner, r, alen);
        },
        TypeV::UserAlias(inner) => {
            lemma_resolve_props(*inner, r, alen);
        },
        TypeV::Mapping(_, _) => {
            lemma_extends_refl(r);
        },
    }
}

/// Field-list resolution keeps the registry well-formed, only appends, and
/// returns one in-bounds id per field.
pub proof fn lemma_fields_props(fs: Seq<FieldV>, r: Seq<EntryV>, alen: u32)
    requires
        reg_wf(r),
    ensures
        ({
            let (r2, ids) = resolve_fields_spec(fs, r, alen);
            &&& reg_wf(r2)
            &&& reg_extends(r2, r)
            &&& (ids matches Option::Some(ids) ==> ids.len() == fs.len() && forall|i: int|
                0 <= i < ids.len() ==> 0 <= #[trigger] ids[i] < r2.len())
        }),
    decreases fs,
{
    if fs.len() == 0 {
        lemma_extends_refl(r);
    } else {
        lemma_resolve_props(fs[0].ty, r, alen);
        let (r1, h) = resolve_spec(fs[0].ty, r, alen);
        match h {
            Option::None => {},
            Option::Some(id) => {
                lemma_fields_props(fs.drop_first(), r1, alen);
                let (r2, rest) = resolve_fields_spec(fs.drop_first(), r1, alen);
                lemma_extends_trans(r2, r1, r);
                match rest {
                    Option::None => {},
                    Option::Some(ids) => {
                        assert(forall|i: int|
                            0 <= i < ids.len() ==> 0 <= #[trigger] ids[i] < r2.len());
                        assert(0 <= id < r1.len());
                        assert((seq![id] + ids)[0] == id);
                        assert(forall|i: int|
                            1 <= i < (seq![id] + ids).len() ==> (seq![id] + ids)[i] == ids[i - 1]);
                    },
                }
            },
        }
    }
}

/// Re-registering an entry against any extension of the registry it was
/// registered in returns the same id and adds nothing.
pub proof fn lemma_gor_rerun(e: EntryV, r: Seq<EntryV>, rb: Seq<EntryV>)
    requires
        reg_wf(r),
        entry_ids_below(e, r.len() as int),
        reg_wf(rb),
        reg_extends(rb, gor_spec(e, r).0),
    ensures
        gor_spec(e, rb) == (rb, gor_spec(e, r).1),
{
    lemma_gor_props(e, r);
    let (r1, id) = gor_spec(e, r);
    lemma_extends_index(rb, r1, id);
    lemma_gor_found(e, rb, id);
}

/// Resolving an address against any extension of a registry it was already
/// resolved into returns the same id and adds nothing.
pub proof fn lemma_address_rerun(r: Seq<EntryV>, rb: Seq<EntryV>, alen: u32)
    requires
        reg_wf(r),
        reg_wf(rb),
        reg_extends(rb, resolve_address_spec(r, alen).0),
    ensures
        resolve_address_spec(rb, alen) == (rb, resolve_address_spec(r, alen).1),
{
    let e0 = EntryV::Primitive(Primitive::U8);
    lemma_gor_props(e0, r);
    let (ra, byteid) = gor_spec(e0, r);
    let e1 = EntryV::Array(alen, byteid);
    lemma_gor_props(e1, ra);
    let (rc, arrid) = gor_spec(e1, ra);
    let e2 = EntryV::Composite(seq![anon_field(arrid)]);
    lemma_gor_props(e2, rc);
    let (rd, cid) = gor_spec(e2, rc);
    lemma_extends_trans(rb, rd, rc);
    lemma_extends_trans(rb, rc, ra);
    lemma_gor_rerun(e0, r, rb);
    lemma_gor_rerun(e1, ra, rb);
    lemma_gor_rerun(e2, rc, rb);
}

/// Re-wrapping the array dimensions against any extension of the registry
/// they were resolved into returns the same id and adds nothing.
pub proof fn lemma_dims_rerun(dims: Seq<ArrayLength>, id: int, r: Seq<EntryV>, rb: Seq<EntryV>)
    requires
        reg_wf(r),
        0 <= id < r.len(),
        reg_wf(rb),
        reg_extends(rb, resolve_dims_spec(dims, id, r).0),
    ensures
        resolve_dims_spec(dims, id, rb) == (rb, resolve_dims_spec(dims, id, r).1),
    decreases dims.len(),
{
    if dims.len() == 0 {
    } else {
        let e = match dims[0] {
            ArrayLength::Fixed(d) => EntryV::Array(d, id),
            ArrayLength::Dynamic => EntryV::Sequence(id),
        };
        lemma_gor_props(e, r);
        let (r1, id1) = gor_spec(e, r);
        lemma_dims_props(dims.drop_first(), id1, r1);
        lemma_extends_trans(rb, resolve_dims_spec(dims.drop_first(), id1, r1).0, r1);
        lemma_gor_rerun(e, r, rb);
        lemma_dims_rerun(dims.drop_first(), id1, r1, rb);
    }
}

/// Resolving a type against any extension of a registry it was already
/// resolved into returns the same id and adds nothing. In particular a
/// successful resolution is idempotent, and resolution results survive
/// registry growth: the facts the memoization cache rests on.
pub proof fn lemma_resolve_rerun(t: TypeV, r: Seq<EntryV>, rb: Seq<EntryV>, alen: u32)
    requires
        reg_wf(r),
        resolve_spec(t, r, alen).1 is Some,
        reg_wf(rb),
        reg_extends(rb, resolve_spec(t, r, alen).0),
    ensures
        resolve_spec(t, rb, alen) == (rb, resolve_spec(t, r, alen).1),
    decreases t,
{
    match t {
        TypeV::Bool => {
            lemma_gor_rerun(EntryV::Primitive(Primitive::Bool), r, rb);
        },
        TypeV::Str => {
            lemma_gor_rerun(EntryV::Primitive(Primitive::Str), r, rb);
        },
        TypeV::Uint(w) => {
            match int_prim(w, false) {
                Option::None => {},
                Option::Some(p) => {
                    lemma_gor_rerun(EntryV::Primitive(p), r, rb);
                },
            }
        },
        TypeV::Int(w) => {
            match int_prim(w, true) {
                Option::None => {},
                Option::Some(p) => {
                    lemma_gor_rerun(EntryV::Primitive(p), r, rb);
                },
            }
        },
        TypeV::Address => {
            lemma_address_rerun(r, rb, alen);
        },
        TypeV::Bytes(n) => {
            let e0 = EntryV::Primitive(Primitive::U8);
            lemma_gor_props(e0, r);
            let (r1, byteid) = gor_spec(e0, r);
            let e1 = EntryV::Array(n as u32, byteid);
            lemma_gor_props(e1, r1);
            lemma_extends_trans(rb, gor_spec(e1, r1).0, r1);
            lemma_gor_rerun(e0, r, rb);
            lemma_gor_rerun(e1, r1, rb);
        },
        TypeV::DynamicBytes => {
            let e0 = EntryV::Primitive(Primitive::U8);
            lemma_gor_props(e0, r);
            let (r1, byteid) = gor_spec(e0, r);
            let e1 = EntryV::Sequence(byteid);
            lemma_gor_props(e1, r1);
            lemma_extends_trans(rb, gor_spec(e1, r1).0, r1);
            lemma_gor_rerun(e0, r, rb);
            lemma_gor_rerun(e1, r1, rb);
        },
        TypeV::Array(el, dims) => {
            lemma_resolve_props(*el, r, alen);
            let (r1, h) = resolve_spec(*el, r, alen);
            let id = h->Some_0;
            lemma_dims_props(dims, id, r1);
            lemma_extends_trans(rb, resolve_dims_spec(dims, id, r1).0, r1);
            lemma_resolve_rerun(*el, r, rb, alen);
            lemma_dims_rerun(dims, id, r1, rb);
        },
        TypeV::Struct(fs) => {
            lemma_fields_props(fs, r, alen);
            let (r1, ids) = resolve_fields_spec(fs, r, alen);
            let e = EntryV::Composite(named_fields(fs, ids->Some_0));
            assert(entry_ids_below(e, r1.len() as int));
            lemma_gor_props(e, r1);
            lemma_extends_trans(rb, gor_spec(e, r1).0, r1);
            lemma_fields_rerun(fs, r, rb, alen);
            lemma_gor_rerun(e, r1, rb);
        },
        TypeV::Enum(vs) => {
            lemma_gor_rerun(EntryV::Variant(sort_by_disc(variant_conv(vs))), r, rb);
        },
        TypeV::FunctionRef => {
            lemma_address_props(r, alen);
            let (r1, addrid) = resolve_address_spec(r, alen);
            let e0 = EntryV::Primitive(Primitive::U32);
            lemma_gor_props(e0, r1);
            let (r2, selid) = gor_spec(e0, r1);
            let e1 = EntryV::Composite(seq![anon_field(addrid), anon_field(selid)]);
            lemma_gor_props(e1, r2);
            lemma_extends_trans(rb, gor_spec(e1, r2).0, r2);
            lemma_extends_trans(rb, r2, r1);
            lemma_address_rerun(r, rb, alen);
            lemma_gor_rerun(e0, r1, rb);
            lemma_gor_rerun(e1, r2, rb);
        },
        TypeV::Ref(inner) => {
            lemma_resolve_rerun(*inner, r, rb, alen);
        },
        TypeV::StorageRef(inner) => {
            lemma_resolve_rerun(*inner, r, rb, alen);
        },
        TypeV::UserAlias(inner) => {
            lemma_resolve_rerun(*inner, r, rb, alen);
        },
        TypeV::Mapping(_, _) => {},
    }
}

/// Field-list counterpart of `lemma_resolve_rerun`.
pub proof fn lemma_fields_rerun(fs: Seq<FieldV>, r: Seq<EntryV>, rb: Seq<EntryV>, alen: u32)
    requires
        reg_wf(r),
        resolve_fields_spec(fs, r, alen).1 is Some,
        reg_wf(rb),
        reg_extends(rb, resolve_fields_spec(fs, r, alen).0),
    ensures
        resolve_fields_spec(fs, rb, alen) == (rb, resolve_fields_spec(fs, r, alen).1),
    decreases fs,
{
    if fs.len() == 0 {
    } else {
        lemma_resolve_props(fs[0].ty, r, alen);
        let (r1, h) = resolve_spec(fs[0].ty, r, alen);
        lemma_fields_props(fs.drop_first(), r1, alen);
        lemma_extends_trans(rb, resolve_fields_spec(fs.drop_first(), r1, alen).0, r1);
        lemma_resolve_rerun(fs[0].ty, r, rb, alen);
        lemma_fields_rerun(fs.drop_first(), r1, rb, alen);
    }
}

/// Errors that abort metadata generation for a contract.
#[derive(Clone, Copy, PartialEq, Eq, Structural, Debug)]
pub enum MetadataError {
    /// A source type outside the enumerated resolution rules.
    UnsupportedType,
    /// The external program model is structurally inconsistent.
    MalformedInput,
}

/// `insert_by_disc` places the new variant at the first position whose
/// discriminant exceeds it.
proof fn lemma_insert_at(v: VariantEntryV, s: Seq<VariantEntryV>, j: int)
    requires
        0 <= j <= s.len(),
        forall|k: int| 0 <= k < j ==> #[trigger] s[k].discriminant <= v.discriminant,
        j < s.len() ==> v.discriminant < s[j].discriminant,
    ensures
        insert_by_disc(v, s) == s.subrange(0, j) + seq![v] + s.subrange(j, s.len() as int),
    decreases s.len(),
{
    if s.len() == 0 {
        assert(insert_by_disc(v, s) =~= s.subrange(0, j) + seq![v] + s.subrange(j, s.len() as int));
    } else if v.discriminant < s[0].discriminant {
        assert(j == 0);
        assert(insert_by_disc(v, s) =~= s.subrange(0, j) + seq![v] + s.subrange(j, s.len() as int));
    } else {
        assert(s[0].discriminant <= v.discriminant);
        let d = s.drop_first();
        assert(forall|k: int| 0 <= k < j - 1 ==> #[trigger] d[k].discriminant <= v.discriminant);
        lemma_insert_at(v, d, j - 1);
        assert(insert_by_disc(v, s) == seq![s[0]] + (d.subrange(0, j - 1) + seq![v] + d.subrange(
            j - 1,
            d.len() as int,
        )));
        assert(insert_by_disc(v, s) =~= s.subrange(0, j) + seq![v] + s.subrange(j, s.len() as int));
    }
}

/// Insert one variant into a discriminant-sorted vector, keeping it sorted;
/// equal discriminants keep their earlier-inserted order.
#[verifier::loop_isolation(false)]
fn insert_variant_sorted(out: &mut Vec<VariantEntry>, v: VariantEntry)
    ensures
        variant_entries_view(final(out)@) == insert_by_disc(
            v@,
            variant_entries_view(old(out)@),
        ),
{
    let ghost s = variant_entries_view(out@);
    let n = out.len();
    let mut j: usize = 0;
    while j < n
        invariant
            j <= n,
            forall|k: int| 0 <= k < j ==> #[trigger] s[k].discriminant <= v@.discriminant,
        decreases n - j,
    {
        if v.discriminant < out[j].discriminant {
            break;
        }
        assert(s[j as int].discriminant <= v@.discriminant);
        j += 1;
    }
    proof {
        lemma_insert_at(v@, s, j as int);
    }
    out.insert(j, v);
    assert(variant_entries_view(out@) =~= s.subrange(0, j as int) + seq![v@] + s.subrange(
        j as int,
        s.len() as int,
    ));
}

/// Sort the declared enum variants by discriminant value, preserving the
/// names and discriminants exactly.
#[verifier::loop_isolation(false)]
fn sorted_variant_entries(vs: &Vec<VariantDecl>) -> (out: Vec<VariantEntry>)
    ensures
        variant_entries_view(out@) == sort_by_disc(variant_conv(variants_view(vs@))),
{
    let ghost target = variant_conv(variants_view(vs@));
    let n = vs.len();
    let mut out: Vec<VariantEntry> = Vec::new();
    proof {
        assert(target.subrange(n as int, n as int) =~= Seq::<VariantEntryV>::empty());
    }
    let mut i: usize = n;
    while i > 0
        invariant
            i <= n,
            variant_entries_view(out@) == sort_by_disc(target.subrange(i as int, n as int)),
        decreases i,
    {
        i -= 1;
        let v = VariantEntry { name: vs[i].name.clone(), discriminant: vs[i].discriminant };
        proof {
            assert(target[i as int] == v@);
            assert(target.subrange(i as int, n as int)[0] == target[i as int]);
            assert(target.subrange(i as int, n as int).drop_first() =~= target.subrange(
                i as int + 1,
                n as int,
            ));
        }
        insert_variant_sorted(&mut out, v);
    }
    proof {
        assert(target.subrange(0, n as int) =~= target);
    }
    out
}

/// The memoization cache: source types already resolved in this pass, with
/// the id resolution returned. Consulted before recursing into a type's
/// structure; populated only after an entry is fully built.
pub struct TypeCache {
    pub entries: Vec<(SourceType, usize)>,
}

impl TypeCache {
    /// Every cached pair is semantically right: resolving the cached type
    /// against the current registry returns the cached id and adds nothing.
    pub open spec fn wf(self, r: Seq<EntryV>, alen: u32) -> bool {
        forall|i: int| 0 <= i < self.entries@.len() ==> resolve_spec(
            (#[trigger] self.entries@[i]).0@,
            r,
            alen,
        ) == (r, Option::Some(self.entries@[i].1 as int))
    }

    pub fn empty() -> (c: TypeCache)
        ensures
            c.entries@.len() == 0,
    {
        TypeCache { entries: Vec::new() }
    }

    /// Scan for a structurally equal cached type.
    fn lookup(&self, t: &SourceType) -> (res: Option<usize>)
        ensures
            res matches Option::Some(id) ==> exists|i: int|
                0 <= i < self.entries@.len() && (#[trigger] self.entries@[i]).0@ == t@
                    && self.entries@[i].1 == id,
    {
        let n = self.entries.len();
        let mut i: usize = 0;
        while i < n
            invariant
                i <= n,
                n == self.entries@.len(),
            decreases n - i,
        {
            if st_eq(&self.entries[i].0, t) {
                let id = self.entries[i].1;
                assert(self.entries@[i as int].0@ == t@ && self.entries@[i as int].1 == id);
                return Option::Some(id);
            }
            i += 1;
        }
        Option::None
    }
}

/// Cached facts survive registry growth.
pub proof fn lemma_cache_grow(c: TypeCache, r1: Seq<EntryV>, r2: Seq<EntryV>, alen: u32)
    requires
        c.wf(r1, alen),
        reg_wf(r1),
        reg_wf(r2),
        reg_extends(r2, r1),
    ensures
        c.wf(r2, alen),
{
    assert forall|i: int| 0 <= i < c.entries@.len() implies resolve_spec(
        (#[trigger] c.entries@[i]).0@,
        r2,
        alen,
    ) == (r2, Option::Some(c.entries@[i].1 as int)) by {
        lemma_resolve_rerun(c.entries@[i].0@, r1, r2, alen);
    }
}

/// Record a finished resolution in the cache.
fn cache_record(
    cache: &mut TypeCache,
    t: &SourceType,
    id: usize,
    reg: &PortableRegistry,
    Ghost(r0): Ghost<Seq<EntryV>>,
    alen: u32,
)
    requires
        old(cache).wf(reg@, alen),
        reg.wf(),
        reg_wf(r0),
        resolve_spec(t@, r0, alen) == (reg@, Option::Some(id as int)),
    ensures
        final(cache).wf(reg@, alen),
{
    proof {
        lemma_extends_refl(reg@);
        lemma_resolve_rerun(t@, r0, reg@, alen);
    }
    let dup = t.duplicate();
    let ghost pre = cache.entries@;
    cache.entries.push((dup, id));
    assert forall|i: int| 0 <= i < cache.entries@.len() implies resolve_spec(
        (#[trigger] cache.entries@[i]).0@,
        reg@,
        alen,
    ) == (reg@, Option::Some(cache.entries@[i].1 as int)) by {
        if i < pre.len() {
            assert(cache.entries@[i] == pre[i]);
        }
    }
}


/// Register one primitive entry.
fn register_prim(p: Primitive, reg: &mut PortableRegistry) -> (id: usize)
    requires
        old(reg).wf(),
    ensures
        final(reg).wf(),
        gor_spec(EntryV::Primitive(p), old(reg)@) == (final(reg)@, id as int),
        reg_extends(final(reg)@, old(reg)@),
        id < final(reg)@.len(),
{
    let ghost r0 = reg@;
    let id = reg.get_or_register(RegistryEntry::Primitive(p));
    proof {
        lemma_gor_props(EntryV::Primitive(p), r0);
    }
    id
}

/// Register the single-field composite that address-like types lower to.
fn register_address(alen: u32, reg: &mut PortableRegistry) -> (id: usize)
    requires
        old(reg).wf(),
    ensures
        final(reg).wf(),
        resolve_address_spec(old(reg)@, alen) == (final(reg)@, id as int),
        reg_extends(final(reg)@, old(reg)@),
        id < final(reg)@.len(),
{
    let ghost r0 = reg@;
    let byteid = reg.get_or_register(RegistryEntry::Primitive(Primitive::U8));
    let arrid = reg.get_or_register(RegistryEntry::Array(alen, byteid));
    let mut fs: Vec<CompositeField> = Vec::new();
    fs.push(CompositeField { name: Option::None, type_label: Option::None, ty: arrid });
    proof {
        assert(crate::registry::composite_fields_view(fs@) =~= seq![anon_field(arrid as int)]);
    }
    let id = reg.get_or_register(RegistryEntry::Composite(fs));
    proof {
        lemma_address_props(r0, alen);
    }
    id
}

/// Register the fixed-length byte-array lowering of `Bytes(n)`.
fn register_fixed_bytes(n: u8, reg: &mut PortableRegistry) -> (id: usize)
    requires
        old(reg).wf(),
    ensures
        final(reg).wf(),
        ({
            let (r1, byteid) = gor_spec(EntryV::Primitive(Primitive::U8), old(reg)@);
            gor_spec(EntryV::Array(n as u32, byteid), r1) == (final(reg)@, id as int)
        }),
        reg_extends(final(reg)@, old(reg)@),
        id < final(reg)@.len(),
{
    let ghost r0 = reg@;
    let byteid = reg.get_or_register(RegistryEntry::Primitive(Primitive::U8));
    let ghost r1 = reg@;
    proof {
        lemma_gor_props(EntryV::Primitive(Primitive::U8), r0);
    }
    let id = reg.get_or_register(RegistryEntry::Array(n as u32, byteid));
    proof {
        lemma_gor_props(EntryV::Array(n as u32, byteid as int), r1);
        lemma_extends_trans(reg@, r1, r0);
    }
    id
}

/// Register the byte-sequence lowering of `DynamicBytes`.
fn register_dynamic_bytes(reg: &mut PortableRegistry) -> (id: usize)
    requires
        old(reg).wf(),
    ensures
        final(reg).wf(),
        ({
            let (r1, byteid) = gor_spec(EntryV::Primitive(Primitive::U8), old(reg)@);
            gor_spec(EntryV::Sequence(byteid), r1) == (final(reg)@, id as int)
        }),
        reg_extends(final(reg)@, old(reg)@),
        id < final(reg)@.len(),
{
    let ghost r0 = reg@;
    let byteid = reg.get_or_register(RegistryEntry::Primitive(Primitive::U8));
    let ghost r1 = reg@;
    proof {
        lemma_gor_props(EntryV::Primitive(Primitive::U8), r0);
    }
    let id = reg.get_or_register(RegistryEntry::Sequence(byteid));
    proof {
        lemma_gor_props(EntryV::Sequence(byteid as int), r1);
        lemma_extends_trans(reg@, r1, r0);
    }
    id
}

/// Register the (address, selector) composite that function references
/// lower to.
fn register_function_ref(alen: u32, reg: &mut PortableRegistry) -> (id: usize)
    requires
        old(reg).wf(),
    ensures
        final(reg).wf(),
        resolve_spec(TypeV::FunctionRef, old(reg)@, alen) == (
            final(reg)@,
            Option::Some(id as int),
        ),
        reg_extends(final(reg)@, old(reg)@),
        id < final(reg)@.len(),
{
    let ghost r0 = reg@;
    let addrid = register_address(alen, reg);
    let ghost ra = reg@;
    let selid = reg.get_or_register(RegistryEntry::Primitive(Primitive::U32));
    let ghost rb = reg@;
    proof {
        lemma_gor_props(EntryV::Primitive(Primitive::U32), ra);
    }
    let mut fs: Vec<CompositeField> = Vec::new();
    fs.push(CompositeField { name: Option::None, type_label: Option::None, ty: addrid });
    fs.push(CompositeField { name: Option::None, type_label: Option::None, ty: selid });
    let ghost ev = EntryV::Composite(seq![anon_field(addrid as int), anon_field(selid as int)]);
    proof {
        assert(crate::registry::composite_fields_view(fs@) =~= seq![
            anon_field(addrid as int),
            anon_field(selid as int),
        ]);
    }
    let id = reg.get_or_register(RegistryEntry::Composite(fs));
    proof {
        lemma_gor_props(ev, rb);
        lemma_extends_trans(reg@, rb, ra);
        lemma_extends_trans(reg@, ra, r0);
    }
    id
}

/// Register the sorted variant entry of an enum.
fn register_enum(vs: &Vec<VariantDecl>, reg: &mut PortableRegistry) -> (id: usize)
    requires
        old(reg).wf(),
    ensures
        final(reg).wf(),
        gor_spec(EntryV::Variant(sort_by_disc(variant_conv(variants_view(vs@)))), old(reg)@) == (
            final(reg)@,
            id as int,
        ),
        reg_extends(final(reg)@, old(reg)@),
        id < final(reg)@.len(),
{
    let ghost r0 = reg@;
    let ghost ev = EntryV::Variant(sort_by_disc(variant_conv(variants_view(vs@))));
    let sorted = sorted_variant_entries(vs);
    let id = reg.get_or_register(RegistryEntry::Variant(sorted));
    proof {
        lemma_gor_props(ev, r0);
    }
    id
}

/// Wrap an already-resolved element id in one entry per array dimension,
/// outermost dimension first; a dynamic dimension wraps in a sequence
/// instead of an array.
#[verifier::loop_isolation(false)]
fn wrap_dims(dims: &Vec<ArrayLength>, first: usize, reg: &mut PortableRegistry) -> (id: usize)
    requires
        old(reg).wf(),
        first < old(reg)@.len(),
    ensures
        final(reg).wf(),
        resolve_dims_spec(dims@, first as int, old(reg)@) == (final(reg)@, id as int),
        reg_extends(final(reg)@, old(reg)@),
        id < final(reg)@.len(),
{
    let ghost r1 = reg@;
    let ghost dimsv = dims@;
    let ghost target = resolve_dims_spec(dimsv, first as int, r1);
    let n = dims.len();
    proof {
        lemma_extends_refl(r1);
        assert(dimsv.subrange(0, n as int) =~= dimsv);
    }
    let mut cur = first;
    let mut i: usize = 0;
    while i < n
        invariant
            i <= n,
            reg.wf(),
            reg_extends(reg@, r1),
            cur < reg@.len(),
            resolve_dims_spec(dimsv.subrange(i as int, n as int), cur as int, reg@) == target,
        decreases n - i,
    {
        proof {
            assert(dimsv.subrange(i as int, n as int)[0] == dimsv[i as int]);
            assert(dimsv.subrange(i as int, n as int).drop_first() =~= dimsv.subrange(
                i as int + 1,
                n as int,
            ));
        }
        let ghost rpre = reg@;
        let e = match dims[i] {
            ArrayLength::Fixed(d) => RegistryEntry::Array(d, cur),
            ArrayLength::Dynamic => RegistryEntry::Sequence(cur),
        };
        let ghost ev = e@;
        let nxt = reg.get_or_register(e);
        proof {
            lemma_gor_props(ev, rpre);
            lemma_extends_trans(reg@, rpre, r1);
        }
        cur = nxt;
        i += 1;
    }
    proof {
        assert(dimsv.subrange(n as int, n as int) =~= Seq::<ArrayLength>::empty());
    }
    cur
}

/// The exec map from a source integer width to its primitive kind.
fn widened_prim(w: u16, signed: bool) -> (res: Option<Primitive>)
    ensures
        res == int_prim(w, signed),
{
    if w <= 4 || w > 256 {
        Option::None
    } else {
        let b: u16 = if w <= 8 {
            8
        } else if w <= 16 {
            16
        } else if w <= 32 {
            32
        } else if w <= 64 {
            64
        } else if w <= 128 {
            128
        } else {
            256
        };
        Option::Some(
            if signed {
                if b == 8 {
                    Primitive::I8
                } else if b == 16 {
                    Primitive::I16
                } else if b == 32 {
                    Primitive::I32
                } else if b == 64 {
                    Primitive::I64
                } else if b == 128 {
                    Primitive::I128
                } else {
                    Primitive::I256
                }
            } else {
                if b == 8 {
                    Primitive::U8
                } else if b == 16 {
                    Primitive::U16
                } else if b == 32 {
                    Primitive::U32
                } else if b == 64 {
                    Primitive::U64
                } else if b == 128 {
                    Primitive::U128
                } else {
                    Primitive::U256
                }
            },
        )
    }
}

/// Resolve each struct field in declared order into a named composite
/// field referencing the field type's registry id.
#[verifier::loop_isolation(false)]
#[verifier::rlimit(60)]
fn resolve_struct_fields(
    fields: &Vec<FieldDecl>,
    alen: u32,
    reg: &mut PortableRegistry,
    cache: &mut TypeCache,
) -> (res: Result<Vec<CompositeField>, MetadataError>)
    requires
        old(reg).wf(),
        old(cache).wf(old(reg)@, alen),
    ensures
        final(reg).wf(),
        final(cache).wf(final(reg)@, alen),
        reg_extends(final(reg)@, old(reg)@),
        resolve_fields_spec(fields_view(fields@), old(reg)@, alen).0 == final(reg)@,
        match res {
            Result::Ok(cfs) => resolve_fields_spec(fields_view(fields@), old(reg)@, alen).1
                matches Option::Some(ids) && crate::registry::composite_fields_view(cfs@)
                == named_fields(fields_view(fields@), ids) && entry_ids_below(
                EntryV::Composite(named_fields(fields_view(fields@), ids)),
                final(reg)@.len() as int,
            ),
            Result::Err(e) => resolve_fields_spec(fields_view(fields@), old(reg)@, alen).1 is None
                && e == MetadataError::UnsupportedType,
        },
    decreases fields,
{
    let ghost r0 = reg@;
    let ghost fsv = fields_view(fields@);
    proof {
        lemma_fields_view_index(fields@);
        lemma_extends_refl(r0);
        assert(fsv.subrange(0, fields@.len() as int) =~= fsv);
    }
    let n = fields.len();
    let mut cfs: Vec<CompositeField> = Vec::new();
    let ghost mut ids: Seq<int> = Seq::empty();
    let mut i: usize = 0;
    while i < n
        invariant
            i <= n,
            reg.wf(),
            reg_extends(reg@, r0),
            cache.wf(reg@, alen),
            ids.len() == i as int,
            forall|j: int| 0 <= j < i ==> 0 <= #[trigger] ids[j] < reg@.len(),
            crate::registry::composite_fields_view(cfs@) == named_fields(
                fsv.subrange(0, i as int),
                ids,
            ),
            ({
                let (r2, rest) = resolve_fields_spec(fsv.subrange(i as int, n as int), reg@, alen);
                &&& resolve_fields_spec(fsv, r0, alen).0 == r2
                &&& resolve_fields_spec(fsv, r0, alen).1 == match rest {
                    Option::None => Option::None::<Seq<int>>,
                    Option::Some(rem) => Option::Some(ids + rem),
                }
            }),
        decreases n - i,
    {
        proof {
            assert(fsv.subrange(i as int, n as int)[0] == fsv[i as int]);
            assert(fsv.subrange(i as int, n as int).drop_first() =~= fsv.subrange(
                i as int + 1,
                n as int,
            ));
        }
        let ghost rpre = reg@;
        let fid = match resolve(&fields[i].ty, alen, reg, cache) {
            Result::Ok(x) => x,
            Result::Err(e) => {
                proof {
                    lemma_extends_trans(reg@, rpre, r0);
                }
                return Result::Err(e);
            },
        };
        let ghost pre = cfs@;
        let ghost ids0 = ids;
        cfs.push(
            CompositeField {
                name: Option::Some(fields[i].name.clone()),
                type_label: Option::None,
                ty: fid,
            },
        );
        proof {
            lemma_extends_trans(reg@, rpre, r0);
            ids = ids0.push(fid as int);
            assert(reg@.len() >= rpre.len());
            assert forall|j: int| 0 <= j < i + 1 implies
                #[trigger] crate::registry::composite_fields_view(cfs@)[j] == named_fields(
                fsv.subrange(0, i as int + 1),
                ids,
            )[j] by {
                assert(fsv.subrange(0, i as int + 1)[j] == fsv[j]);
                if j < i {
                    assert(cfs@[j] == pre[j]);
                    assert(crate::registry::composite_fields_view(pre)[j] == named_fields(
                        fsv.subrange(0, i as int),
                        ids0,
                    )[j]);
                    assert(fsv.subrange(0, i as int)[j] == fsv[j]);
                    assert(ids[j] == ids0[j]);
                } else {
                    assert(cfs@[j] == CompositeField {
                        name: Option::Some(fields[i as int].name),
                        type_label: Option::None,
                        ty: fid,
                    });
                }
            }
            assert(crate::registry::composite_fields_view(cfs@) =~= named_fields(
                fsv.subrange(0, i as int + 1),
                ids,
            ));
        }
        i += 1;
    }
    proof {
        assert(fsv.subrange(n as int, n as int) =~= Seq::<FieldV>::empty());
        assert(fsv.subrange(0, n as int) =~= fsv);
    }
    Result::Ok(cfs)
}

/// Resolve one source type into the id of its registry entry, registering
/// any entries it needs, deduplicated. Computes exactly `resolve_spec` of
/// the view; the cache is consulted before recursing and populated after
/// the entry is fully built.
#[verifier::rlimit(60)]
pub fn resolve(
    t: &SourceType,
    alen: u32,
    reg: &mut PortableRegistry,
    cache: &mut TypeCache,
) -> (res: Result<usize, MetadataError>)
    requires
        old(reg).wf(),
        old(cache).wf(old(reg)@, alen),
    ensures
        final(reg).wf(),
        final(cache).wf(final(reg)@, alen),
        reg_extends(final(reg)@, old(reg)@),
        resolve_spec(t@, old(reg)@, alen).0 == final(reg)@,
        match res {
            Result::Ok(id) => resolve_spec(t@, old(reg)@, alen).1 == Option::Some(id as int) && (
            id as int) < final(reg)@.len(),
            Result::Err(e) => resolve_spec(t@, old(reg)@, alen).1 is None && e
                == MetadataError::UnsupportedType,
        },
    decreases t,
{
    let ghost r0 = reg@;
    proof {
        lemma_extends_refl(r0);
    }
    match cache.lookup(t) {
        Option::Some(id) => {
            proof {
                let i = choose|i: int|
                    0 <= i < cache.entries@.len() && (#[trigger] cache.entries@[i]).0@ == t@
                        && cache.entries@[i].1 == id;
                assert(resolve_spec(t@, r0, alen) == (r0, Option::Some(id as int)));
                lemma_resolve_props(t@, r0, alen);
            }
            return Result::Ok(id);
        },
        Option::None => {},
    }
    match t {
        SourceType::Bool => {
            let id = register_prim(Primitive::Bool, reg);
            proof {
                lemma_cache_grow(*cache, r0, reg@, alen);
            }
            cache_record(cache, t, id, reg, Ghost(r0), alen);
            Result::Ok(id)
        },
        SourceType::Str => {
            let id = register_prim(Primitive::Str, reg);
            proof {
                lemma_cache_grow(*cache, r0, reg@, alen);
            }
            cache_record(cache, t, id, reg, Ghost(r0), alen);
            Result::Ok(id)
        },
        SourceType::Uint(w) => {
            match widened_prim(*w, false) {
                Option::None => Result::Err(MetadataError::UnsupportedType),
                Option::Some(p) => {
                    let id = register_prim(p, reg);
                    proof {
                        lemma_cache_grow(*cache, r0, reg@, alen);
                    }
                    cache_record(cache, t, id, reg, Ghost(r0), alen);
                    Result::Ok(id)
                },
            }
        },
        SourceType::Int(w) => {
            match widened_prim(*w, true) {
                Option::None => Result::Err(MetadataError::UnsupportedType),
                Option::Some(p) => {
                    let id = register_prim(p, reg);
                    proof {
                        lemma_cache_grow(*cache, r0, reg@, alen);
                    }
                    cache_record(cache, t, id, reg, Ghost(r0), alen);
                    Result::Ok(id)
                },
            }
        },
        SourceType::Address => {
            let id = register_address(alen, reg);
            proof {
                lemma_cache_grow(*cache, r0, reg@, alen);
            }
            cache_record(cache, t, id, reg, Ghost(r0), alen);
            Result::Ok(id)
        },
        SourceType::Bytes(n) => {
            let id = register_fixed_bytes(*n, reg);
            proof {
                lemma_cache_grow(*cache, r0, reg@, alen);
            }
            cache_record(cache, t, id, reg, Ghost(r0), alen);
            Result::Ok(id)
        },
        SourceType::DynamicBytes => {
            let id = register_dynamic_bytes(reg);
            proof {
                lemma_cache_grow(*cache, r0, reg@, alen);
            }
            cache_record(cache, t, id, reg, Ghost(r0), alen);
            Result::Ok(id)
        },
        SourceType::Array(el, dims) => {
            let first = match resolve(el, alen, reg, cache) {
                Result::Ok(x) => x,
                Result::Err(e) => {
                    return Result::Err(e);
                },
            };
            let ghost r1 = reg@;
            let id = wrap_dims(dims, first, reg);
            proof {
                lemma_extends_trans(reg@, r1, r0);
                lemma_cache_grow(*cache, r1, reg@, alen);
            }
            cache_record(cache, t, id, reg, Ghost(r0), alen);
            Result::Ok(id)
        },
        SourceType::Struct(fields) => {
            let cfs = match resolve_struct_fields(fields, alen, reg, cache) {
                Result::Ok(x) => x,
                Result::Err(e) => {
                    return Result::Err(e);
                },
            };
            let ghost r1 = reg@;
            let ghost fsv = fields_view(fields@);
            let ghost ids = resolve_fields_spec(fsv, r0, alen).1->Some_0;
            let id = reg.get_or_register(RegistryEntry::Composite(cfs));
            proof {
                lemma_gor_props(EntryV::Composite(named_fields(fsv, ids)), r1);
                lemma_extends_trans(reg@, r1, r0);
                lemma_cache_grow(*cache, r1, reg@, alen);
            }
            cache_record(cache, t, id, reg, Ghost(r0), alen);
            Result::Ok(id)
        },
        SourceType::Enum(vs) => {
            let id = register_enum(vs, reg);
            proof {
                lemma_cache_grow(*cache, r0, reg@, alen);
            }
            cache_record(cache, t, id, reg, Ghost(r0), alen);
            Result::Ok(id)
        },
        SourceType::FunctionRef => {
            let id = register_function_ref(alen, reg);
            proof {
                lemma_cache_grow(*cache, r0, reg@, alen);
            }
            cache_record(cache, t, id, reg, Ghost(r0), alen);
            Result::Ok(id)
        },
        SourceType::Ref(inner) => resolve(inner, alen, reg, cache),
        SourceType::StorageRef(inner) => resolve(inner, alen, reg, cache),
        SourceType::UserAlias(inner) => resolve(inner, alen, reg, cache),
        SourceType::Mapping(_, _) => Result::Err(MetadataError::UnsupportedType),
    }
}

} // verus!

//! The laws the pipeline obeys, stated and proven over the spec functions
//! that the executable functions' contracts are phrased in.

use vstd::prelude::*;

use crate::assemble::{assemble_spec, SemVer};
use crate::contract::ModelV;
use crate::registry::{reg_wf, EntryV, VariantEntryV};
use crate::resolve::{
    insert_by_disc, lemma_resolve_props, resolve_spec, sort_by_disc, widened_bits,
};
use crate::model::{TypeV, VariantV};
use crate::resolve::variant_conv;

verus! {

/// Dedup law, registry side: in a well-formed registry no two positions
/// hold structurally equal entries, so an id denotes its shape uniquely and
/// the registry's length counts exactly the distinct shapes it holds.
pub proof fn lemma_registry_dedup(r: Seq<EntryV>, i: int, j: int)
    requires
        reg_wf(r),
        0 <= i < r.len(),
        0 <= j < r.len(),
        r[i] == r[j],
    ensures
        i == j,
{
    if i < j {
        assert(r[i] != r[j]);
    }
    if j < i {
        assert(r[j] != r[i]);
    }
}

/// Dedup law, resolution side: two source types whose resolutions produce
/// structurally identical registry entries are given the same id.
pub proof fn lemma_resolution_dedup(t1: TypeV, t2: TypeV, r: Seq<EntryV>, alen: u32)
    requires
        reg_wf(r),
        resolve_spec(t1, r, alen).1 is Some,
        resolve_spec(t2, resolve_spec(t1, r, alen).0, alen).1 is Some,
        ({
            let (r1, h1) = resolve_spec(t1, r, alen);
            let (r2, h2) = resolve_spec(t2, r1, alen);
            r2[h1->Some_0] == r2[h2->Some_0]
        }),
    ensures
        resolve_spec(t1, r, alen).1 == resolve_spec(t2, resolve_spec(t1, r, alen).0, alen).1,
{
    let (r1, h1) = resolve_spec(t1, r, alen);
    let (r2, h2) = resolve_spec(t2, r1, alen);
    lemma_resolve_props(t1, r, alen);
    lemma_resolve_props(t2, r1, alen);
    lemma_registry_dedup(r2, h1->Some_0, h2->Some_0);
}

/// Determinism law: assembling the same program model and the same compiled
/// code twice yields the same descriptor — generation is a pure function of
/// its inputs.
pub proof fn lemma_deterministic(
    m1: ModelV,
    m2: ModelV,
    c1: Seq<u8>,
    c2: Seq<u8>,
    language_version: SemVer,
    compiler_version: SemVer,
)
    requires
        m1 == m2,
        c1 == c2,
    ensures
        assemble_spec(m1, c1, language_version, compiler_version) == assemble_spec(
            m2,
            c2,
            language_version,
            compiler_version,
        ),
{
}

/// Transparency law: resolving a reference, a storage reference or a
/// user-defined alias yields exactly what resolving the wrapped type
/// yields — same id, same registry, no wrapper entry.
pub proof fn lemma_transparency(t: TypeV, r: Seq<EntryV>, alen: u32)
    ensures
        resolve_spec(TypeV::Ref(Box::new(t)), r, alen) == resolve_spec(t, r, alen),
        resolve_spec(TypeV::StorageRef(Box::new(t)), r, alen) == resolve_spec(t, r, alen),
        resolve_spec(TypeV::UserAlias(Box::new(t)), r, alen) == resolve_spec(t, r, alen),
{
}

/// Width-widening law: a width already a supported power of two maps to
/// itself, every other supported width maps to the next power of two above
/// it, and a width beyond the largest supported primitive has no widening.
pub proof fn lemma_widening(w: u16)
    ensures
        (w == 8 || w == 16 || w == 32 || w == 64 || w == 128 || w == 256) ==> widened_bits(w)
            == Option::Some(w),
        widened_bits(w) matches Option::Some(b) ==> w <= b < 2 * w && b >= 8,
        w > 256 ==> widened_bits(w) is None,
{
}

/// Enum-ordering law, order side: the sorted variants are ordered by
/// discriminant, whatever the declaration order was.
pub proof fn lemma_variants_sorted(s: Seq<VariantEntryV>)
    ensures
        forall|i: int, j: int|
            0 <= i < j < sort_by_disc(s).len() ==> sort_by_disc(s)[i].discriminant <= sort_by_disc(
                s,
            )[j].discriminant,
    decreases s.len(),
{
    if s.len() > 0 {
        lemma_variants_sorted(s.drop_first());
        lemma_insert_keeps_order(s[0], sort_by_disc(s.drop_first()));
    }
}

/// Inserting into a discriminant-sorted sequence keeps it sorted.
proof fn lemma_insert_keeps_order(v: VariantEntryV, s: Seq<VariantEntryV>)
    requires
        forall|i: int, j: int| 0 <= i < j < s.len() ==> s[i].discriminant <= s[j].discriminant,
    ensures
        insert_by_disc(v, s).len() == s.len() + 1,
        forall|i: int, j: int|
            0 <= i < j < insert_by_disc(v, s).len() ==> insert_by_disc(v, s)[i].discriminant
                <= insert_by_disc(v, s)[j].discriminant,
    decreases s.len(),
{
    if s.len() == 0 {
    } else if v.discriminant < s[0].discriminant {
    } else {
        assert(forall|i: int, j: int|
            0 <= i < j < s.drop_first().len() ==> s.drop_first()[i].discriminant <= s.drop_first(
            )[j].discriminant);
        lemma_insert_keeps_order(v, s.drop_first());
        let out = insert_by_disc(v, s);
        let inner = insert_by_disc(v, s.drop_first());
        assert forall|i: int, j: int| 0 <= i < j < out.len() implies out[i].discriminant
            <= out[j].discriminant by {
            if i == 0 {
                assert(out[0] == s[0]);
                assert(out[j] == inner[j - 1]);
                if j - 1 == 0 {
                    lemma_insert_head(v, s.drop_first());
                } else {
                    lemma_insert_head(v, s.drop_first());
                    assert(inner[0].discriminant <= inner[j - 1].discriminant);
                }
            } else {
                assert(out[i] == inner[i - 1] && out[j] == inner[j - 1]);
            }
        }
    }
}

/// The head after insertion is the old head or the inserted variant, so the
/// head's discriminant never grows past both.
proof fn lemma_insert_head(v: VariantEntryV, s: Seq<VariantEntryV>)
    ensures
        insert_by_disc(v, s).len() == s.len() + 1,
        s.len() == 0 ==> insert_by_disc(v, s)[0] == v,
        s.len() > 0 ==> (insert_by_disc(v, s)[0] == v || insert_by_disc(v, s)[0] == s[0]),
    decreases s.len(),
{
    if s.len() > 0 {
        lemma_insert_head(v, s.drop_first());
    }
}

/// Enum-ordering law, content side: sorting keeps exactly the declared
/// variants, names and discriminants untouched.
pub proof fn lemma_variants_permuted(s: Seq<VariantEntryV>)
    ensures
        sort_by_disc(s).to_multiset() == s.to_multiset(),
    decreases s.len(),
{
    broadcast use vstd::seq_lib::group_to_multiset_ensures;

    if s.len() == 0 {
        assert(sort_by_disc(s) =~= s);
    } else {
        lemma_variants_permuted(s.drop_first());
        lemma_insert_multiset(s[0], sort_by_disc(s.drop_first()));
        assert(s =~= s.drop_first().insert(0, s[0]));
        assert(s.drop_first().insert(0, s[0]).to_multiset() == s.drop_first().to_multiset().insert(
            s[0],
        ));
    }
}

/// Enum-ordering law, resolution side: an enum resolves to a variant entry
/// holding exactly the declared variants, ordered by discriminant value,
/// whatever the declaration order was.
pub proof fn lemma_enum_ordering(vs: Seq<VariantV>, r: Seq<EntryV>, alen: u32)
    requires
        reg_wf(r),
    ensures
        ({
            let (r2, h) = resolve_spec(TypeV::Enum(vs), r, alen);
            let sorted = sort_by_disc(variant_conv(vs));
            &&& h matches Option::Some(id)
            &&& 0 <= h->Some_0 < r2.len()
            &&& r2[h->Some_0] == EntryV::Variant(sorted)
            &&& sorted.to_multiset() == variant_conv(vs).to_multiset()
            &&& forall|i: int, j: int|
                0 <= i < j < sorted.len() ==> sorted[i].discriminant <= sorted[j].discriminant
        }),
{
    crate::registry::lemma_gor_props(EntryV::Variant(sort_by_disc(variant_conv(vs))), r);
    lemma_variants_sorted(variant_conv(vs));
    lemma_variants_permuted(variant_conv(vs));
}

/// Insertion adds exactly the inserted variant to the contents.
proof fn lemma_insert_multiset(v: VariantEntryV, s: Seq<VariantEntryV>)
    ensures
        insert_by_disc(v, s).to_multiset() == s.to_multiset().insert(v),
    decreases s.len(),
{
    broadcast use vstd::seq_lib::group_to_multiset_ensures;

    if s.len() == 0 {
        assert(insert_by_disc(v, s) =~= Seq::<VariantEntryV>::empty().push(v));
        assert(Seq::<VariantEntryV>::empty().push(v).to_multiset() =~= s.to_multiset().insert(v));
    } else if v.discriminant < s[0].discriminant {
        assert(insert_by_disc(v, s) =~= s.insert(0, v));
    } else {
        lemma_insert_multiset(v, s.drop_first());
        let inner = insert_by_disc(v, s.drop_first());
        assert(insert_by_disc(v, s) =~= (seq![s[0]] + inner));
        assert((seq![s[0]] + inner) =~= inner.insert(0, s[0]));
        assert(s =~= s.drop_first().insert(0, s[0]));
        assert(s.to_multiset() == s.drop_first().to_multiset().insert(s[0]));
        assert(inner.insert(0, s[0]).to_multiset() == inner.to_multiset().insert(s[0]));
        assert(s.drop_first().to_multiset().insert(v).insert(s[0]) =~= s.drop_first().to_multiset(
        ).insert(s[0]).insert(v));
    }
}

} // verus!

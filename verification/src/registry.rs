//! The portable type registry: an append-only, structurally deduplicated
//! store of resolved type descriptors, indexed by insertion position.

use vstd::prelude::*;

verus! {

/// Primitive kinds the target runtime understands.
#[derive(Clone, Copy, PartialEq, Eq, Structural)]
pub enum Primitive {
    Bool,
    Str,
    U8,
    U16,
    U32,
    U64,
    U128,
    U256,
    I8,
    I16,
    I32,
    I64,
    I128,
    I256,
}

/// One field of a composite registry entry. `ty` is the registry id of the
/// field's type. `type_label` carries the rendered source-level type name
/// where one is attached (synthesized tuple entries carry an empty one),
/// and takes part in structural equality.
pub struct CompositeField {
    pub name: Option<String>,
    pub type_label: Option<String>,
    pub ty: usize,
}

/// One variant of a variant registry entry.
pub struct VariantEntry {
    pub name: String,
    pub discriminant: u8,
}

/// A resolved, target-shaped type descriptor. Identity is structural: two
/// entries of identical shape (nested ids included) are the same entry.
pub enum RegistryEntry {
    Primitive(Primitive),
    Composite(Vec<CompositeField>),
    /// Fixed-length array: (length, element id).
    Array(u32, usize),
    /// Variable-length sequence of the element id.
    Sequence(usize),
    Variant(Vec<VariantEntry>),
}

/// Mathematical view of a `CompositeField`.
pub struct CompositeFieldV {
    pub name: Option<Seq<char>>,
    pub type_label: Option<Seq<char>>,
    pub ty: int,
}

/// Mathematical view of a `VariantEntry`.
pub struct VariantEntryV {
    pub name: Seq<char>,
    pub discriminant: u8,
}

/// Mathematical view of a `RegistryEntry`.
pub enum EntryV {
    Primitive(Primitive),
    Composite(Seq<CompositeFieldV>),
    Array(u32, int),
    Sequence(int),
    Variant(Seq<VariantEntryV>),
}

pub open spec fn opt_string_view(s: Option<String>) -> Option<Seq<char>> {
    match s {
        Option::Some(s) => Option::Some(s@),
        Option::None => Option::None,
    }
}

impl View for CompositeField {
    type V = CompositeFieldV;

    open spec fn view(&self) -> CompositeFieldV {
        CompositeFieldV {
            name: opt_string_view(self.name),
            type_label: opt_string_view(self.type_label),
            ty: self.ty as int,
        }
    }
}

impl View for VariantEntry {
    type V = VariantEntryV;

    open spec fn view(&self) -> VariantEntryV {
        VariantEntryV { name: self.name@, discriminant: self.discriminant }
    }
}

pub open spec fn composite_fields_view(fs: Seq<CompositeField>) -> Seq<CompositeFieldV> {
    fs.map_values(|f: CompositeField| f@)
}

pub open spec fn variant_entries_view(vs: Seq<VariantEntry>) -> Seq<VariantEntryV> {
    vs.map_values(|v: VariantEntry| v@)
}

impl View for RegistryEntry {
    type V = EntryV;

    open spec fn view(&self) -> EntryV {
        match self {
            RegistryEntry::Primitive(p) => EntryV::Primitive(*p),
            RegistryEntry::Composite(fs) => EntryV::Composite(composite_fields_view(fs@)),
            RegistryEntry::Array(len, el) => EntryV::Array(*len, *el as int),
            RegistryEntry::Sequence(el) => EntryV::Sequence(*el as int),
            RegistryEntry::Variant(vs) => EntryV::Variant(variant_entries_view(vs@)),
        }
    }
}

/// Every id referenced by the entry lies below `bound`.
pub open spec fn entry_ids_below(e: EntryV, bound: int) -> bool {
    match e {
        EntryV::Primitive(_) => true,
        EntryV::Composite(fs) => forall|i: int| 0 <= i < fs.len() ==> 0 <= #[trigger] fs[i].ty < bound,
        EntryV::Array(_, el) => 0 <= el < bound,
        EntryV::Sequence(el) => 0 <= el < bound,
        EntryV::Variant(_) => true,
    }
}

/// Registry well-formedness: no two entries are structurally equal, and each
/// entry references only earlier entries (no forward references, no cycles).
pub open spec fn reg_wf(r: Seq<EntryV>) -> bool {
    &&& forall|i: int, j: int| 0 <= i < j < r.len() ==> r[i] != r[j]
    &&& forall|i: int| 0 <= i < r.len() ==> entry_ids_below(#[trigger] r[i], i)
}

/// `r2` is `r1` with zero or more entries appended.
pub open spec fn reg_extends(r2: Seq<EntryV>, r1: Seq<EntryV>) -> bool {
    r1.len() <= r2.len() && r2.subrange(0, r1.len() as int) == r1
}

pub proof fn lemma_extends_refl(r: Seq<EntryV>)
    ensures
        reg_extends(r, r),
{
    assert(r.subrange(0, r.len() as int) =~= r);
}

pub proof fn lemma_extends_trans(r3: Seq<EntryV>, r2: Seq<EntryV>, r1: Seq<EntryV>)
    requires
        reg_extends(r3, r2),
        reg_extends(r2, r1),
    ensures
        reg_extends(r3, r1),
{
    assert(r3.subrange(0, r1.len() as int) =~= r2.subrange(0, r1.len() as int));
}

/// Entries of the shorter registry are kept unchanged by an extension.
pub proof fn lemma_extends_index(r2: Seq<EntryV>, r1: Seq<EntryV>, i: int)
    requires
        reg_extends(r2, r1),
        0 <= i < r1.len(),
    ensures
        r2[i] == r1[i],
{
    assert(r2.subrange(0, r1.len() as int)[i] == r2[i]);
}

/// The index of `e` in `r`, where `e` occurs in `r`.
pub open spec fn entry_idx(r: Seq<EntryV>, e: EntryV) -> int {
    choose|i: int| 0 <= i < r.len() && r[i] == e
}

/// What `get_or_register` does: return the id of an already-present equal
/// entry, or append and return the fresh id.
pub open spec fn gor_spec(e: EntryV, r: Seq<EntryV>) -> (Seq<EntryV>, int) {
    if exists|i: int| 0 <= i < r.len() && r[i] == e {
        (r, entry_idx(r, e))
    } else {
        (r.push(e), r.len() as int)
    }
}

/// `get_or_register` keeps the registry well-formed, only appends, and hands
/// back an id that denotes exactly the requested entry.
pub proof fn lemma_gor_props(e: EntryV, r: Seq<EntryV>)
    requires
        reg_wf(r),
        entry_ids_below(e, r.len() as int),
    ensures
        ({
            let (r2, id) = gor_spec(e, r);
            &&& reg_wf(r2)
            &&& reg_extends(r2, r)
            &&& 0 <= id < r2.len()
            &&& r2[id] == e
        }),
{
    let (r2, id) = gor_spec(e, r);
    if exists|i: int| 0 <= i < r.len() && r[i] == e {
        lemma_extends_refl(r);
    } else {
        assert(r2.subrange(0, r.len() as int) =~= r);
        assert forall|i: int, j: int| 0 <= i < j < r2.len() implies r2[i] != r2[j] by {
            if j < r.len() {
            } else {
                assert(r2[j] == e);
            }
        }
        assert forall|i: int| 0 <= i < r2.len() implies entry_ids_below(#[trigger] r2[i], i) by {
            if i < r.len() {
            } else {
                assert(r2[i] == e);
            }
        }
    }
}

/// In a well-formed registry an entry sits at one index only, so an id that
/// denotes the entry is the id `get_or_register` returns.
pub proof fn lemma_gor_found(e: EntryV, r: Seq<EntryV>, id: int)
    requires
        reg_wf(r),
        0 <= id < r.len(),
        r[id] == e,
    ensures
        gor_spec(e, r) == (r, id),
{
    let j = entry_idx(r, e);
    if j != id {
        if j < id {
            assert(r[j] != r[id]);
        } else {
            assert(r[id] != r[j]);
        }
    }
}

/// The deduplicated registry itself.
pub struct PortableRegistry {
    pub entries: Vec<RegistryEntry>,
}

pub open spec fn entries_view(es: Seq<RegistryEntry>) -> Seq<EntryV> {
    es.map_values(|e: RegistryEntry| e@)
}

impl View for PortableRegistry {
    type V = Seq<EntryV>;

    open spec fn view(&self) -> Seq<EntryV> {
        entries_view(self.entries@)
    }
}

impl PortableRegistry {
    pub open spec fn wf(self) -> bool {
        reg_wf(self@)
    }

    pub fn empty() -> (r: PortableRegistry)
        ensures
            r@ =~= Seq::<EntryV>::empty(),
            r.wf(),
    {
        PortableRegistry { entries: Vec::new() }
    }

    pub fn len(&self) -> (n: usize)
        ensures
            n == self@.len(),
    {
        self.entries.len()
    }

    /// Structural-equality scan: return the id of an equal entry if one is
    /// present, otherwise append `e` and return its fresh id.
    pub fn get_or_register(&mut self, e: RegistryEntry) -> (id: usize)
        requires
            old(self).wf(),
            entry_ids_below(e@, old(self)@.len() as int),
        ensures
            final(self).wf(),
            gor_spec(e@, old(self)@) == (final(self)@, id as int),
            id < final(self)@.len(),
            final(self)@[id as int] == e@,
    {
        let ghost r0 = self@;
        let n = self.entries.len();
        let mut i: usize = 0;
        while i < n
            invariant
                n == self.entries.len(),
                self@ == r0,
                reg_wf(r0),
                entry_ids_below(e@, r0.len() as int),
                i <= n,
                forall|j: int| 0 <= j < i ==> self@[j] != e@,
            decreases n - i,
        {
            if entry_eq(&self.entries[i], &e) {
                proof {
                    lemma_gor_found(e@, r0, i as int);
                    lemma_gor_props(e@, r0);
                }
                return i;
            }
            i += 1;
        }
        let ghost ev = e@;
        self.entries.push(e);
        proof {
            assert(self@ =~= r0.push(ev));
            assert(!(exists|k: int| 0 <= k < r0.len() && r0[k] == ev));
            lemma_gor_props(ev, r0);
        }
        n
    }
}

/// Structural equality of two optional strings.
fn opt_string_eq(a: &Option<String>, b: &Option<String>) -> (r: bool)
    ensures
        r == (opt_string_view(*a) == opt_string_view(*b)),
{
    match (a, b) {
        (Option::Some(x), Option::Some(y)) => *x == *y,
        (Option::None, Option::None) => true,
        _ => false,
    }
}

/// Structural equality of registry entries, the relation the dedup scan uses.
pub fn entry_eq(a: &RegistryEntry, b: &RegistryEntry) -> (r: bool)
    ensures
        r == (a@ == b@),
{
    match (a, b) {
        (RegistryEntry::Primitive(p), RegistryEntry::Primitive(q)) => p == q,
        (RegistryEntry::Composite(fa), RegistryEntry::Composite(fb)) => {
            let ghost va = composite_fields_view(fa@);
            let ghost vb = composite_fields_view(fb@);
            assert(a@ == EntryV::Composite(va));
            assert(b@ == EntryV::Composite(vb));
            if fa.len() != fb.len() {
                assert(va.len() != vb.len());
                return false;
            }
            let n = fa.len();
            let mut i: usize = 0;
            while i < n
                invariant
                    n == fa.len() == fb.len(),
                    va == composite_fields_view(fa@),
                    vb == composite_fields_view(fb@),
                    a@ == EntryV::Composite(va),
                    b@ == EntryV::Composite(vb),
                    i <= n,
                    forall|j: int| 0 <= j < i ==> va[j] == vb[j],
                decreases n - i,
            {
                let fx = &fa[i];
                let fy = &fb[i];
                if !(opt_string_eq(&fx.name, &fy.name) && opt_string_eq(&fx.type_label, &fy.type_label)
                    && fx.ty == fy.ty) {
                    assert(va[i as int] != vb[i as int]);
                    return false;
                }
                i += 1;
            }
            assert(va =~= vb);
            true
        },
        (RegistryEntry::Array(la, ea), RegistryEntry::Array(lb, eb)) => la == lb && ea == eb,
        (RegistryEntry::Sequence(ea), RegistryEntry::Sequence(eb)) => ea == eb,
        (RegistryEntry::Variant(xa), RegistryEntry::Variant(xb)) => {
            let ghost va = variant_entries_view(xa@);
            let ghost vb = variant_entries_view(xb@);
            assert(a@ == EntryV::Variant(va));
            assert(b@ == EntryV::Variant(vb));
            if xa.len() != xb.len() {
                assert(va.len() != vb.len());
                return false;
            }
            let n = xa.len();
            let mut i: usize = 0;
            while i < n
                invariant
                    n == xa.len() == xb.len(),
                    va == variant_entries_view(xa@),
                    vb == variant_entries_view(xb@),
                    a@ == EntryV::Variant(va),
                    b@ == EntryV::Variant(vb),
                    i <= n,
                    forall|j: int| 0 <= j < i ==> va[j] == vb[j],
                decreases n - i,
            {
                let vx = &xa[i];
                let vy = &xb[i];
                if !(vx.name == vy.name && vx.discriminant == vy.discriminant) {
                    assert(va[i as int] != vb[i as int]);
                    return false;
                }
                i += 1;
            }
            assert(va =~= vb);
            true
        },
        _ => false,
    }
}

} // verus!

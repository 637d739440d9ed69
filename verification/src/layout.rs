//! The storage layout builder: one cell per representable storage variable,
//! keyed by its slot, in declaration order. Variables whose type transitively
//! contains an unbounded mapping, or whose in-memory size exceeds the
//! representable bound, are deliberately omitted — a documented gap, not an
//! error.

use vstd::prelude::*;

use crate::contract::{storage_view, StorageVar, StorageVarV};
use crate::model::{fields_view, lemma_fields_view_index, FieldDecl, FieldV, SourceType, TypeV};
use crate::model::ArrayLength;
use crate::registry::{reg_extends, reg_wf, EntryV, PortableRegistry};
use crate::resolve::{lemma_resolve_props, resolve, resolve_spec, MetadataError, TypeCache};

verus! {

broadcast use vstd::std_specs::vec::group_vec_axioms;

/// Whether the type transitively contains an unbounded mapping.
pub open spec fn has_mapping(t: TypeV) -> bool
    decreases t,
{
    match t {
        TypeV::Mapping(_, _) => true,
        TypeV::Array(el, _) => has_mapping(*el),
        TypeV::Struct(fs) => fields_have_mapping(fs),
        TypeV::Ref(x) => has_mapping(*x),
        TypeV::StorageRef(x) => has_mapping(*x),
        TypeV::UserAlias(x) => has_mapping(*x),
        _ => false,
    }
}

pub open spec fn fields_have_mapping(fs: Seq<FieldV>) -> bool
    decreases fs,
{
    if fs.len() == 0 {
        false
    } else {
        has_mapping(fs[0].ty) || fields_have_mapping(fs.drop_first())
    }
}

/// The largest in-memory size (in bytes) a storage variable may have and
/// still get a layout cell.
pub const SIZE_BOUND: u64 = 0xffff_ffff;

/// In-memory size of a value of the type, in bytes; `None` when the size
/// computation leaves the 64-bit range. Variable-length values (strings,
/// byte vectors, dynamic array levels) count as one vector handle.
pub open spec fn type_size(t: TypeV, alen: u32) -> Option<u64>
    decreases t,
{
    match t {
        TypeV::Bool => Option::Some(1u64),
        TypeV::Uint(w) => Option::Some((((w + 7) / 8) as u64)),
        TypeV::Int(w) => Option::Some((((w + 7) / 8) as u64)),
        TypeV::Str => Option::Some(4u64),
        TypeV::Address => Option::Some(alen as u64),
        TypeV::Bytes(n) => Option::Some(n as u64),
        TypeV::DynamicBytes => Option::Some(4u64),
        TypeV::Array(el, dims) => dims_size(dims, type_size(*el, alen)),
        TypeV::Struct(fs) => fields_size(fs, alen),
        TypeV::Enum(_) => Option::Some(1u64),
        TypeV::FunctionRef => Option::Some((alen as u64 + 4) as u64),
        TypeV::Ref(x) => type_size(*x, alen),
        TypeV::StorageRef(x) => type_size(*x, alen),
        TypeV::UserAlias(x) => type_size(*x, alen),
        TypeV::Mapping(_, _) => Option::Some(0u64),
    }
}

pub open spec fn size_mul(a: Option<u64>, b: u64) -> Option<u64> {
    match a {
        Option::None => Option::None,
        Option::Some(x) => if x * b > u64::MAX {
            Option::None
        } else {
            Option::Some((x * b) as u64)
        },
    }
}

pub open spec fn size_add(a: Option<u64>, b: Option<u64>) -> Option<u64> {
    match (a, b) {
        (Option::Some(x), Option::Some(y)) => if x + y > u64::MAX {
            Option::None
        } else {
            Option::Some((x + y) as u64)
        },
        _ => Option::None,
    }
}

/// Fold the element size through the dimensions, innermost first; a dynamic
/// dimension resets the running size to one vector handle.
pub open spec fn dims_size(dims: Seq<ArrayLength>, el: Option<u64>) -> Option<u64>
    decreases dims.len(),
{
    if dims.len() == 0 {
        el
    } else {
        let cur = match dims[0] {
            ArrayLength::Fixed(d) => size_mul(el, d as u64),
            ArrayLength::Dynamic => Option::Some(4u64),
        };
        dims_size(dims.drop_first(), cur)
    }
}

pub open spec fn fields_size(fs: Seq<FieldV>, alen: u32) -> Option<u64>
    decreases fs,
{
    if fs.len() == 0 {
        Option::Some(0u64)
    } else {
        size_add(type_size(fs[0].ty, alen), fields_size(fs.drop_first(), alen))
    }
}

/// A storage variable gets a layout cell exactly when its type contains no
/// mapping and its size stays within the representable bound.
pub open spec fn representable(t: TypeV, alen: u32) -> bool {
    !has_mapping(t) && (type_size(t, alen) matches Option::Some(s) && s <= SIZE_BOUND)
}

/// Whether the type transitively contains an unbounded mapping.
#[verifier::loop_isolation(false)]
pub fn contains_mapping(t: &SourceType) -> (r: bool)
    ensures
        r == has_mapping(t@),
    decreases t,
{
    match t {
        SourceType::Mapping(_, _) => true,
        SourceType::Array(el, _) => contains_mapping(el),
        SourceType::Struct(fs) => {
            let ghost fsv = fields_view(fs@);
            proof {
                lemma_fields_view_index(fs@);
            }
            let n = fs.len();
            let mut i: usize = 0;
            proof {
                assert(fsv.subrange(0, n as int) =~= fsv);
            }
            while i < n
                invariant
                    i <= n,
                    fields_have_mapping(fsv) == fields_have_mapping(
                        fsv.subrange(i as int, n as int),
                    ),
                decreases n - i,
            {
                proof {
                    assert(fsv.subrange(i as int, n as int)[0] == fsv[i as int]);
                    assert(fsv.subrange(i as int, n as int).drop_first() =~= fsv.subrange(
                        i as int + 1,
                        n as int,
                    ));
                }
                if contains_mapping(&fs[i].ty) {
                    return true;
                }
                i += 1;
            }
            proof {
                assert(fsv.subrange(n as int, n as int) =~= Seq::<FieldV>::empty());
            }
            false
        },
        SourceType::Ref(x) => contains_mapping(x),
        SourceType::StorageRef(x) => contains_mapping(x),
        SourceType::UserAlias(x) => contains_mapping(x),
        _ => false,
    }
}

/// Compute the in-memory size of the type.
#[verifier::loop_isolation(false)]
pub fn memory_size(t: &SourceType, alen: u32) -> (r: Option<u64>)
    ensures
        r == type_size(t@, alen),
    decreases t,
{
    match t {
        SourceType::Bool => Option::Some(1u64),
        SourceType::Uint(w) => Option::Some(((*w as u64) + 7) / 8),
        SourceType::Int(w) => Option::Some(((*w as u64) + 7) / 8),
        SourceType::Str => Option::Some(4u64),
        SourceType::Address => Option::Some(alen as u64),
        SourceType::Bytes(n) => Option::Some(*n as u64),
        SourceType::DynamicBytes => Option::Some(4u64),
        SourceType::Array(el, dims) => {
            let mut cur = memory_size(el, alen);
            let ghost dimsv = dims@;
            let n = dims.len();
            proof {
                assert(dimsv.subrange(0, n as int) =~= dimsv);
            }
            let ghost target = dims_size(dimsv, cur);
            let mut i: usize = 0;
            while i < n
                invariant
                    i <= n,
                    dims_size(dimsv.subrange(i as int, n as int), cur) == target,
                decreases n - i,
            {
                proof {
                    assert(dimsv.subrange(i as int, n as int)[0] == dimsv[i as int]);
                    assert(dimsv.subrange(i as int, n as int).drop_first() =~= dimsv.subrange(
                        i as int + 1,
                        n as int,
                    ));
                }
                cur = match dims[i] {
                    ArrayLength::Fixed(d) => {
                        match cur {
                            Option::None => Option::None,
                            Option::Some(x) => x.checked_mul(d as u64),
                        }
                    },
                    ArrayLength::Dynamic => Option::Some(4u64),
                };
                i += 1;
            }
            proof {
                assert(dimsv.subrange(n as int, n as int) =~= Seq::<ArrayLength>::empty());
            }
            cur
        },
        SourceType::Struct(fs) => {
            let ghost fsv = fields_view(fs@);
            proof {
                lemma_fields_view_index(fs@);
                assert(fsv.subrange(0, fs@.len() as int) =~= fsv);
            }
            let n = fs.len();
            let ghost target = fields_size(fsv, alen);
            let mut acc: Option<u64> = Option::Some(0u64);
            let mut i: usize = 0;
            while i < n
                invariant
                    i <= n,
                    ({
                        let rest = fields_size(fsv.subrange(i as int, n as int), alen);
                        target == match (acc, rest) {
                            (Option::Some(x), Option::Some(y)) => if x + y > u64::MAX {
                                Option::None
                            } else {
                                Option::Some((x + y) as u64)
                            },
                            _ => Option::None::<u64>,
                        }
                    }),
                decreases n - i,
            {
                proof {
                    assert(fsv.subrange(i as int, n as int)[0] == fsv[i as int]);
                    assert(fsv.subrange(i as int, n as int).drop_first() =~= fsv.subrange(
                        i as int + 1,
                        n as int,
                    ));
                }
                let fsize = memory_size(&fs[i].ty, alen);
                acc = match (acc, fsize) {
                    (Option::Some(x), Option::Some(y)) => x.checked_add(y),
                    _ => Option::None,
                };
                i += 1;
            }
            proof {
                assert(fsv.subrange(n as int, n as int) =~= Seq::<FieldV>::empty());
            }
            acc
        },
        SourceType::Enum(_) => Option::Some(1u64),
        SourceType::FunctionRef => Option::Some(alen as u64 + 4),
        SourceType::Ref(x) => memory_size(x, alen),
        SourceType::StorageRef(x) => memory_size(x, alen),
        SourceType::UserAlias(x) => memory_size(x, alen),
        SourceType::Mapping(_, _) => Option::Some(0u64),
    }
}

/// The lowercase hexadecimal digit of a value below sixteen.
pub open spec fn hex_digit(n: u64) -> u8 {
    if n < 10 {
        (0x30 + n) as u8
    } else {
        (0x61 + (n - 10)) as u8
    }
}

/// The lowest `digits` hexadecimal digits of `n`, most significant first.
pub open spec fn hex_pad(n: u64, digits: nat) -> Seq<u8>
    decreases digits,
{
    if digits == 0 {
        Seq::empty()
    } else {
        hex_pad(n / 16, (digits - 1) as nat) + seq![hex_digit(n % 16)]
    }
}

/// The 64-hex-digit big-endian storage key of a slot: a 32-byte key whose
/// low eight bytes hold the slot number.
pub open spec fn slot_key_spec(slot: u64) -> Seq<u8> {
    hex_pad(0, 48) + hex_pad(slot, 16)
}

fn hex_digit_of(n: u64) -> (r: u8)
    requires
        n < 16,
    ensures
        r == hex_digit(n),
{
    if n < 10 {
        0x30 + (n as u8)
    } else {
        0x61 + ((n - 10) as u8)
    }
}

fn hex_pad_of(n: u64, digits: u32) -> (r: Vec<u8>)
    ensures
        r@ == hex_pad(n, digits as nat),
    decreases digits,
{
    if digits == 0 {
        Vec::new()
    } else {
        let mut v = hex_pad_of(n / 16, digits - 1);
        let ghost pre = v@;
        v.push(hex_digit_of(n % 16));
        proof {
            assert(v@ =~= pre + seq![hex_digit(n % 16)]);
        }
        v
    }
}

/// Render a storage slot as its 64-hex-digit big-endian key, in ASCII bytes.
pub fn slot_key_hex(slot: u64) -> (r: Vec<u8>)
    ensures
        r@ == slot_key_spec(slot),
        r@.len() == 64,
{
    proof {
        lemma_hex_pad_len(0, 48);
        lemma_hex_pad_len(slot, 16);
    }
    let mut v = hex_pad_of(0, 48);
    let mut tail = hex_pad_of(slot, 16);
    let ghost pre = v@;
    let ghost tv = tail@;
    v.append(&mut tail);
    proof {
        assert(v@ =~= pre + tv);
    }
    v
}

proof fn lemma_hex_pad_len(n: u64, digits: nat)
    ensures
        hex_pad(n, digits).len() == digits,
    decreases digits,
{
    if digits > 0 {
        lemma_hex_pad_len(n / 16, (digits - 1) as nat);
    }
}

/// One inspectable storage location: slot key, registry type id, variable
/// name.
pub struct LayoutCell {
    pub slot: u64,
    pub ty: usize,
    pub name: String,
}

/// Mathematical view of a `LayoutCell`.
pub struct LayoutCellV {
    pub slot: u64,
    pub ty: int,
    pub name: Seq<char>,
}

impl View for LayoutCell {
    type V = LayoutCellV;

    open spec fn view(&self) -> LayoutCellV {
        LayoutCellV { slot: self.slot, ty: self.ty as int, name: self.name@ }
    }
}

pub open spec fn cells_view(cs: Seq<LayoutCell>) -> Seq<LayoutCellV> {
    cs.map_values(|c: LayoutCell| c@)
}

/// The storage layout: the representable variables' cells, in declaration
/// order, grouped as one top-level composite.
pub struct StorageLayout {
    pub cells: Vec<LayoutCell>,
}

impl View for StorageLayout {
    type V = Seq<LayoutCellV>;

    open spec fn view(&self) -> Seq<LayoutCellV> {
        cells_view(self.cells@)
    }
}

/// What the layout builder computes: one cell per representable variable,
/// keyed by its slot and the resolved registry id of its type.
pub open spec fn layout_spec(vars: Seq<StorageVarV>, r: Seq<EntryV>, alen: u32) -> (
    Seq<EntryV>,
    Option<Seq<LayoutCellV>>,
)
    decreases vars.len(),
{
    if vars.len() == 0 {
        (r, Option::Some(Seq::empty()))
    } else {
        let v = vars[0];
        if !representable(v.ty, alen) {
            layout_spec(vars.drop_first(), r, alen)
        } else {
            let (r1, h) = resolve_spec(v.ty, r, alen);
            match h {
                Option::None => (r1, Option::None),
                Option::Some(id) => {
                    let (r2, rest) = layout_spec(vars.drop_first(), r1, alen);
                    match rest {
                        Option::None => (r2, Option::None),
                        Option::Some(cells) => (
                            r2,
                            Option::Some(
                                seq![LayoutCellV { slot: v.slot, ty: id, name: v.name }] + cells,
                            ),
                        ),
                    }
                },
            }
        }
    }
}

/// The variables that are representable, in declaration order.
pub open spec fn representable_vars(vars: Seq<StorageVarV>, alen: u32) -> Seq<StorageVarV>
    decreases vars.len(),
{
    if vars.len() == 0 {
        Seq::empty()
    } else if representable(vars[0].ty, alen) {
        seq![vars[0]] + representable_vars(vars.drop_first(), alen)
    } else {
        representable_vars(vars.drop_first(), alen)
    }
}

/// Layout exclusion: the built layout holds exactly one cell per
/// representable variable — a variable whose type contains an unbounded
/// mapping (or exceeds the size bound) is absent, every other variable
/// appears exactly once, in declaration order, under its name and slot.
pub proof fn lemma_layout_exclusion(vars: Seq<StorageVarV>, r: Seq<EntryV>, alen: u32)
    requires
        reg_wf(r),
        layout_spec(vars, r, alen).1 is Some,
    ensures
        ({
            let cells = layout_spec(vars, r, alen).1->Some_0;
            let included = representable_vars(vars, alen);
            &&& cells.len() == included.len()
            &&& forall|i: int| 0 <= i < cells.len() ==> (#[trigger] cells[i]).name
                == included[i].name && cells[i].slot == included[i].slot
        }),
    decreases vars.len(),
{
    if vars.len() == 0 {
    } else {
        let v = vars[0];
        if !representable(v.ty, alen) {
            lemma_layout_exclusion(vars.drop_first(), r, alen);
        } else {
            lemma_resolve_props(v.ty, r, alen);
            let (r1, h) = resolve_spec(v.ty, r, alen);
            lemma_layout_exclusion(vars.drop_first(), r1, alen);
        }
    }
}

/// Build the storage layout, resolving each representable variable's type.
#[verifier::loop_isolation(false)]
#[verifier::rlimit(60)]
pub fn build_layout(
    vars: &Vec<StorageVar>,
    alen: u32,
    reg: &mut PortableRegistry,
    cache: &mut TypeCache,
) -> (res: Result<StorageLayout, MetadataError>)
    requires
        old(reg).wf(),
        old(cache).wf(old(reg)@, alen),
    ensures
        final(reg).wf(),
        final(cache).wf(final(reg)@, alen),
        reg_extends(final(reg)@, old(reg)@),
        layout_spec(storage_view(vars@), old(reg)@, alen).0 == final(reg)@,
        match res {
            Result::Ok(layout) => layout_spec(storage_view(vars@), old(reg)@, alen).1
                == Option::Some(layout@),
            Result::Err(e) => layout_spec(storage_view(vars@), old(reg)@, alen).1 is None && e
                == MetadataError::UnsupportedType,
        },
{
    let ghost r0 = reg@;
    let ghost vsv = storage_view(vars@);
    let n = vars.len();
    proof {
        crate::registry::lemma_extends_refl(r0);
        assert(vsv.subrange(0, n as int) =~= vsv);
    }
    let mut cells: Vec<LayoutCell> = Vec::new();
    let mut i: usize = 0;
    while i < n
        invariant
            i <= n,
            reg.wf(),
            reg_extends(reg@, r0),
            cache.wf(reg@, alen),
            ({
                let (r2, rest) = layout_spec(vsv.subrange(i as int, n as int), reg@, alen);
                &&& layout_spec(vsv, r0, alen).0 == r2
                &&& layout_spec(vsv, r0, alen).1 == match rest {
                    Option::None => Option::None::<Seq<LayoutCellV>>,
                    Option::Some(cs) => Option::Some(cells_view(cells@) + cs),
                }
            }),
        decreases n - i,
    {
        proof {
            assert(vsv.subrange(i as int, n as int)[0] == vsv[i as int]);
            assert(vsv.subrange(i as int, n as int).drop_first() =~= vsv.subrange(
                i as int + 1,
                n as int,
            ));
        }
        let var = &vars[i];
        let mut keep = !contains_mapping(&var.ty);
        if keep {
            match memory_size(&var.ty, alen) {
                Option::Some(s) => {
                    if s > SIZE_BOUND {
                        keep = false;
                    }
                },
                Option::None => {
                    keep = false;
                },
            }
        }
        if keep {
            let ghost rpre = reg@;
            let id = match resolve(&var.ty, alen, reg, cache) {
                Result::Ok(x) => x,
                Result::Err(e) => {
                    proof {
                        crate::registry::lemma_extends_trans(reg@, rpre, r0);
                    }
                    return Result::Err(e);
                },
            };
            let ghost pre = cells@;
            cells.push(LayoutCell { slot: var.slot, ty: id, name: var.name.clone() });
            proof {
                crate::registry::lemma_extends_trans(reg@, rpre, r0);
                assert(cells_view(cells@) =~= cells_view(pre) + seq![
                    LayoutCellV { slot: vsv[i as int].slot, ty: id as int, name: vsv[i as int].name },
                ]);
                let (r2, rest) = layout_spec(vsv.subrange(i as int + 1, n as int), reg@, alen);
                match rest {
                    Option::None => {},
                    Option::Some(cs) => {
                        assert((cells_view(pre) + (seq![
                            LayoutCellV {
                                slot: vsv[i as int].slot,
                                ty: id as int,
                                name: vsv[i as int].name,
                            },
                        ] + cs)) =~= (cells_view(cells@) + cs));
                    },
                }
            }
        }
        i += 1;
    }
    proof {
        assert(vsv.subrange(n as int, n as int) =~= Seq::<StorageVarV>::empty());
        assert(cells_view(cells@) + Seq::<LayoutCellV>::empty() =~= cells_view(cells@));
    }
    Result::Ok(StorageLayout { cells })
}

} // verus!

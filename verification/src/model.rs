//! The source program model: the type algebra handed over by the semantic
//! analyzer, read-only to this library.

use vstd::prelude::*;

verus! {

broadcast use vstd::std_specs::vec::group_vec_axioms;

/// Length of one dimension of a fixed array, or a dynamic dimension.
#[derive(Clone, Copy, PartialEq, Eq, Structural)]
pub enum ArrayLength {
    Fixed(u32),
    Dynamic,
}

/// A named field of a source-level struct.
pub struct FieldDecl {
    pub name: String,
    pub ty: SourceType,
}

/// A named variant of a source-level enum with its explicit discriminant.
pub struct VariantDecl {
    pub name: String,
    pub discriminant: u8,
}

/// The source type algebra. Resolution lowers each of these into a portable
/// registry entry; `Mapping` is representable in storage but outside the
/// resolvable set.
pub enum SourceType {
    Bool,
    /// Unsigned integer of the given bit width.
    Uint(u16),
    /// Signed integer of the given bit width.
    Int(u16),
    /// Textual string.
    Str,
    /// Address-like type (account identifier); width is a resolution-context
    /// parameter, not part of the type.
    Address,
    /// Fixed-length byte sequence.
    Bytes(u8),
    /// Variable-length byte sequence.
    DynamicBytes,
    /// Possibly multi-dimensional array; innermost dimension first, so the
    /// last dimension is the outermost wrapper.
    Array(Box<SourceType>, Vec<ArrayLength>),
    Struct(Vec<FieldDecl>),
    Enum(Vec<VariantDecl>),
    /// Reference to an externally callable function.
    FunctionRef,
    /// Transparent reference wrapper.
    Ref(Box<SourceType>),
    /// Transparent storage-reference wrapper.
    StorageRef(Box<SourceType>),
    /// Transparent user-defined alias.
    UserAlias(Box<SourceType>),
    /// Unbounded key-value mapping; not resolvable into the registry.
    Mapping(Box<SourceType>, Box<SourceType>),
}

/// Mathematical view of a `FieldDecl`.
pub struct FieldV {
    pub name: Seq<char>,
    pub ty: TypeV,
}

/// Mathematical view of a `VariantDecl`.
pub struct VariantV {
    pub name: Seq<char>,
    pub discriminant: u8,
}

/// Mathematical view of a `SourceType`.
pub enum TypeV {
    Bool,
    Uint(u16),
    Int(u16),
    Str,
    Address,
    Bytes(u8),
    DynamicBytes,
    Array(Box<TypeV>, Seq<ArrayLength>),
    Struct(Seq<FieldV>),
    Enum(Seq<VariantV>),
    FunctionRef,
    Ref(Box<TypeV>),
    StorageRef(Box<TypeV>),
    UserAlias(Box<TypeV>),
    Mapping(Box<TypeV>, Box<TypeV>),
}

pub open spec fn fields_view(fs: Seq<FieldDecl>) -> Seq<FieldV>
    decreases fs,
{
    if fs.len() == 0 {
        Seq::empty()
    } else {
        seq![FieldV { name: fs[0].name@, ty: fs[0].ty.sview() }] + fields_view(fs.drop_first())
    }
}

pub open spec fn variants_view(vs: Seq<VariantDecl>) -> Seq<VariantV> {
    vs.map_values(|v: VariantDecl| VariantV { name: v.name@, discriminant: v.discriminant })
}

impl SourceType {
    /// Structural view of the type, with strings abstracted to character
    /// sequences.
    pub open spec fn sview(self) -> TypeV
        decreases self,
    {
        match self {
            SourceType::Bool => TypeV::Bool,
            SourceType::Uint(w) => TypeV::Uint(w),
            SourceType::Int(w) => TypeV::Int(w),
            SourceType::Str => TypeV::Str,
            SourceType::Address => TypeV::Address,
            SourceType::Bytes(n) => TypeV::Bytes(n),
            SourceType::DynamicBytes => TypeV::DynamicBytes,
            SourceType::Array(el, dims) => TypeV::Array(Box::new(el.sview()), dims@),
            SourceType::Struct(fs) => TypeV::Struct(fields_view(fs@)),
            SourceType::Enum(vs) => TypeV::Enum(variants_view(vs@)),
            SourceType::FunctionRef => TypeV::FunctionRef,
            SourceType::Ref(t) => TypeV::Ref(Box::new(t.sview())),
            SourceType::StorageRef(t) => TypeV::StorageRef(Box::new(t.sview())),
            SourceType::UserAlias(t) => TypeV::UserAlias(Box::new(t.sview())),
            SourceType::Mapping(k, v) => TypeV::Mapping(Box::new(k.sview()), Box::new(v.sview())),
        }
    }
}

impl View for SourceType {
    type V = TypeV;

    open spec fn view(&self) -> TypeV {
        self.sview()
    }
}

impl SourceType {
    /// Deep structural copy; the copy has the same view.
    #[verifier::loop_isolation(false)]
    pub fn duplicate(&self) -> (r: SourceType)
        ensures
            r@ == self@,
        decreases self,
    {
        match self {
            SourceType::Bool => SourceType::Bool,
            SourceType::Uint(w) => SourceType::Uint(*w),
            SourceType::Int(w) => SourceType::Int(*w),
            SourceType::Str => SourceType::Str,
            SourceType::Address => SourceType::Address,
            SourceType::Bytes(n) => SourceType::Bytes(*n),
            SourceType::DynamicBytes => SourceType::DynamicBytes,
            SourceType::Array(el, dims) => {
                let el2 = Box::new(el.duplicate());
                let mut dims2: Vec<ArrayLength> = Vec::new();
                let n = dims.len();
                let mut i: usize = 0;
                while i < n
                    invariant
                        n == dims.len(),
                        i <= n,
                        dims2@ == dims@.subrange(0, i as int),
                    decreases n - i,
                {
                    dims2.push(dims[i]);
                    assert(dims2@ =~= dims@.subrange(0, i + 1 as int));
                    i += 1;
                }
                assert(dims2@ =~= dims@);
                SourceType::Array(el2, dims2)
            },
            SourceType::Struct(fs) => {
                let mut fs2: Vec<FieldDecl> = Vec::new();
                let n = fs.len();
                let mut i: usize = 0;
                while i < n
                    invariant
                        n == fs.len(),
                        i <= n,
                        fs2@.len() == i,
                        fields_view(fs2@) == fields_view(fs@).subrange(0, i as int),
                    decreases n - i,
                {
                    let ghost pre = fs2@;
                    fs2.push(FieldDecl { name: fs[i].name.clone(), ty: fs[i].ty.duplicate() });
                    proof {
                        lemma_fields_view_index(pre);
                        lemma_fields_view_index(fs2@);
                        lemma_fields_view_index(fs@);
                        assert(fields_view(fs2@) =~= fields_view(fs@).subrange(0, i + 1 as int));
                    }
                    i += 1;
                }
                proof {
                    lemma_fields_view_index(fs@);
                    assert(fields_view(fs2@) =~= fields_view(fs@));
                }
                SourceType::Struct(fs2)
            },
            SourceType::Enum(vs) => {
                let mut vs2: Vec<VariantDecl> = Vec::new();
                let n = vs.len();
                let mut i: usize = 0;
                while i < n
                    invariant
                        n == vs.len(),
                        i <= n,
                        vs2@.len() == i,
                        variants_view(vs2@) == variants_view(vs@).subrange(0, i as int),
                    decreases n - i,
                {
                    vs2.push(VariantDecl {
                        name: vs[i].name.clone(),
                        discriminant: vs[i].discriminant,
                    });
                    assert(variants_view(vs2@) =~= variants_view(vs@).subrange(0, i + 1 as int));
                    i += 1;
                }
                assert(variants_view(vs2@) =~= variants_view(vs@));
                SourceType::Enum(vs2)
            },
            SourceType::FunctionRef => SourceType::FunctionRef,
            SourceType::Ref(t) => SourceType::Ref(Box::new(t.duplicate())),
            SourceType::StorageRef(t) => SourceType::StorageRef(Box::new(t.duplicate())),
            SourceType::UserAlias(t) => SourceType::UserAlias(Box::new(t.duplicate())),
            SourceType::Mapping(k, v) => SourceType::Mapping(
                Box::new(k.duplicate()),
                Box::new(v.duplicate()),
            ),
        }
    }
}

/// Structural equality of source types: true exactly when the views agree.
#[verifier::loop_isolation(false)]
pub fn st_eq(a: &SourceType, b: &SourceType) -> (r: bool)
    ensures
        r == (a@ == b@),
    decreases a,
{
    match (a, b) {
        (SourceType::Bool, SourceType::Bool) => true,
        (SourceType::Uint(x), SourceType::Uint(y)) => x == y,
        (SourceType::Int(x), SourceType::Int(y)) => x == y,
        (SourceType::Str, SourceType::Str) => true,
        (SourceType::Address, SourceType::Address) => true,
        (SourceType::Bytes(x), SourceType::Bytes(y)) => x == y,
        (SourceType::DynamicBytes, SourceType::DynamicBytes) => true,
        (SourceType::Array(ea, da), SourceType::Array(eb, db)) => {
            if !st_eq(ea, eb) {
                return false;
            }
            if da.len() != db.len() {
                return false;
            }
            let n = da.len();
            let mut i: usize = 0;
            while i < n
                invariant
                    n == da.len() == db.len(),
                    i <= n,
                    forall|j: int| 0 <= j < i ==> da@[j] == db@[j],
                decreases n - i,
            {
                if da[i] != db[i] {
                    assert(da@ != db@);
                    return false;
                }
                i += 1;
            }
            assert(da@ =~= db@);
            true
        },
        (SourceType::Struct(fa), SourceType::Struct(fb)) => {
            let ghost va = fields_view(fa@);
            let ghost vb = fields_view(fb@);
            proof {
                lemma_fields_view_index(fa@);
                lemma_fields_view_index(fb@);
            }
            if fa.len() != fb.len() {
                return false;
            }
            let n = fa.len();
            let mut i: usize = 0;
            while i < n
                invariant
                    n == fa.len() == fb.len(),
                    va == fields_view(fa@),
                    vb == fields_view(fb@),
                    va.len() == n && vb.len() == n,
                    a@ == TypeV::Struct(va),
                    b@ == TypeV::Struct(vb),
                    forall|j: int| 0 <= j < i ==> va[j] == vb[j],
                    i <= n,
                decreases n - i,
            {
                proof {
                    lemma_fields_view_index(fa@);
                    lemma_fields_view_index(fb@);
                }
                if !(fa[i].name == fb[i].name && st_eq(&fa[i].ty, &fb[i].ty)) {
                    assert(va[i as int] != vb[i as int]);
                    assert(va != vb);
                    return false;
                }
                assert(va[i as int] == vb[i as int]);
                i += 1;
            }
            assert(va =~= vb);
            true
        },
        (SourceType::Enum(xa), SourceType::Enum(xb)) => {
            let ghost va = variants_view(xa@);
            let ghost vb = variants_view(xb@);
            assert(a@ == TypeV::Enum(va));
            assert(b@ == TypeV::Enum(vb));
            if xa.len() != xb.len() {
                assert(va.len() != vb.len());
                return false;
            }
            let n = xa.len();
            let mut i: usize = 0;
            while i < n
                invariant
                    n == xa.len() == xb.len(),
                    va == variants_view(xa@),
                    vb == variants_view(xb@),
                    a@ == TypeV::Enum(va),
                    b@ == TypeV::Enum(vb),
                    forall|j: int| 0 <= j < i ==> va[j] == vb[j],
                    i <= n,
                decreases n - i,
            {
                if !(xa[i].name == xb[i].name && xa[i].discriminant == xb[i].discriminant) {
                    assert(va[i as int] != vb[i as int]);
                    assert(va != vb);
                    return false;
                }
                i += 1;
            }
            assert(va =~= vb);
            true
        },
        (SourceType::FunctionRef, SourceType::FunctionRef) => true,
        (SourceType::Ref(x), SourceType::Ref(y)) => st_eq(x, y),
        (SourceType::StorageRef(x), SourceType::StorageRef(y)) => st_eq(x, y),
        (SourceType::UserAlias(x), SourceType::UserAlias(y)) => st_eq(x, y),
        (SourceType::Mapping(ka, va), SourceType::Mapping(kb, vb)) => {
            st_eq(ka, kb) && st_eq(va, vb)
        },
        _ => false,
    }
}

/// `fields_view` distributes over indexing.
pub proof fn lemma_fields_view_index(fs: Seq<FieldDecl>)
    ensures
        fields_view(fs).len() == fs.len(),
        forall|i: int|
            0 <= i < fs.len() ==> #[trigger] fields_view(fs)[i] == (FieldV {
                name: fs[i].name@,
                ty: fs[i].ty.sview(),
            }),
    decreases fs,
{
    if fs.len() > 0 {
        lemma_fields_view_index(fs.drop_first());
    }
}

} // verus!

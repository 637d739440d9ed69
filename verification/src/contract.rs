//! The resolved contract program model handed over by the semantic
//! analyzer: functions, events, storage slot assignments, documentation
//! tags. Read-only input to descriptor generation.

use vstd::prelude::*;

use crate::model::{SourceType, TypeV};

verus! {

/// State-mutability annotation of a function.
#[derive(Clone, Copy, PartialEq, Eq, Structural)]
pub enum Mutability {
    Pure,
    Readonly,
    Nonpayable,
    Payable,
}

/// Source-level visibility of a function.
#[derive(Clone, Copy, PartialEq, Eq, Structural)]
pub enum Visibility {
    Public,
    External,
    Internal,
    Private,
}

/// What kind of function a definition is.
#[derive(Clone, Copy, PartialEq, Eq, Structural)]
pub enum FunctionKind {
    Constructor,
    /// A plain callable function.
    Callable,
    Fallback,
    Receive,
}

/// A named function parameter.
pub struct Param {
    pub name: String,
    pub ty: SourceType,
}

/// A (possibly anonymous) return value.
pub struct ReturnParam {
    pub name: Option<String>,
    pub ty: SourceType,
}

/// One function of the contract, with its externally computed selector and
/// its documentation already rendered.
pub struct FunctionDef {
    pub name: String,
    /// Externally supplied selector bytes; four bytes for a well-formed model.
    pub selector: Vec<u8>,
    pub kind: FunctionKind,
    pub visibility: Visibility,
    pub mutability: Mutability,
    /// True when the function comes from a library-kind contract.
    pub in_library: bool,
    pub params: Vec<Param>,
    pub returns: Vec<ReturnParam>,
    pub docs: String,
}

/// One field of an event declaration.
pub struct EventField {
    pub name: String,
    pub ty: SourceType,
    pub indexed: bool,
}

/// One event the contract is statically known to emit.
pub struct EventDecl {
    pub name: String,
    pub fields: Vec<EventField>,
    pub docs: String,
}

/// A source-level documentation tag.
pub struct Tag {
    pub tag: String,
    pub value: String,
}

/// One storage variable with its assigned slot.
pub struct StorageVar {
    pub name: String,
    pub slot: u64,
    pub ty: SourceType,
}

/// The whole program model for one contract.
pub struct ContractModel {
    pub name: String,
    pub tags: Vec<Tag>,
    pub docs: String,
    /// Byte width of an address in the target runtime.
    pub address_length: u32,
    pub storage: Vec<StorageVar>,
    pub functions: Vec<FunctionDef>,
    /// A synthesized argument-free constructor, when the model declares one
    /// with no explicit body.
    pub default_constructor: Option<FunctionDef>,
    pub events: Vec<EventDecl>,
}

/// Mathematical view of a `Param`.
pub struct ParamV {
    pub name: Seq<char>,
    pub ty: TypeV,
}

/// Mathematical view of a `ReturnParam`.
pub struct ReturnParamV {
    pub name: Option<Seq<char>>,
    pub ty: TypeV,
}

/// Mathematical view of a `FunctionDef`.
pub struct FunctionV {
    pub name: Seq<char>,
    pub selector: Seq<u8>,
    pub kind: FunctionKind,
    pub visibility: Visibility,
    pub mutability: Mutability,
    pub in_library: bool,
    pub params: Seq<ParamV>,
    pub returns: Seq<ReturnParamV>,
    pub docs: Seq<char>,
}

/// Mathematical view of an `EventField`.
pub struct EventFieldV {
    pub name: Seq<char>,
    pub ty: TypeV,
    pub indexed: bool,
}

/// Mathematical view of an `EventDecl`.
pub struct EventV {
    pub name: Seq<char>,
    pub fields: Seq<EventFieldV>,
    pub docs: Seq<char>,
}

/// Mathematical view of a `Tag`.
pub struct TagV {
    pub tag: Seq<char>,
    pub value: Seq<char>,
}

/// Mathematical view of a `StorageVar`.
pub struct StorageVarV {
    pub name: Seq<char>,
    pub slot: u64,
    pub ty: TypeV,
}

/// Mathematical view of a `ContractModel`.
pub struct ModelV {
    pub name: Seq<char>,
    pub tags: Seq<TagV>,
    pub docs: Seq<char>,
    pub address_length: u32,
    pub storage: Seq<StorageVarV>,
    pub functions: Seq<FunctionV>,
    pub default_constructor: Option<FunctionV>,
    pub events: Seq<EventV>,
}

impl View for Param {
    type V = ParamV;

    open spec fn view(&self) -> ParamV {
        ParamV { name: self.name@, ty: self.ty@ }
    }
}

impl View for ReturnParam {
    type V = ReturnParamV;

    open spec fn view(&self) -> ReturnParamV {
        ReturnParamV { name: crate::registry::opt_string_view(self.name), ty: self.ty@ }
    }
}

pub open spec fn params_view(ps: Seq<Param>) -> Seq<ParamV> {
    ps.map_values(|p: Param| p@)
}

pub open spec fn returns_view(ps: Seq<ReturnParam>) -> Seq<ReturnParamV> {
    ps.map_values(|p: ReturnParam| p@)
}

impl View for FunctionDef {
    type V = FunctionV;

    open spec fn view(&self) -> FunctionV {
        FunctionV {
            name: self.name@,
            selector: self.selector@,
            kind: self.kind,
            visibility: self.visibility,
            mutability: self.mutability,
            in_library: self.in_library,
            params: params_view(self.params@),
            returns: returns_view(self.returns@),
            docs: self.docs@,
        }
    }
}

impl View for EventField {
    type V = EventFieldV;

    open spec fn view(&self) -> EventFieldV {
        EventFieldV { name: self.name@, ty: self.ty@, indexed: self.indexed }
    }
}

pub open spec fn event_fields_view(fs: Seq<EventField>) -> Seq<EventFieldV> {
    fs.map_values(|f: EventField| f@)
}

impl View for EventDecl {
    type V = EventV;

    open spec fn view(&self) -> EventV {
        EventV { name: self.name@, fields: event_fields_view(self.fields@), docs: self.docs@ }
    }
}

impl View for Tag {
    type V = TagV;

    open spec fn view(&self) -> TagV {
        TagV { tag: self.tag@, value: self.value@ }
    }
}

impl View for StorageVar {
    type V = StorageVarV;

    open spec fn view(&self) -> StorageVarV {
        StorageVarV { name: self.name@, slot: self.slot, ty: self.ty@ }
    }
}

pub open spec fn tags_view(ts: Seq<Tag>) -> Seq<TagV> {
    ts.map_values(|t: Tag| t@)
}

pub open spec fn storage_view(vs: Seq<StorageVar>) -> Seq<StorageVarV> {
    vs.map_values(|v: StorageVar| v@)
}

pub open spec fn functions_view(fs: Seq<FunctionDef>) -> Seq<FunctionV> {
    fs.map_values(|f: FunctionDef| f@)
}

pub open spec fn events_view(es: Seq<EventDecl>) -> Seq<EventV> {
    es.map_values(|e: EventDecl| e@)
}

pub open spec fn opt_function_view(f: Option<FunctionDef>) -> Option<FunctionV> {
    match f {
        Option::Some(f) => Option::Some(f@),
        Option::None => Option::None,
    }
}

impl View for ContractModel {
    type V = ModelV;

    open spec fn view(&self) -> ModelV {
        ModelV {
            name: self.name@,
            tags: tags_view(self.tags@),
            docs: self.docs@,
            address_length: self.address_length,
            storage: storage_view(self.storage@),
            functions: functions_view(self.functions@),
            default_constructor: opt_function_view(self.default_constructor),
            events: events_view(self.events@),
        }
    }
}

/// The values of all documentation tags with the given tag name, in order.
pub open spec fn tag_values(ts: Seq<TagV>, name: Seq<char>) -> Seq<Seq<char>>
    decreases ts.len(),
{
    if ts.len() == 0 {
        Seq::empty()
    } else if ts[0].tag == name {
        seq![ts[0].value] + tag_values(ts.drop_first(), name)
    } else {
        tag_values(ts.drop_first(), name)
    }
}

pub open spec fn strings_view(ss: Seq<String>) -> Seq<Seq<char>> {
    ss.map_values(|s: String| s@)
}

/// Collect the values of the contract's documentation tags that carry the
/// given tag name, in declaration order.
#[verifier::loop_isolation(false)]
pub fn tags(model: &ContractModel, tagname: &str) -> (r: Vec<String>)
    ensures
        strings_view(r@) == tag_values(tags_view(model.tags@), tagname@),
{
    let ghost tv = tags_view(model.tags@);
    let tn: String = tagname.to_owned();
    let n = model.tags.len();
    let mut out: Vec<String> = Vec::new();
    let mut i: usize = 0;
    proof {
        assert(tv.subrange(0, n as int) =~= tv);
    }
    while i < n
        invariant
            i <= n,
            strings_view(out@) + tag_values(tv.subrange(i as int, n as int), tagname@)
                == tag_values(tv, tagname@),
        decreases n - i,
    {
        proof {
            assert(tv.subrange(i as int, n as int)[0] == tv[i as int]);
            assert(tv.subrange(i as int, n as int).drop_first() =~= tv.subrange(
                i as int + 1,
                n as int,
            ));
        }
        let ghost pre = out@;
        if model.tags[i].tag == tn {
            out.push(model.tags[i].value.clone());
            proof {
                assert(strings_view(out@) =~= strings_view(pre) + seq![tv[i as int].value]);
                assert(strings_view(pre) + (seq![tv[i as int].value] + tag_values(
                    tv.subrange(i as int + 1, n as int),
                    tagname@,
                )) =~= (strings_view(pre) + seq![tv[i as int].value]) + tag_values(
                    tv.subrange(i as int + 1, n as int),
                    tagname@,
                ));
            }
        }
        i += 1;
    }
    proof {
        assert(tv.subrange(n as int, n as int) =~= Seq::<TagV>::empty());
        assert(strings_view(out@) + Seq::<Seq<char>>::empty() =~= strings_view(out@));
    }
    out
}

} // verus!

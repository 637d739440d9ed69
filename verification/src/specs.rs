//! The contract-spec builder: constructors, callable messages and events,
//! with selectors, mutability flags and resolved parameter types.

use vstd::prelude::*;

use crate::contract::{
    event_fields_view, functions_view, opt_function_view, params_view, returns_view, EventDecl,
    EventFieldV, EventV, FunctionDef, FunctionKind, FunctionV, Mutability, Param, ParamV,
    ReturnParam, ReturnParamV, Visibility,
};
use crate::registry::{
    lemma_extends_refl, lemma_extends_trans, lemma_gor_props, reg_extends, CompositeField,
    CompositeFieldV, EntryV, PortableRegistry, RegistryEntry,
};
use crate::resolve::{resolve, resolve_spec, MetadataError, TypeCache};

verus! {

broadcast use vstd::std_specs::vec::group_vec_axioms;

/// One resolved parameter of a constructor or message.
pub struct ParamSpec {
    pub label: String,
    pub ty: usize,
}

/// Mathematical view of a `ParamSpec`.
pub struct ParamSpecV {
    pub label: Seq<char>,
    pub ty: int,
}

impl View for ParamSpec {
    type V = ParamSpecV;

    open spec fn view(&self) -> ParamSpecV {
        ParamSpecV { label: self.label@, ty: self.ty as int }
    }
}

pub open spec fn param_specs_view(ps: Seq<ParamSpec>) -> Seq<ParamSpecV> {
    ps.map_values(|p: ParamSpec| p@)
}

/// A constructor of the contract spec. Every constructor carries the label
/// `new`: the source language has no distinguishable constructor names.
pub struct ConstructorSpec {
    pub label: String,
    pub selector: [u8; 4],
    pub payable: bool,
    pub args: Vec<ParamSpec>,
    pub docs: String,
}

/// Mathematical view of a `ConstructorSpec`.
pub struct ConstructorSpecV {
    pub label: Seq<char>,
    pub selector: Seq<u8>,
    pub payable: bool,
    pub args: Seq<ParamSpecV>,
    pub docs: Seq<char>,
}

impl View for ConstructorSpec {
    type V = ConstructorSpecV;

    open spec fn view(&self) -> ConstructorSpecV {
        ConstructorSpecV {
            label: self.label@,
            selector: self.selector@,
            payable: self.payable,
            args: param_specs_view(self.args@),
            docs: self.docs@,
        }
    }
}

pub open spec fn ctor_specs_view(cs: Seq<ConstructorSpec>) -> Seq<ConstructorSpecV> {
    cs.map_values(|c: ConstructorSpec| c@)
}

/// A callable message of the contract spec.
pub struct MessageSpec {
    pub label: String,
    pub selector: [u8; 4],
    pub mutates: bool,
    pub payable: bool,
    pub args: Vec<ParamSpec>,
    /// Registry id of the return type; `None` for no return value.
    pub return_ty: Option<usize>,
    pub docs: String,
}

/// Mathematical view of a `MessageSpec`.
pub struct MessageSpecV {
    pub label: Seq<char>,
    pub selector: Seq<u8>,
    pub mutates: bool,
    pub payable: bool,
    pub args: Seq<ParamSpecV>,
    pub return_ty: Option<int>,
    pub docs: Seq<char>,
}

pub open spec fn opt_id_view(v: Option<usize>) -> Option<int> {
    match v {
        Option::Some(x) => Option::Some(x as int),
        Option::None => Option::None,
    }
}

impl View for MessageSpec {
    type V = MessageSpecV;

    open spec fn view(&self) -> MessageSpecV {
        MessageSpecV {
            label: self.label@,
            selector: self.selector@,
            mutates: self.mutates,
            payable: self.payable,
            args: param_specs_view(self.args@),
            return_ty: opt_id_view(self.return_ty),
            docs: self.docs@,
        }
    }
}

pub open spec fn msg_specs_view(ms: Seq<MessageSpec>) -> Seq<MessageSpecV> {
    ms.map_values(|m: MessageSpec| m@)
}

/// One resolved event field.
pub struct EventParamSpec {
    pub label: String,
    pub ty: usize,
    pub indexed: bool,
}

/// Mathematical view of an `EventParamSpec`.
pub struct EventParamSpecV {
    pub label: Seq<char>,
    pub ty: int,
    pub indexed: bool,
}

impl View for EventParamSpec {
    type V = EventParamSpecV;

    open spec fn view(&self) -> EventParamSpecV {
        EventParamSpecV { label: self.label@, ty: self.ty as int, indexed: self.indexed }
    }
}

pub open spec fn event_param_specs_view(ps: Seq<EventParamSpec>) -> Seq<EventParamSpecV> {
    ps.map_values(|p: EventParamSpec| p@)
}

/// One emitted event of the contract spec.
pub struct EventSpec {
    pub label: String,
    pub args: Vec<EventParamSpec>,
    pub docs: String,
}

/// Mathematical view of an `EventSpec`.
pub struct EventSpecV {
    pub label: Seq<char>,
    pub args: Seq<EventParamSpecV>,
    pub docs: Seq<char>,
}

impl View for EventSpec {
    type V = EventSpecV;

    open spec fn view(&self) -> EventSpecV {
        EventSpecV { label: self.label@, args: event_param_specs_view(self.args@), docs: self.docs@ }
    }
}

pub open spec fn event_specs_view(es: Seq<EventSpec>) -> Seq<EventSpecV> {
    es.map_values(|e: EventSpec| e@)
}

/// The whole contract spec: constructors, messages, events, contract docs.
pub struct ContractSpec {
    pub constructors: Vec<ConstructorSpec>,
    pub messages: Vec<MessageSpec>,
    pub events: Vec<EventSpec>,
    pub docs: String,
}

/// Mathematical view of a `ContractSpec`.
pub struct ContractSpecV {
    pub constructors: Seq<ConstructorSpecV>,
    pub messages: Seq<MessageSpecV>,
    pub events: Seq<EventSpecV>,
    pub docs: Seq<char>,
}

impl View for ContractSpec {
    type V = ContractSpecV;

    open spec fn view(&self) -> ContractSpecV {
        ContractSpecV {
            constructors: ctor_specs_view(self.constructors@),
            messages: msg_specs_view(self.messages@),
            events: event_specs_view(self.events@),
            docs: self.docs@,
        }
    }
}

/// Resolve each parameter's type in declared order.
pub open spec fn params_spec(ps: Seq<ParamV>, r: Seq<EntryV>, alen: u32) -> (
    Seq<EntryV>,
    Option<Seq<ParamSpecV>>,
)
    decreases ps.len(),
{
    if ps.len() == 0 {
        (r, Option::Some(Seq::empty()))
    } else {
        let (r1, h) = resolve_spec(ps[0].ty, r, alen);
        match h {
            Option::None => (r1, Option::None),
            Option::Some(id) => {
                let (r2, rest) = params_spec(ps.drop_first(), r1, alen);
                match rest {
                    Option::None => (r2, Option::None),
                    Option::Some(specs) => (
                        r2,
                        Option::Some(seq![ParamSpecV { label: ps[0].name, ty: id }] + specs),
                    ),
                }
            },
        }
    }
}

/// Resolve each return value's type in declared order.
pub open spec fn returns_ids_spec(rs: Seq<ReturnParamV>, r: Seq<EntryV>, alen: u32) -> (
    Seq<EntryV>,
    Option<Seq<int>>,
)
    decreases rs.len(),
{
    if rs.len() == 0 {
        (r, Option::Some(Seq::empty()))
    } else {
        let (r1, h) = resolve_spec(rs[0].ty, r, alen);
        match h {
            Option::None => (r1, Option::None),
            Option::Some(id) => {
                let (r2, rest) = returns_ids_spec(rs.drop_first(), r1, alen);
                match rest {
                    Option::None => (r2, Option::None),
                    Option::Some(ids) => (r2, Option::Some(seq![id] + ids)),
                }
            },
        }
    }
}

/// The synthesized composite fields of a multi-value return tuple: named
/// only when the source names every return value, and carrying an empty
/// rendered type label, which keeps the tuple entry distinct from any
/// source-struct entry of the same shape.
pub open spec fn ret_tuple_fields(rs: Seq<ReturnParamV>, ids: Seq<int>, named: bool) -> Seq<
    CompositeFieldV,
> {
    Seq::new(
        rs.len(),
        |i: int| CompositeFieldV {
            name: if named {
                rs[i].name
            } else {
                Option::None
            },
            type_label: Option::Some(Seq::empty()),
            ty: ids[i],
        },
    )
}

pub open spec fn all_returns_named(rs: Seq<ReturnParamV>) -> bool {
    forall|i: int| 0 <= i < rs.len() ==> (#[trigger] rs[i].name) is Some
}

/// The return-type id of a message: nothing for no return values, the type's
/// own id for one, and the id of a freshly registered anonymous composite
/// for two or more.
pub open spec fn return_spec(rs: Seq<ReturnParamV>, r: Seq<EntryV>, alen: u32) -> (
    Seq<EntryV>,
    Option<Option<int>>,
) {
    if rs.len() == 0 {
        (r, Option::Some(Option::None))
    } else if rs.len() == 1 {
        let (r1, h) = resolve_spec(rs[0].ty, r, alen);
        match h {
            Option::None => (r1, Option::None),
            Option::Some(id) => (r1, Option::Some(Option::Some(id))),
        }
    } else {
        let (r1, ids) = returns_ids_spec(rs, r, alen);
        match ids {
            Option::None => (r1, Option::None),
            Option::Some(ids) => {
                let e = EntryV::Composite(ret_tuple_fields(rs, ids, all_returns_named(rs)));
                let (r2, id) = crate::registry::gor_spec(e, r1);
                (r2, Option::Some(Option::Some(id)))
            },
        }
    }
}

/// What one constructor contributes to the spec.
pub open spec fn ctor_spec_of(f: FunctionV, r: Seq<EntryV>, alen: u32) -> (
    Seq<EntryV>,
    Result<ConstructorSpecV, MetadataError>,
) {
    if f.selector.len() != 4 {
        (r, Result::Err(MetadataError::MalformedInput))
    } else {
        let (r1, ps) = params_spec(f.params, r, alen);
        match ps {
            Option::None => (r1, Result::Err(MetadataError::UnsupportedType)),
            Option::Some(args) => (
                r1,
                Result::Ok(
                    ConstructorSpecV {
                        label: "new"@,
                        selector: f.selector,
                        payable: f.mutability is Payable,
                        args,
                        docs: f.docs,
                    },
                ),
            ),
        }
    }
}

/// What one callable message contributes to the spec.
pub open spec fn msg_spec_of(f: FunctionV, r: Seq<EntryV>, alen: u32) -> (
    Seq<EntryV>,
    Result<MessageSpecV, MetadataError>,
) {
    if f.selector.len() != 4 {
        (r, Result::Err(MetadataError::MalformedInput))
    } else {
        let (r1, rt) = return_spec(f.returns, r, alen);
        match rt {
            Option::None => (r1, Result::Err(MetadataError::UnsupportedType)),
            Option::Some(return_ty) => {
                let (r2, ps) = params_spec(f.params, r1, alen);
                match ps {
                    Option::None => (r2, Result::Err(MetadataError::UnsupportedType)),
                    Option::Some(args) => (
                        r2,
                        Result::Ok(
                            MessageSpecV {
                                label: f.name,
                                selector: f.selector,
                                mutates: f.mutability is Payable || f.mutability is Nonpayable,
                                payable: f.mutability is Payable,
                                args,
                                return_ty,
                                docs: f.docs,
                            },
                        ),
                    ),
                }
            },
        }
    }
}

/// Whether a function becomes a message: a plain callable, public or
/// external, not from a library.
pub open spec fn is_message(f: FunctionV) -> bool {
    &&& f.kind is Callable
    &&& (f.visibility is Public || f.visibility is External)
    &&& !f.in_library
}

/// The constructors contributed by the declared functions, in order.
pub open spec fn ctor_list_spec(fs: Seq<FunctionV>, r: Seq<EntryV>, alen: u32) -> (
    Seq<EntryV>,
    Result<Seq<ConstructorSpecV>, MetadataError>,
)
    decreases fs.len(),
{
    if fs.len() == 0 {
        (r, Result::Ok(Seq::empty()))
    } else if !(fs[0].kind is Constructor) {
        ctor_list_spec(fs.drop_first(), r, alen)
    } else {
        let (r1, c) = ctor_spec_of(fs[0], r, alen);
        match c {
            Result::Err(e) => (r1, Result::Err(e)),
            Result::Ok(cv) => {
                let (r2, rest) = ctor_list_spec(fs.drop_first(), r1, alen);
                match rest {
                    Result::Err(e) => (r2, Result::Err(e)),
                    Result::Ok(cs) => (r2, Result::Ok(seq![cv] + cs)),
                }
            },
        }
    }
}

/// All constructors: the declared ones plus the synthesized default one,
/// when the model has it.
pub open spec fn ctors_spec(
    fs: Seq<FunctionV>,
    dflt: Option<FunctionV>,
    r: Seq<EntryV>,
    alen: u32,
) -> (Seq<EntryV>, Result<Seq<ConstructorSpecV>, MetadataError>) {
    let (r1, cs) = ctor_list_spec(fs, r, alen);
    match cs {
        Result::Err(e) => (r1, Result::Err(e)),
        Result::Ok(cs) => match dflt {
            Option::None => (r1, Result::Ok(cs)),
            Option::Some(d) => {
                let (r2, c) = ctor_spec_of(d, r1, alen);
                match c {
                    Result::Err(e) => (r2, Result::Err(e)),
                    Result::Ok(cv) => (r2, Result::Ok(cs.push(cv))),
                }
            },
        },
    }
}

/// The messages contributed by the declared functions, in order.
pub open spec fn msgs_spec(fs: Seq<FunctionV>, r: Seq<EntryV>, alen: u32) -> (
    Seq<EntryV>,
    Result<Seq<MessageSpecV>, MetadataError>,
)
    decreases fs.len(),
{
    if fs.len() == 0 {
        (r, Result::Ok(Seq::empty()))
    } else if !is_message(fs[0]) {
        msgs_spec(fs.drop_first(), r, alen)
    } else {
        let (r1, m) = msg_spec_of(fs[0], r, alen);
        match m {
            Result::Err(e) => (r1, Result::Err(e)),
            Result::Ok(mv) => {
                let (r2, rest) = msgs_spec(fs.drop_first(), r1, alen);
                match rest {
                    Result::Err(e) => (r2, Result::Err(e)),
                    Result::Ok(ms) => (r2, Result::Ok(seq![mv] + ms)),
                }
            },
        }
    }
}

/// Resolve each event field in declared order; the indexed flag is carried
/// verbatim from the declaration.
pub open spec fn event_params_spec(fs: Seq<EventFieldV>, r: Seq<EntryV>, alen: u32) -> (
    Seq<EntryV>,
    Option<Seq<EventParamSpecV>>,
)
    decreases fs.len(),
{
    if fs.len() == 0 {
        (r, Option::Some(Seq::empty()))
    } else {
        let (r1, h) = resolve_spec(fs[0].ty, r, alen);
        match h {
            Option::None => (r1, Option::None),
            Option::Some(id) => {
                let (r2, rest) = event_params_spec(fs.drop_first(), r1, alen);
                match rest {
                    Option::None => (r2, Option::None),
                    Option::Some(specs) => (
                        r2,
                        Option::Some(
                            seq![
                                EventParamSpecV {
                                    label: fs[0].name,
                                    ty: id,
                                    indexed: fs[0].indexed,
                                },
                            ] + specs,
                        ),
                    ),
                }
            },
        }
    }
}

/// What one event contributes to the spec.
pub open spec fn event_spec_of(e: EventV, r: Seq<EntryV>, alen: u32) -> (
    Seq<EntryV>,
    Result<EventSpecV, MetadataError>,
) {
    let (r1, ps) = event_params_spec(e.fields, r, alen);
    match ps {
        Option::None => (r1, Result::Err(MetadataError::UnsupportedType)),
        Option::Some(args) => (
            r1,
            Result::Ok(EventSpecV { label: e.name, args, docs: e.docs }),
        ),
    }
}

/// The event specs, in declaration order.
pub open spec fn events_spec(es: Seq<EventV>, r: Seq<EntryV>, alen: u32) -> (
    Seq<EntryV>,
    Result<Seq<EventSpecV>, MetadataError>,
)
    decreases es.len(),
{
    if es.len() == 0 {
        (r, Result::Ok(Seq::empty()))
    } else {
        let (r1, e) = event_spec_of(es[0], r, alen);
        match e {
            Result::Err(err) => (r1, Result::Err(err)),
            Result::Ok(ev) => {
                let (r2, rest) = events_spec(es.drop_first(), r1, alen);
                match rest {
                    Result::Err(err) => (r2, Result::Err(err)),
                    Result::Ok(evs) => (r2, Result::Ok(seq![ev] + evs)),
                }
            },
        }
    }
}

/// The whole contract spec: constructors, then messages, then events.
pub open spec fn contract_spec_of(
    functions: Seq<FunctionV>,
    dflt: Option<FunctionV>,
    events: Seq<EventV>,
    docs: Seq<char>,
    r: Seq<EntryV>,
    alen: u32,
) -> (Seq<EntryV>, Result<ContractSpecV, MetadataError>) {
    let (r1, cs) = ctors_spec(functions, dflt, r, alen);
    match cs {
        Result::Err(e) => (r1, Result::Err(e)),
        Result::Ok(cs) => {
            let (r2, ms) = msgs_spec(functions, r1, alen);
            match ms {
                Result::Err(e) => (r2, Result::Err(e)),
                Result::Ok(ms) => {
                    let (r3, es) = events_spec(events, r2, alen);
                    match es {
                        Result::Err(e) => (r3, Result::Err(e)),
                        Result::Ok(es) => (
                            r3,
                            Result::Ok(
                                ContractSpecV { constructors: cs, messages: ms, events: es, docs },
                            ),
                        ),
                    }
                },
            }
        },
    }
}

/// Resolve the declared parameters into parameter specs.
#[verifier::loop_isolation(false)]
#[verifier::rlimit(60)]
fn build_params(
    ps: &Vec<Param>,
    alen: u32,
    reg: &mut PortableRegistry,
    cache: &mut TypeCache,
) -> (res: Result<Vec<ParamSpec>, MetadataError>)
    requires
        old(reg).wf(),
        old(cache).wf(old(reg)@, alen),
    ensures
        final(reg).wf(),
        final(cache).wf(final(reg)@, alen),
        reg_extends(final(reg)@, old(reg)@),
        params_spec(params_view(ps@), old(reg)@, alen).0 == final(reg)@,
        match res {
            Result::Ok(out) => params_spec(params_view(ps@), old(reg)@, alen).1 == Option::Some(
                param_specs_view(out@),
            ),
            Result::Err(e) => params_spec(params_view(ps@), old(reg)@, alen).1 is None && e
                == MetadataError::UnsupportedType,
        },
{
    let ghost r0 = reg@;
    let ghost psv = params_view(ps@);
    let n = ps.len();
    proof {
        lemma_extends_refl(r0);
        assert(psv.subrange(0, n as int) =~= psv);
    }
    let mut out: Vec<ParamSpec> = Vec::new();
    let mut i: usize = 0;
    while i < n
        invariant
            i <= n,
            reg.wf(),
            reg_extends(reg@, r0),
            cache.wf(reg@, alen),
            ({
                let (r2, rest) = params_spec(psv.subrange(i as int, n as int), reg@, alen);
                &&& params_spec(psv, r0, alen).0 == r2
                &&& params_spec(psv, r0, alen).1 == match rest {
                    Option::None => Option::None::<Seq<ParamSpecV>>,
                    Option::Some(specs) => Option::Some(param_specs_view(out@) + specs),
                }
            }),
        decreases n - i,
    {
        proof {
            assert(psv.subrange(i as int, n as int)[0] == psv[i as int]);
            assert(psv.subrange(i as int, n as int).drop_first() =~= psv.subrange(
                i as int + 1,
                n as int,
            ));
        }
        let ghost rpre = reg@;
        let id = match resolve(&ps[i].ty, alen, reg, cache) {
            Result::Ok(x) => x,
            Result::Err(e) => {
                proof {
                    lemma_extends_trans(reg@, rpre, r0);
                }
                return Result::Err(e);
            },
        };
        let ghost pre = out@;
        out.push(ParamSpec { label: ps[i].name.clone(), ty: id });
        proof {
            lemma_extends_trans(reg@, rpre, r0);
            assert(param_specs_view(out@) =~= param_specs_view(pre) + seq![
                ParamSpecV { label: psv[i as int].name, ty: id as int },
            ]);
            let (r2, rest) = params_spec(psv.subrange(i as int + 1, n as int), reg@, alen);
            match rest {
                Option::None => {},
                Option::Some(specs) => {
                    assert((param_specs_view(pre) + (seq![
                        ParamSpecV { label: psv[i as int].name, ty: id as int },
                    ] + specs)) =~= (param_specs_view(out@) + specs));
                },
            }
        }
        i += 1;
    }
    proof {
        assert(psv.subrange(n as int, n as int) =~= Seq::<ParamV>::empty());
        assert(param_specs_view(out@) + Seq::<ParamSpecV>::empty() =~= param_specs_view(out@));
    }
    Result::Ok(out)
}

/// The first four selector bytes as a fixed array; `None` when the model
/// hands over a selector that is not four bytes long.
fn selector_bytes(v: &Vec<u8>) -> (r: Option<[u8; 4]>)
    ensures
        match r {
            Option::Some(s) => v@.len() == 4 && s@ == v@,
            Option::None => v@.len() != 4,
        },
{
    if v.len() != 4 {
        Option::None
    } else {
        let s: [u8; 4] = [v[0], v[1], v[2], v[3]];
        proof {
            assert(s@ =~= v@);
        }
        Option::Some(s)
    }
}

/// Resolve the return values and register the synthesized tuple composite
/// where there are two or more.
#[verifier::loop_isolation(false)]
#[verifier::rlimit(60)]
fn build_return(
    rs: &Vec<ReturnParam>,
    alen: u32,
    reg: &mut PortableRegistry,
    cache: &mut TypeCache,
) -> (res: Result<Option<usize>, MetadataError>)
    requires
        old(reg).wf(),
        old(cache).wf(old(reg)@, alen),
    ensures
        final(reg).wf(),
        final(cache).wf(final(reg)@, alen),
        reg_extends(final(reg)@, old(reg)@),
        return_spec(returns_view(rs@), old(reg)@, alen).0 == final(reg)@,
        match res {
            Result::Ok(rt) => return_spec(returns_view(rs@), old(reg)@, alen).1 == Option::Some(
                opt_id_view(rt),
            ),
            Result::Err(e) => return_spec(returns_view(rs@), old(reg)@, alen).1 is None && e
                == MetadataError::UnsupportedType,
        },
{
    let ghost r0 = reg@;
    let ghost rsv = returns_view(rs@);
    let n = rs.len();
    proof {
        lemma_extends_refl(r0);
    }
    if n == 0 {
        return Result::Ok(Option::None);
    }
    if n == 1 {
        let id = match resolve(&rs[0].ty, alen, reg, cache) {
            Result::Ok(x) => x,
            Result::Err(e) => {
                return Result::Err(e);
            },
        };
        return Result::Ok(Option::Some(id));
    }
    // Two or more return values: resolve each, then synthesize one fresh
    // anonymous composite as the single return type.
    let mut named = true;
    let mut k: usize = 0;
    while k < n
        invariant
            k <= n,
            named == (forall|j: int| 0 <= j < k ==> (#[trigger] rsv[j].name) is Some),
        decreases n - k,
    {
        proof {
            assert(rsv[k as int] == rs@[k as int]@);
        }
        if rs[k].name.is_none() {
            named = false;
            assert(rsv[k as int].name is None);
        }
        k += 1;
    }
    proof {
        assert(named == all_returns_named(rsv));
        assert(rsv.subrange(0, n as int) =~= rsv);
    }
    let mut cfs: Vec<CompositeField> = Vec::new();
    let ghost mut ids: Seq<int> = Seq::empty();
    let mut i: usize = 0;
    while i < n
        invariant
            i <= n,
            reg.wf(),
            reg_extends(reg@, r0),
            cache.wf(reg@, alen),
            ids.len() == i as int,
            forall|j: int| 0 <= j < i ==> 0 <= #[trigger] ids[j] < reg@.len(),
            crate::registry::composite_fields_view(cfs@) == ret_tuple_fields(
                rsv.subrange(0, i as int),
                ids,
                named,
            ),
            ({
                let (r2, rest) = returns_ids_spec(rsv.subrange(i as int, n as int), reg@, alen);
                &&& returns_ids_spec(rsv, r0, alen).0 == r2
                &&& returns_ids_spec(rsv, r0, alen).1 == match rest {
                    Option::None => Option::None::<Seq<int>>,
                    Option::Some(rem) => Option::Some(ids + rem),
                }
            }),
        decreases n - i,
    {
        proof {
            assert(rsv.subrange(i as int, n as int)[0] == rsv[i as int]);
            assert(rsv.subrange(i as int, n as int).drop_first() =~= rsv.subrange(
                i as int + 1,
                n as int,
            ));
        }
        let ghost rpre = reg@;
        let fid = match resolve(&rs[i].ty, alen, reg, cache) {
            Result::Ok(x) => x,
            Result::Err(e) => {
                proof {
                    lemma_extends_trans(reg@, rpre, r0);
                }
                return Result::Err(e);
            },
        };
        let nm: Option<String> = if named {
            match &rs[i].name {
                Option::Some(s) => Option::Some(s.clone()),
                Option::None => Option::None,
            }
        } else {
            Option::None
        };
        let ghost pre = cfs@;
        let ghost ids0 = ids;
        cfs.push(CompositeField { name: nm, type_label: Option::Some(String::new()), ty: fid });
        proof {
            lemma_extends_trans(reg@, rpre, r0);
            ids = ids0.push(fid as int);
            assert(reg@.len() >= rpre.len());
            assert(forall|j: int| 0 <= j < i + 1 ==> 0 <= #[trigger] ids[j] < reg@.len());
            assert forall|j: int| 0 <= j < i + 1 implies
                #[trigger] crate::registry::composite_fields_view(cfs@)[j] == ret_tuple_fields(
                rsv.subrange(0, i as int + 1),
                ids,
                named,
            )[j] by {
                assert(rsv.subrange(0, i as int + 1)[j] == rsv[j]);
                if j < i {
                    assert(cfs@[j] == pre[j]);
                    assert(crate::registry::composite_fields_view(pre)[j] == ret_tuple_fields(
                        rsv.subrange(0, i as int),
                        ids0,
                        named,
                    )[j]);
                    assert(rsv.subrange(0, i as int)[j] == rsv[j]);
                    assert(ids[j] == ids0[j]);
                }
            }
            assert(crate::registry::composite_fields_view(cfs@) =~= ret_tuple_fields(
                rsv.subrange(0, i as int + 1),
                ids,
                named,
            ));
        }
        i += 1;
    }
    proof {
        assert(rsv.subrange(i as int, n as int) =~= Seq::<ReturnParamV>::empty());
        assert(rsv.subrange(0, n as int) =~= rsv);
        assert(crate::registry::entry_ids_below(
            EntryV::Composite(ret_tuple_fields(rsv, ids, named)),
            reg@.len() as int,
        ));
    }
    let ghost rpre = reg@;
    let id = reg.get_or_register(RegistryEntry::Composite(cfs));
    proof {
        lemma_gor_props(EntryV::Composite(ret_tuple_fields(rsv, ids, named)), rpre);
        lemma_extends_trans(reg@, rpre, r0);
        crate::resolve::lemma_cache_grow(*cache, rpre, reg@, alen);
    }
    Result::Ok(Option::Some(id))
}

/// Build one constructor spec.
fn build_constructor(
    f: &FunctionDef,
    alen: u32,
    reg: &mut PortableRegistry,
    cache: &mut TypeCache,
) -> (res: Result<ConstructorSpec, MetadataError>)
    requires
        old(reg).wf(),
        old(cache).wf(old(reg)@, alen),
    ensures
        final(reg).wf(),
        final(cache).wf(final(reg)@, alen),
        reg_extends(final(reg)@, old(reg)@),
        ctor_spec_of(f@, old(reg)@, alen).0 == final(reg)@,
        match res {
            Result::Ok(c) => ctor_spec_of(f@, old(reg)@, alen).1 == Result::<
                ConstructorSpecV,
                MetadataError,
            >::Ok(c@),
            Result::Err(e) => ctor_spec_of(f@, old(reg)@, alen).1 == Result::<
                ConstructorSpecV,
                MetadataError,
            >::Err(e),
        },
{
    let ghost r0 = reg@;
    proof {
        lemma_extends_refl(r0);
    }
    let sel = match selector_bytes(&f.selector) {
        Option::Some(s) => s,
        Option::None => {
            return Result::Err(MetadataError::MalformedInput);
        },
    };
    let args = match build_params(&f.params, alen, reg, cache) {
        Result::Ok(a) => a,
        Result::Err(e) => {
            return Result::Err(e);
        },
    };
    let payable = matches!(f.mutability, Mutability::Payable);
    Result::Ok(
        ConstructorSpec {
            label: "new".to_owned(),
            selector: sel,
            payable,
            args,
            docs: f.docs.clone(),
        },
    )
}

/// Build one message spec.
fn build_message(
    f: &FunctionDef,
    alen: u32,
    reg: &mut PortableRegistry,
    cache: &mut TypeCache,
) -> (res: Result<MessageSpec, MetadataError>)
    requires
        old(reg).wf(),
        old(cache).wf(old(reg)@, alen),
    ensures
        final(reg).wf(),
        final(cache).wf(final(reg)@, alen),
        reg_extends(final(reg)@, old(reg)@),
        msg_spec_of(f@, old(reg)@, alen).0 == final(reg)@,
        match res {
            Result::Ok(m) => msg_spec_of(f@, old(reg)@, alen).1 == Result::<
                MessageSpecV,
                MetadataError,
            >::Ok(m@),
            Result::Err(e) => msg_spec_of(f@, old(reg)@, alen).1 == Result::<
                MessageSpecV,
                MetadataError,
            >::Err(e),
        },
{
    let ghost r0 = reg@;
    proof {
        lemma_extends_refl(r0);
    }
    let sel = match selector_bytes(&f.selector) {
        Option::Some(s) => s,
        Option::None => {
            return Result::Err(MetadataError::MalformedInput);
        },
    };
    let ghost r_mid = reg@;
    let return_ty = match build_return(&f.returns, alen, reg, cache) {
        Result::Ok(rt) => rt,
        Result::Err(e) => {
            return Result::Err(e);
        },
    };
    let ghost r1 = reg@;
    let args = match build_params(&f.params, alen, reg, cache) {
        Result::Ok(a) => a,
        Result::Err(e) => {
            proof {
                lemma_extends_trans(reg@, r1, r0);
            }
            return Result::Err(e);
        },
    };
    proof {
        lemma_extends_trans(reg@, r1, r0);
    }
    let payable = matches!(f.mutability, Mutability::Payable);
    let mutates = matches!(f.mutability, Mutability::Payable | Mutability::Nonpayable);
    Result::Ok(
        MessageSpec {
            label: f.name.clone(),
            selector: sel,
            mutates,
            payable,
            args,
            return_ty,
            docs: f.docs.clone(),
        },
    )
}

/// Build one event spec; the indexed flags are carried verbatim.
#[verifier::loop_isolation(false)]
#[verifier::rlimit(60)]
fn build_event(
    e: &EventDecl,
    alen: u32,
    reg: &mut PortableRegistry,
    cache: &mut TypeCache,
) -> (res: Result<EventSpec, MetadataError>)
    requires
        old(reg).wf(),
        old(cache).wf(old(reg)@, alen),
    ensures
        final(reg).wf(),
        final(cache).wf(final(reg)@, alen),
        reg_extends(final(reg)@, old(reg)@),
        event_spec_of(e@, old(reg)@, alen).0 == final(reg)@,
        match res {
            Result::Ok(ev) => event_spec_of(e@, old(reg)@, alen).1 == Result::<
                EventSpecV,
                MetadataError,
            >::Ok(ev@),
            Result::Err(err) => event_spec_of(e@, old(reg)@, alen).1 == Result::<
                EventSpecV,
                MetadataError,
            >::Err(err),
        },
{
    let ghost r0 = reg@;
    let ghost fsv = event_fields_view(e.fields@);
    let n = e.fields.len();
    proof {
        lemma_extends_refl(r0);
        assert(fsv.subrange(0, n as int) =~= fsv);
    }
    let mut out: Vec<EventParamSpec> = Vec::new();
    let mut i: usize = 0;
    while i < n
        invariant
            i <= n,
            reg.wf(),
            reg_extends(reg@, r0),
            cache.wf(reg@, alen),
            ({
                let (r2, rest) = event_params_spec(fsv.subrange(i as int, n as int), reg@, alen);
                &&& event_params_spec(fsv, r0, alen).0 == r2
                &&& event_params_spec(fsv, r0, alen).1 == match rest {
                    Option::None => Option::None::<Seq<EventParamSpecV>>,
                    Option::Some(specs) => Option::Some(event_param_specs_view(out@) + specs),
                }
            }),
        decreases n - i,
    {
        proof {
            assert(fsv.subrange(i as int, n as int)[0] == fsv[i as int]);
            assert(fsv.subrange(i as int, n as int).drop_first() =~= fsv.subrange(
                i as int + 1,
                n as int,
            ));
        }
        let ghost rpre = reg@;
        let id = match resolve(&e.fields[i].ty, alen, reg, cache) {
            Result::Ok(x) => x,
            Result::Err(err) => {
                proof {
                    lemma_extends_trans(reg@, rpre, r0);
                }
                return Result::Err(err);
            },
        };
        let ghost pre = out@;
        out.push(
            EventParamSpec { label: e.fields[i].name.clone(), ty: id, indexed: e.fields[i].indexed },
        );
        proof {
            lemma_extends_trans(reg@, rpre, r0);
            assert(event_param_specs_view(out@) =~= event_param_specs_view(pre) + seq![
                EventParamSpecV {
                    label: fsv[i as int].name,
                    ty: id as int,
                    indexed: fsv[i as int].indexed,
                },
            ]);
            let (r2, rest) = event_params_spec(fsv.subrange(i as int + 1, n as int), reg@, alen);
            match rest {
                Option::None => {},
                Option::Some(specs) => {
                    assert((event_param_specs_view(pre) + (seq![
                        EventParamSpecV {
                            label: fsv[i as int].name,
                            ty: id as int,
                            indexed: fsv[i as int].indexed,
                        },
                    ] + specs)) =~= (event_param_specs_view(out@) + specs));
                },
            }
        }
        i += 1;
    }
    proof {
        assert(fsv.subrange(n as int, n as int) =~= Seq::<EventFieldV>::empty());
        assert(event_param_specs_view(out@) + Seq::<EventParamSpecV>::empty()
            =~= event_param_specs_view(out@));
    }
    Result::Ok(EventSpec { label: e.name.clone(), args: out, docs: e.docs.clone() })
}


/// Build all constructors: those declared, then the synthesized default one
/// when the model has it.
#[verifier::loop_isolation(false)]
#[verifier::rlimit(80)]
fn build_constructors(
    functions: &Vec<FunctionDef>,
    default_constructor: &Option<FunctionDef>,
    alen: u32,
    reg: &mut PortableRegistry,
    cache: &mut TypeCache,
) -> (res: Result<Vec<ConstructorSpec>, MetadataError>)
    requires
        old(reg).wf(),
        old(cache).wf(old(reg)@, alen),
    ensures
        final(reg).wf(),
        final(cache).wf(final(reg)@, alen),
        reg_extends(final(reg)@, old(reg)@),
        ctors_spec(
            functions_view(functions@),
            opt_function_view(*default_constructor),
            old(reg)@,
            alen,
        ).0 == final(reg)@,
        match res {
            Result::Ok(cs) => ctors_spec(
                functions_view(functions@),
                opt_function_view(*default_constructor),
                old(reg)@,
                alen,
            ).1 == Result::<Seq<ConstructorSpecV>, MetadataError>::Ok(ctor_specs_view(cs@)),
            Result::Err(e) => ctors_spec(
                functions_view(functions@),
                opt_function_view(*default_constructor),
                old(reg)@,
                alen,
            ).1 == Result::<Seq<ConstructorSpecV>, MetadataError>::Err(e),
        },
{
    let ghost r0 = reg@;
    let ghost fnv = functions_view(functions@);
    let n = functions.len();
    proof {
        lemma_extends_refl(r0);
        assert(fnv.subrange(0, n as int) =~= fnv);
    }
    let mut ctors: Vec<ConstructorSpec> = Vec::new();
    let mut i: usize = 0;
    while i < n
        invariant
            i <= n,
            reg.wf(),
            reg_extends(reg@, r0),
            cache.wf(reg@, alen),
            ({
                let (r2, rest) = ctor_list_spec(fnv.subrange(i as int, n as int), reg@, alen);
                &&& ctor_list_spec(fnv, r0, alen).0 == r2
                &&& ctor_list_spec(fnv, r0, alen).1 == match rest {
                    Result::Err(e) => Result::<Seq<ConstructorSpecV>, MetadataError>::Err(e),
                    Result::Ok(cs) => Result::Ok(ctor_specs_view(ctors@) + cs),
                }
            }),
        decreases n - i,
    {
        proof {
            assert(fnv.subrange(i as int, n as int)[0] == fnv[i as int]);
            assert(fnv.subrange(i as int, n as int).drop_first() =~= fnv.subrange(
                i as int + 1,
                n as int,
            ));
        }
        if matches!(functions[i].kind, FunctionKind::Constructor) {
            let ghost rpre = reg@;
            let c = match build_constructor(&functions[i], alen, reg, cache) {
                Result::Ok(c) => c,
                Result::Err(e) => {
                    proof {
                        lemma_extends_trans(reg@, rpre, r0);
                    }
                    return Result::Err(e);
                },
            };
            let ghost pre = ctors@;
            let ghost cv = c@;
            ctors.push(c);
            proof {
                lemma_extends_trans(reg@, rpre, r0);
                assert(ctor_specs_view(ctors@) =~= ctor_specs_view(pre) + seq![cv]);
                let (r2, rest) = ctor_list_spec(fnv.subrange(i as int + 1, n as int), reg@, alen);
                match rest {
                    Result::Err(e) => {},
                    Result::Ok(cs) => {
                        assert((ctor_specs_view(pre) + (seq![cv] + cs)) =~= (ctor_specs_view(
                            ctors@,
                        ) + cs));
                    },
                }
            }
        }
        i += 1;
    }
    proof {
        assert(fnv.subrange(n as int, n as int) =~= Seq::<FunctionV>::empty());
        assert(ctor_specs_view(ctors@) + Seq::<ConstructorSpecV>::empty() =~= ctor_specs_view(
            ctors@,
        ));
    }
    match default_constructor {
        Option::Some(d) => {
            let ghost rpre = reg@;
            let ghost pre = ctors@;
            let c = match build_constructor(d, alen, reg, cache) {
                Result::Ok(c) => c,
                Result::Err(e) => {
                    proof {
                        lemma_extends_trans(reg@, rpre, r0);
                    }
                    return Result::Err(e);
                },
            };
            let ghost cv = c@;
            ctors.push(c);
            proof {
                lemma_extends_trans(reg@, rpre, r0);
                assert(ctor_specs_view(ctors@) =~= ctor_specs_view(pre).push(cv));
            }
        },
        Option::None => {},
    }
    Result::Ok(ctors)
}

/// Build all messages: the public or external plain callables outside
/// libraries, in declaration order.
#[verifier::loop_isolation(false)]
#[verifier::rlimit(80)]
fn build_messages(
    functions: &Vec<FunctionDef>,
    alen: u32,
    reg: &mut PortableRegistry,
    cache: &mut TypeCache,
) -> (res: Result<Vec<MessageSpec>, MetadataError>)
    requires
        old(reg).wf(),
        old(cache).wf(old(reg)@, alen),
    ensures
        final(reg).wf(),
        final(cache).wf(final(reg)@, alen),
        reg_extends(final(reg)@, old(reg)@),
        msgs_spec(functions_view(functions@), old(reg)@, alen).0 == final(reg)@,
        match res {
            Result::Ok(ms) => msgs_spec(functions_view(functions@), old(reg)@, alen).1 == Result::<
                Seq<MessageSpecV>,
                MetadataError,
            >::Ok(msg_specs_view(ms@)),
            Result::Err(e) => msgs_spec(functions_view(functions@), old(reg)@, alen).1 == Result::<
                Seq<MessageSpecV>,
                MetadataError,
            >::Err(e),
        },
{
    let ghost r0 = reg@;
    let ghost fnv = functions_view(functions@);
    let n = functions.len();
    proof {
        lemma_extends_refl(r0);
        assert(fnv.subrange(0, n as int) =~= fnv);
    }
    let mut msgs: Vec<MessageSpec> = Vec::new();
    let mut i: usize = 0;
    while i < n
        invariant
            i <= n,
            reg.wf(),
            reg_extends(reg@, r0),
            cache.wf(reg@, alen),
            ({
                let (r2, rest) = msgs_spec(fnv.subrange(i as int, n as int), reg@, alen);
                &&& msgs_spec(fnv, r0, alen).0 == r2
                &&& msgs_spec(fnv, r0, alen).1 == match rest {
                    Result::Err(e) => Result::<Seq<MessageSpecV>, MetadataError>::Err(e),
                    Result::Ok(ms) => Result::Ok(msg_specs_view(msgs@) + ms),
                }
            }),
        decreases n - i,
    {
        proof {
            assert(fnv.subrange(i as int, n as int)[0] == fnv[i as int]);
            assert(fnv.subrange(i as int, n as int).drop_first() =~= fnv.subrange(
                i as int + 1,
                n as int,
            ));
        }
        let is_msg = matches!(functions[i].kind, FunctionKind::Callable) && matches!(
            functions[i].visibility,
            Visibility::Public | Visibility::External,
        ) && !functions[i].in_library;
        if is_msg {
            let ghost rpre = reg@;
            let m = match build_message(&functions[i], alen, reg, cache) {
                Result::Ok(m) => m,
                Result::Err(e) => {
                    proof {
                        lemma_extends_trans(reg@, rpre, r0);
                    }
                    return Result::Err(e);
                },
            };
            let ghost pre = msgs@;
            let ghost mv = m@;
            msgs.push(m);
            proof {
                lemma_extends_trans(reg@, rpre, r0);
                assert(msg_specs_view(msgs@) =~= msg_specs_view(pre) + seq![mv]);
                let (r2, rest) = msgs_spec(fnv.subrange(i as int + 1, n as int), reg@, alen);
                match rest {
                    Result::Err(e) => {},
                    Result::Ok(ms) => {
                        assert((msg_specs_view(pre) + (seq![mv] + ms)) =~= (msg_specs_view(msgs@)
                            + ms));
                    },
                }
            }
        }
        i += 1;
    }
    proof {
        assert(fnv.subrange(n as int, n as int) =~= Seq::<FunctionV>::empty());
        assert(msg_specs_view(msgs@) + Seq::<MessageSpecV>::empty() =~= msg_specs_view(msgs@));
    }
    Result::Ok(msgs)
}

/// Build all event specs, in declaration order.
#[verifier::loop_isolation(false)]
#[verifier::rlimit(80)]
fn build_events(
    events: &Vec<EventDecl>,
    alen: u32,
    reg: &mut PortableRegistry,
    cache: &mut TypeCache,
) -> (res: Result<Vec<EventSpec>, MetadataError>)
    requires
        old(reg).wf(),
        old(cache).wf(old(reg)@, alen),
    ensures
        final(reg).wf(),
        final(cache).wf(final(reg)@, alen),
        reg_extends(final(reg)@, old(reg)@),
        events_spec(crate::contract::events_view(events@), old(reg)@, alen).0 == final(reg)@,
        match res {
            Result::Ok(es) => events_spec(crate::contract::events_view(events@), old(reg)@, alen).1
                == Result::<Seq<EventSpecV>, MetadataError>::Ok(event_specs_view(es@)),
            Result::Err(e) => events_spec(crate::contract::events_view(events@), old(reg)@, alen).1
                == Result::<Seq<EventSpecV>, MetadataError>::Err(e),
        },
{
    let ghost r0 = reg@;
    let ghost evv = crate::contract::events_view(events@);
    let m = events.len();
    proof {
        lemma_extends_refl(r0);
        assert(evv.subrange(0, m as int) =~= evv);
    }
    let mut evs: Vec<EventSpec> = Vec::new();
    let mut i: usize = 0;
    while i < m
        invariant
            i <= m,
            reg.wf(),
            reg_extends(reg@, r0),
            cache.wf(reg@, alen),
            ({
                let (r2, rest) = events_spec(evv.subrange(i as int, m as int), reg@, alen);
                &&& events_spec(evv, r0, alen).0 == r2
                &&& events_spec(evv, r0, alen).1 == match rest {
                    Result::Err(e) => Result::<Seq<EventSpecV>, MetadataError>::Err(e),
                    Result::Ok(es) => Result::Ok(event_specs_view(evs@) + es),
                }
            }),
        decreases m - i,
    {
        proof {
            assert(evv.subrange(i as int, m as int)[0] == evv[i as int]);
            assert(evv.subrange(i as int, m as int).drop_first() =~= evv.subrange(
                i as int + 1,
                m as int,
            ));
        }
        let ghost rpre = reg@;
        let ev = match build_event(&events[i], alen, reg, cache) {
            Result::Ok(ev) => ev,
            Result::Err(e) => {
                proof {
                    lemma_extends_trans(reg@, rpre, r0);
                }
                return Result::Err(e);
            },
        };
        let ghost pre = evs@;
        let ghost evv2 = ev@;
        evs.push(ev);
        proof {
            lemma_extends_trans(reg@, rpre, r0);
            assert(event_specs_view(evs@) =~= event_specs_view(pre) + seq![evv2]);
            let (r2, rest) = events_spec(evv.subrange(i as int + 1, m as int), reg@, alen);
            match rest {
                Result::Err(e) => {},
                Result::Ok(es) => {
                    assert((event_specs_view(pre) + (seq![evv2] + es)) =~= (event_specs_view(evs@)
                        + es));
                },
            }
        }
        i += 1;
    }
    proof {
        assert(evv.subrange(m as int, m as int) =~= Seq::<EventV>::empty());
        assert(event_specs_view(evs@) + Seq::<EventSpecV>::empty() =~= event_specs_view(evs@));
    }
    Result::Ok(evs)
}

/// Build the whole contract spec: constructors (declared plus the default
/// one), then messages, then events.
pub fn build_contract_spec(
    functions: &Vec<FunctionDef>,
    default_constructor: &Option<FunctionDef>,
    events: &Vec<EventDecl>,
    docs: &String,
    alen: u32,
    reg: &mut PortableRegistry,
    cache: &mut TypeCache,
) -> (res: Result<ContractSpec, MetadataError>)
    requires
        old(reg).wf(),
        old(cache).wf(old(reg)@, alen),
    ensures
        final(reg).wf(),
        final(cache).wf(final(reg)@, alen),
        reg_extends(final(reg)@, old(reg)@),
        contract_spec_of(
            functions_view(functions@),
            opt_function_view(*default_constructor),
            crate::contract::events_view(events@),
            docs@,
            old(reg)@,
            alen,
        ).0 == final(reg)@,
        match res {
            Result::Ok(cs) => contract_spec_of(
                functions_view(functions@),
                opt_function_view(*default_constructor),
                crate::contract::events_view(events@),
                docs@,
                old(reg)@,
                alen,
            ).1 == Result::<ContractSpecV, MetadataError>::Ok(cs@),
            Result::Err(e) => contract_spec_of(
                functions_view(functions@),
                opt_function_view(*default_constructor),
                crate::contract::events_view(events@),
                docs@,
                old(reg)@,
                alen,
            ).1 == Result::<ContractSpecV, MetadataError>::Err(e),
        },
{
    let ghost r0 = reg@;
    proof {
        lemma_extends_refl(r0);
    }
    let ctors = match build_constructors(functions, default_constructor, alen, reg, cache) {
        Result::Ok(cs) => cs,
        Result::Err(e) => {
            return Result::Err(e);
        },
    };
    let ghost r1 = reg@;
    let msgs = match build_messages(functions, alen, reg, cache) {
        Result::Ok(ms) => ms,
        Result::Err(e) => {
            proof {
                lemma_extends_trans(reg@, r1, r0);
            }
            return Result::Err(e);
        },
    };
    let ghost r2 = reg@;
    proof {
        lemma_extends_trans(reg@, r1, r0);
    }
    let evs = match build_events(events, alen, reg, cache) {
        Result::Ok(es) => es,
        Result::Err(e) => {
            proof {
                lemma_extends_trans(reg@, r2, r0);
            }
            return Result::Err(e);
        },
    };
    proof {
        lemma_extends_trans(reg@, r2, r0);
    }
    Result::Ok(ContractSpec { constructors: ctors, messages: msgs, events: evs, docs: docs.clone() })
}

} // verus!

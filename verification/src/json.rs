//! Serialization of the descriptor to its JSON document form: a pure,
//! deterministic function of the descriptor's field values, computed here
//! byte for byte.

use vstd::prelude::*;

use crate::assemble::{Descriptor, DescriptorV, SemVer};
use crate::layout::{hex_digit, slot_key_hex, slot_key_spec, LayoutCell, LayoutCellV};
use crate::registry::{
    CompositeField, CompositeFieldV, EntryV, Primitive, RegistryEntry, VariantEntry, VariantEntryV,
};
use crate::specs::{
    ConstructorSpec, ConstructorSpecV, EventParamSpec, EventParamSpecV, EventSpec, EventSpecV,
    MessageSpec, MessageSpecV, ParamSpec, ParamSpecV,
};
use vstd::utf8::encode_utf8;
use vstd::string::StringSliceAdditionalSpecFns;

verus! {

broadcast use vstd::std_specs::vec::group_vec_axioms;

/// The UTF-8 bytes of a string literal.
pub open spec fn lit(s: &str) -> Seq<u8> {
    s.spec_bytes()
}

/// The JSON escape of one byte of a UTF-8 string: quote and backslash get a
/// backslash, control bytes become `\u00XX`, everything else (multi-byte
/// UTF-8 sequences included) passes through.
pub open spec fn esc_byte(b: u8) -> Seq<u8> {
    if b == 0x22 {
        seq![0x5cu8, 0x22u8]
    } else if b == 0x5c {
        seq![0x5cu8, 0x5cu8]
    } else if b < 0x20 {
        seq![0x5cu8, 0x75u8, 0x30u8, 0x30u8, hex_digit((b / 16) as u64), hex_digit((b % 16) as u64)]
    } else {
        seq![b]
    }
}

pub open spec fn esc_bytes(s: Seq<u8>) -> Seq<u8>
    decreases s.len(),
{
    if s.len() == 0 {
        Seq::empty()
    } else {
        esc_bytes(s.drop_last()) + esc_byte(s.last())
    }
}

/// A JSON string: the escaped UTF-8 bytes between quotes.
pub open spec fn json_str(s: Seq<char>) -> Seq<u8> {
    seq![0x22u8] + esc_bytes(encode_utf8(s)) + seq![0x22u8]
}

/// Decimal digits of a number, most significant first.
pub open spec fn dec_u64(n: u64) -> Seq<u8>
    decreases n,
{
    if n < 10 {
        seq![(0x30 + n) as u8]
    } else {
        dec_u64(n / 10) + seq![(0x30 + n % 10) as u8]
    }
}

/// Lowercase hex digits of the bytes, two per byte.
pub open spec fn hex_bytes(s: Seq<u8>) -> Seq<u8>
    decreases s.len(),
{
    if s.len() == 0 {
        Seq::empty()
    } else {
        hex_bytes(s.drop_last()) + seq![
            hex_digit((s.last() / 16) as u64),
            hex_digit((s.last() % 16) as u64),
        ]
    }
}

pub open spec fn json_bool(b: bool) -> Seq<u8> {
    if b {
        lit("true")
    } else {
        lit("false")
    }
}

pub open spec fn json_semver(v: SemVer) -> Seq<u8> {
    dec_u64(v.major) + lit(".") + dec_u64(v.minor) + lit(".") + dec_u64(v.patch)
}

pub open spec fn prim_name(p: Primitive) -> &'static str {
    match p {
        Primitive::Bool => "bool",
        Primitive::Str => "str",
        Primitive::U8 => "u8",
        Primitive::U16 => "u16",
        Primitive::U32 => "u32",
        Primitive::U64 => "u64",
        Primitive::U128 => "u128",
        Primitive::U256 => "u256",
        Primitive::I8 => "i8",
        Primitive::I16 => "i16",
        Primitive::I32 => "i32",
        Primitive::I64 => "i64",
        Primitive::I128 => "i128",
        Primitive::I256 => "i256",
    }
}

pub open spec fn json_composite_field(f: CompositeFieldV) -> Seq<u8> {
    lit("{") + (match f.name {
        Option::Some(n) => lit("\"name\":") + json_str(n) + lit(","),
        Option::None => Seq::empty(),
    }) + lit("\"type\":") + dec_u64(f.ty as u64) + (match f.type_label {
        Option::Some(tl) => lit(",\"typeName\":") + json_str(tl),
        Option::None => Seq::empty(),
    }) + lit("}")
}

pub open spec fn json_composite_fields(fs: Seq<CompositeFieldV>) -> Seq<u8>
    decreases fs.len(),
{
    if fs.len() == 0 {
        Seq::empty()
    } else if fs.len() == 1 {
        json_composite_field(fs[0])
    } else {
        json_composite_fields(fs.drop_last()) + lit(",") + json_composite_field(fs.last())
    }
}

pub open spec fn json_variant(v: VariantEntryV) -> Seq<u8> {
    lit("{\"name\":") + json_str(v.name) + lit(",\"index\":") + dec_u64(v.discriminant as u64)
        + lit("}")
}

pub open spec fn json_variants(vs: Seq<VariantEntryV>) -> Seq<u8>
    decreases vs.len(),
{
    if vs.len() == 0 {
        Seq::empty()
    } else if vs.len() == 1 {
        json_variant(vs[0])
    } else {
        json_variants(vs.drop_last()) + lit(",") + json_variant(vs.last())
    }
}

pub open spec fn json_entry(e: EntryV) -> Seq<u8> {
    match e {
        EntryV::Primitive(p) => lit("{\"def\":{\"primitive\":\"") + lit(prim_name(p)) + lit(
            "\"}}",
        ),
        EntryV::Composite(fs) => lit("{\"def\":{\"composite\":{\"fields\":[")
            + json_composite_fields(fs) + lit("]}}}"),
        EntryV::Array(len, el) => lit("{\"def\":{\"array\":{\"len\":") + dec_u64(len as u64) + lit(
            ",\"type\":",
        ) + dec_u64(el as u64) + lit("}}}"),
        EntryV::Sequence(el) => lit("{\"def\":{\"sequence\":{\"type\":") + dec_u64(el as u64)
            + lit("}}}"),
        EntryV::Variant(vs) => lit("{\"def\":{\"variant\":{\"variants\":[") + json_variants(vs)
            + lit("]}}}"),
    }
}

pub open spec fn json_type_item(e: EntryV, id: int) -> Seq<u8> {
    lit("{\"id\":") + dec_u64(id as u64) + lit(",\"type\":") + json_entry(e) + lit("}")
}

pub open spec fn json_types(es: Seq<EntryV>) -> Seq<u8>
    decreases es.len(),
{
    if es.len() == 0 {
        Seq::empty()
    } else if es.len() == 1 {
        json_type_item(es[0], 0)
    } else {
        json_types(es.drop_last()) + lit(",") + json_type_item(es.last(), es.len() - 1)
    }
}

pub open spec fn json_cell(c: LayoutCellV) -> Seq<u8> {
    lit("{\"name\":") + json_str(c.name) + lit(",\"layout\":{\"cell\":{\"key\":\"0x")
        + slot_key_spec(c.slot) + lit("\",\"ty\":") + dec_u64(c.ty as u64) + lit("}}}")
}

pub open spec fn json_cells(cs: Seq<LayoutCellV>) -> Seq<u8>
    decreases cs.len(),
{
    if cs.len() == 0 {
        Seq::empty()
    } else if cs.len() == 1 {
        json_cell(cs[0])
    } else {
        json_cells(cs.drop_last()) + lit(",") + json_cell(cs.last())
    }
}

pub open spec fn json_arg(p: ParamSpecV) -> Seq<u8> {
    lit("{\"label\":") + json_str(p.label) + lit(",\"type\":") + dec_u64(p.ty as u64) + lit("}")
}

pub open spec fn json_args(ps: Seq<ParamSpecV>) -> Seq<u8>
    decreases ps.len(),
{
    if ps.len() == 0 {
        Seq::empty()
    } else if ps.len() == 1 {
        json_arg(ps[0])
    } else {
        json_args(ps.drop_last()) + lit(",") + json_arg(ps.last())
    }
}

pub open spec fn json_ctor(c: ConstructorSpecV) -> Seq<u8> {
    lit("{\"label\":") + json_str(c.label) + lit(",\"selector\":\"0x") + hex_bytes(c.selector)
        + lit("\",\"payable\":") + json_bool(c.payable) + lit(",\"args\":[") + json_args(c.args)
        + lit("],\"docs\":[") + json_str(c.docs) + lit("]}")
}

pub open spec fn json_ctors(cs: Seq<ConstructorSpecV>) -> Seq<u8>
    decreases cs.len(),
{
    if cs.len() == 0 {
        Seq::empty()
    } else if cs.len() == 1 {
        json_ctor(cs[0])
    } else {
        json_ctors(cs.drop_last()) + lit(",") + json_ctor(cs.last())
    }
}

pub open spec fn json_ret(r: Option<int>) -> Seq<u8> {
    match r {
        Option::Some(id) => dec_u64(id as u64),
        Option::None => lit("null"),
    }
}

pub open spec fn json_msg(m: MessageSpecV) -> Seq<u8> {
    lit("{\"label\":") + json_str(m.label) + lit(",\"selector\":\"0x") + hex_bytes(m.selector)
        + lit("\",\"mutates\":") + json_bool(m.mutates) + lit(",\"payable\":") + json_bool(
        m.payable,
    ) + lit(",\"args\":[") + json_args(m.args) + lit("],\"returnType\":") + json_ret(m.return_ty)
        + lit(",\"docs\":[") + json_str(m.docs) + lit("]}")
}

pub open spec fn json_msgs(ms: Seq<MessageSpecV>) -> Seq<u8>
    decreases ms.len(),
{
    if ms.len() == 0 {
        Seq::empty()
    } else if ms.len() == 1 {
        json_msg(ms[0])
    } else {
        json_msgs(ms.drop_last()) + lit(",") + json_msg(ms.last())
    }
}

pub open spec fn json_event_arg(p: EventParamSpecV) -> Seq<u8> {
    lit("{\"label\":") + json_str(p.label) + lit(",\"type\":") + dec_u64(p.ty as u64) + lit(
        ",\"indexed\":",
    ) + json_bool(p.indexed) + lit("}")
}

pub open spec fn json_event_args(ps: Seq<EventParamSpecV>) -> Seq<u8>
    decreases ps.len(),
{
    if ps.len() == 0 {
        Seq::empty()
    } else if ps.len() == 1 {
        json_event_arg(ps[0])
    } else {
        json_event_args(ps.drop_last()) + lit(",") + json_event_arg(ps.last())
    }
}

pub open spec fn json_event(e: EventSpecV) -> Seq<u8> {
    lit("{\"label\":") + json_str(e.label) + lit(",\"args\":[") + json_event_args(e.args) + lit(
        "],\"docs\":[",
    ) + json_str(e.docs) + lit("]}")
}

pub open spec fn json_events(es: Seq<EventSpecV>) -> Seq<u8>
    decreases es.len(),
{
    if es.len() == 0 {
        Seq::empty()
    } else if es.len() == 1 {
        json_event(es[0])
    } else {
        json_events(es.drop_last()) + lit(",") + json_event(es.last())
    }
}

pub open spec fn json_authors(ss: Seq<Seq<char>>) -> Seq<u8>
    decreases ss.len(),
{
    if ss.len() == 0 {
        Seq::empty()
    } else if ss.len() == 1 {
        json_str(ss[0])
    } else {
        json_authors(ss.drop_last()) + lit(",") + json_str(ss.last())
    }
}

/// The whole descriptor document, byte for byte.
pub open spec fn json_descriptor(d: DescriptorV) -> Seq<u8> {
    lit("{\"source\":{\"hash\":\"0x") + hex_bytes(d.source_hash) + lit(
        "\",\"language\":\"Solidity ",
    ) + json_semver(d.language_version) + lit("\",\"compiler\":\"solang ") + json_semver(
        d.compiler_version,
    ) + lit("\"},\"contract\":{\"name\":") + json_str(d.contract_name) + lit(",\"version\":\"")
        + json_semver(d.contract_version) + lit("\",\"authors\":[") + json_authors(d.authors)
        + lit("]") + (match d.description {
        Option::Some(s) => lit(",\"description\":") + json_str(s),
        Option::None => Seq::empty(),
    }) + lit("},\"storage\":{\"struct\":{\"fields\":[") + json_cells(d.layout) + lit(
        "]}},\"spec\":{\"constructors\":[",
    ) + json_ctors(d.spec.constructors) + lit("],\"messages\":[") + json_msgs(d.spec.messages)
        + lit("],\"events\":[") + json_events(d.spec.events) + lit("],\"docs\":[") + json_str(
        d.spec.docs,
    ) + lit("]},\"types\":[") + json_types(d.registry) + lit("]}")
}

/// Append the UTF-8 bytes of a literal.
#[verifier::loop_isolation(false)]
fn push_lit(out: &mut Vec<u8>, s: &str)
    ensures
        final(out)@ == old(out)@ + lit(s),
{
    let bytes = s.as_bytes();
    let n = bytes.len();
    let mut i: usize = 0;
    while i < n
        invariant
            i <= n,
            out@ == old(out)@ + bytes@.subrange(0, i as int),
        decreases n - i,
    {
        out.push(*vstd::slice::slice_index_get(bytes, i));
        proof {
            assert(out@ =~= old(out)@ + bytes@.subrange(0, i as int + 1));
        }
        i += 1;
    }
    proof {
        assert(bytes@.subrange(0, n as int) =~= bytes@);
    }
}

/// Append a JSON string: quoted, escaped.
#[verifier::loop_isolation(false)]
fn push_json_str(out: &mut Vec<u8>, s: &str)
    ensures
        final(out)@ == old(out)@ + json_str(s@),
{
    out.push(0x22);
    let ghost start = out@;
    let bytes = s.as_bytes();
    let n = bytes.len();
    let mut i: usize = 0;
    while i < n
        invariant
            i <= n,
            out@ == start + esc_bytes(bytes@.subrange(0, i as int)),
        decreases n - i,
    {
        let b = *vstd::slice::slice_index_get(bytes, i);
        if b == 0x22 {
            out.push(0x5c);
            out.push(0x22);
        } else if b == 0x5c {
            out.push(0x5c);
            out.push(0x5c);
        } else if b < 0x20 {
            out.push(0x5c);
            out.push(0x75);
            out.push(0x30);
            out.push(0x30);
            out.push(hex_digit_exec((b / 16) as u64));
            out.push(hex_digit_exec((b % 16) as u64));
        } else {
            out.push(b);
        }
        proof {
            assert(bytes@.subrange(0, i as int + 1).drop_last() =~= bytes@.subrange(0, i as int));
            assert(out@ =~= start + esc_bytes(bytes@.subrange(0, i as int + 1)));
        }
        i += 1;
    }
    proof {
        assert(bytes@.subrange(0, n as int) =~= bytes@);
    }
    out.push(0x22);
    proof {
        assert(out@ =~= old(out)@ + json_str(s@));
    }
}

fn hex_digit_exec(n: u64) -> (r: u8)
    requires
        n < 16,
    ensures
        r == hex_digit(n),
{
    if n < 10 {
        0x30 + (n as u8)
    } else {
        0x61 + ((n - 10) as u8)
    }
}

/// Append the decimal digits of a number.
fn push_dec(out: &mut Vec<u8>, n: u64)
    ensures
        final(out)@ == old(out)@ + dec_u64(n),
    decreases n,
{
    if n < 10 {
        out.push(0x30 + (n as u8));
        proof {
            assert(out@ =~= old(out)@ + dec_u64(n));
        }
    } else {
        push_dec(out, n / 10);
        out.push(0x30 + ((n % 10) as u8));
        proof {
            assert(out@ =~= old(out)@ + dec_u64(n));
        }
    }
}

/// Append the lowercase hex digits of the bytes.
#[verifier::loop_isolation(false)]
fn push_hex(out: &mut Vec<u8>, bytes: &[u8])
    ensures
        final(out)@ == old(out)@ + hex_bytes(bytes@),
{
    let n = bytes.len();
    let mut i: usize = 0;
    while i < n
        invariant
            i <= n,
            out@ == old(out)@ + hex_bytes(bytes@.subrange(0, i as int)),
        decreases n - i,
    {
        let b = *vstd::slice::slice_index_get(bytes, i);
        out.push(hex_digit_exec((b / 16) as u64));
        out.push(hex_digit_exec((b % 16) as u64));
        proof {
            assert(bytes@.subrange(0, i as int + 1).drop_last() =~= bytes@.subrange(0, i as int));
            assert(out@ =~= old(out)@ + hex_bytes(bytes@.subrange(0, i as int + 1)));
        }
        i += 1;
    }
    proof {
        assert(bytes@.subrange(0, n as int) =~= bytes@);
    }
}

fn push_bool(out: &mut Vec<u8>, b: bool)
    ensures
        final(out)@ == old(out)@ + json_bool(b),
{
    if b {
        push_lit(out, "true");
    } else {
        push_lit(out, "false");
    }
}

fn push_semver(out: &mut Vec<u8>, v: &SemVer)
    ensures
        final(out)@ == old(out)@ + json_semver(*v),
{
    push_dec(out, v.major);
    push_lit(out, ".");
    push_dec(out, v.minor);
    push_lit(out, ".");
    push_dec(out, v.patch);
    proof {
        assert(out@ =~= old(out)@ + json_semver(*v));
    }
}

fn push_composite_field(out: &mut Vec<u8>, f: &CompositeField)
    ensures
        final(out)@ == old(out)@ + json_composite_field(f@),
{
    push_lit(out, "{");
    match &f.name {
        Option::Some(n) => {
            push_lit(out, "\"name\":");
            push_json_str(out, n.as_str());
            push_lit(out, ",");
        },
        Option::None => {},
    }
    push_lit(out, "\"type\":");
    push_dec(out, f.ty as u64);
    match &f.type_label {
        Option::Some(tl) => {
            push_lit(out, ",\"typeName\":");
            push_json_str(out, tl.as_str());
        },
        Option::None => {},
    }
    push_lit(out, "}");
    proof {
        assert(out@ =~= old(out)@ + json_composite_field(f@));
    }
}

fn push_variant(out: &mut Vec<u8>, v: &VariantEntry)
    ensures
        final(out)@ == old(out)@ + json_variant(v@),
{
    push_lit(out, "{\"name\":");
    push_json_str(out, v.name.as_str());
    push_lit(out, ",\"index\":");
    push_dec(out, v.discriminant as u64);
    push_lit(out, "}");
    proof {
        assert(out@ =~= old(out)@ + json_variant(v@));
    }
}

fn push_entry(out: &mut Vec<u8>, e: &RegistryEntry)
    ensures
        final(out)@ == old(out)@ + json_entry(e@),
{
    match e {
        RegistryEntry::Primitive(p) => {
            push_lit(out, "{\"def\":{\"primitive\":\"");
            match p {
                Primitive::Bool => push_lit(out, "bool"),
                Primitive::Str => push_lit(out, "str"),
                Primitive::U8 => push_lit(out, "u8"),
                Primitive::U16 => push_lit(out, "u16"),
                Primitive::U32 => push_lit(out, "u32"),
                Primitive::U64 => push_lit(out, "u64"),
                Primitive::U128 => push_lit(out, "u128"),
                Primitive::U256 => push_lit(out, "u256"),
                Primitive::I8 => push_lit(out, "i8"),
                Primitive::I16 => push_lit(out, "i16"),
                Primitive::I32 => push_lit(out, "i32"),
                Primitive::I64 => push_lit(out, "i64"),
                Primitive::I128 => push_lit(out, "i128"),
                Primitive::I256 => push_lit(out, "i256"),
            }
            push_lit(out, "\"}}");
            proof {
                assert(out@ =~= old(out)@ + json_entry(e@));
            }
        },
        RegistryEntry::Composite(fs) => {
            push_lit(out, "{\"def\":{\"composite\":{\"fields\":[");
            push_composite_fields(out, fs);
            push_lit(out, "]}}}");
            proof {
                assert(out@ =~= old(out)@ + json_entry(e@));
            }
        },
        RegistryEntry::Array(len, el) => {
            push_lit(out, "{\"def\":{\"array\":{\"len\":");
            push_dec(out, *len as u64);
            push_lit(out, ",\"type\":");
            push_dec(out, *el as u64);
            push_lit(out, "}}}");
            proof {
                assert(out@ =~= old(out)@ + json_entry(e@));
            }
        },
        RegistryEntry::Sequence(el) => {
            push_lit(out, "{\"def\":{\"sequence\":{\"type\":");
            push_dec(out, *el as u64);
            push_lit(out, "}}}");
            proof {
                assert(out@ =~= old(out)@ + json_entry(e@));
            }
        },
        RegistryEntry::Variant(vs) => {
            push_lit(out, "{\"def\":{\"variant\":{\"variants\":[");
            push_variants(out, vs);
            push_lit(out, "]}}}");
            proof {
                assert(out@ =~= old(out)@ + json_entry(e@));
            }
        },
    }
}

#[verifier::loop_isolation(false)]
fn push_composite_fields(out: &mut Vec<u8>, fs: &Vec<CompositeField>)
    ensures
        final(out)@ == old(out)@ + json_composite_fields(
            crate::registry::composite_fields_view(fs@),
        ),
{
    let ghost fv = crate::registry::composite_fields_view(fs@);
    let n = fs.len();
    let mut i: usize = 0;
    while i < n
        invariant
            i <= n,
            out@ == old(out)@ + json_composite_fields(fv.subrange(0, i as int)),
        decreases n - i,
    {
        if i > 0 {
            push_lit(out, ",");
        }
        push_composite_field(out, &fs[i]);
        proof {
            let sub = fv.subrange(0, i as int + 1);
            assert(sub.drop_last() =~= fv.subrange(0, i as int));
            assert(sub.last() == fv[i as int]);
            assert(out@ =~= old(out)@ + json_composite_fields(sub));
        }
        i += 1;
    }
    proof {
        assert(fv.subrange(0, n as int) =~= fv);
    }
}

#[verifier::loop_isolation(false)]
fn push_variants(out: &mut Vec<u8>, vs: &Vec<VariantEntry>)
    ensures
        final(out)@ == old(out)@ + json_variants(crate::registry::variant_entries_view(vs@)),
{
    let ghost vv = crate::registry::variant_entries_view(vs@);
    let n = vs.len();
    let mut i: usize = 0;
    while i < n
        invariant
            i <= n,
            out@ == old(out)@ + json_variants(vv.subrange(0, i as int)),
        decreases n - i,
    {
        if i > 0 {
            push_lit(out, ",");
        }
        push_variant(out, &vs[i]);
        proof {
            let sub = vv.subrange(0, i as int + 1);
            assert(sub.drop_last() =~= vv.subrange(0, i as int));
            assert(sub.last() == vv[i as int]);
            assert(out@ =~= old(out)@ + json_variants(sub));
        }
        i += 1;
    }
    proof {
        assert(vv.subrange(0, n as int) =~= vv);
    }
}

#[verifier::loop_isolation(false)]
fn push_types(out: &mut Vec<u8>, es: &Vec<RegistryEntry>)
    ensures
        final(out)@ == old(out)@ + json_types(crate::registry::entries_view(es@)),
{
    let ghost ev = crate::registry::entries_view(es@);
    let n = es.len();
    let mut i: usize = 0;
    while i < n
        invariant
            i <= n,
            out@ == old(out)@ + json_types(ev.subrange(0, i as int)),
        decreases n - i,
    {
        if i > 0 {
            push_lit(out, ",");
        }
        push_lit(out, "{\"id\":");
        push_dec(out, i as u64);
        push_lit(out, ",\"type\":");
        push_entry(out, &es[i]);
        push_lit(out, "}");
        proof {
            let sub = ev.subrange(0, i as int + 1);
            assert(sub.drop_last() =~= ev.subrange(0, i as int));
            assert(sub.last() == ev[i as int]);
            assert(out@ =~= old(out)@ + json_types(sub));
        }
        i += 1;
    }
    proof {
        assert(ev.subrange(0, n as int) =~= ev);
    }
}

fn push_cell(out: &mut Vec<u8>, c: &LayoutCell)
    ensures
        final(out)@ == old(out)@ + json_cell(c@),
{
    push_lit(out, "{\"name\":");
    push_json_str(out, c.name.as_str());
    push_lit(out, ",\"layout\":{\"cell\":{\"key\":\"0x");
    let mut key = slot_key_hex(c.slot);
    let ghost pre = out@;
    out.append(&mut key);
    proof {
        assert(out@ =~= pre + slot_key_spec(c.slot));
    }
    push_lit(out, "\",\"ty\":");
    push_dec(out, c.ty as u64);
    push_lit(out, "}}}");
    proof {
        assert(out@ =~= old(out)@ + json_cell(c@));
    }
}

#[verifier::loop_isolation(false)]
fn push_cells(out: &mut Vec<u8>, cs: &Vec<LayoutCell>)
    ensures
        final(out)@ == old(out)@ + json_cells(crate::layout::cells_view(cs@)),
{
    let ghost cv = crate::layout::cells_view(cs@);
    let n = cs.len();
    let mut i: usize = 0;
    while i < n
        invariant
            i <= n,
            out@ == old(out)@ + json_cells(cv.subrange(0, i as int)),
        decreases n - i,
    {
        if i > 0 {
            push_lit(out, ",");
        }
        push_cell(out, &cs[i]);
        proof {
            let sub = cv.subrange(0, i as int + 1);
            assert(sub.drop_last() =~= cv.subrange(0, i as int));
            assert(sub.last() == cv[i as int]);
            assert(out@ =~= old(out)@ + json_cells(sub));
        }
        i += 1;
    }
    proof {
        assert(cv.subrange(0, n as int) =~= cv);
    }
}

#[verifier::loop_isolation(false)]
fn push_args(out: &mut Vec<u8>, ps: &Vec<ParamSpec>)
    ensures
        final(out)@ == old(out)@ + json_args(crate::specs::param_specs_view(ps@)),
{
    let ghost pv = crate::specs::param_specs_view(ps@);
    let n = ps.len();
    let mut i: usize = 0;
    while i < n
        invariant
            i <= n,
            out@ == old(out)@ + json_args(pv.subrange(0, i as int)),
        decreases n - i,
    {
        if i > 0 {
            push_lit(out, ",");
        }
        push_lit(out, "{\"label\":");
        push_json_str(out, ps[i].label.as_str());
        push_lit(out, ",\"type\":");
        push_dec(out, ps[i].ty as u64);
        push_lit(out, "}");
        proof {
            let sub = pv.subrange(0, i as int + 1);
            assert(sub.drop_last() =~= pv.subrange(0, i as int));
            assert(sub.last() == pv[i as int]);
            assert(out@ =~= old(out)@ + json_args(sub));
        }
        i += 1;
    }
    proof {
        assert(pv.subrange(0, n as int) =~= pv);
    }
}

#[verifier::rlimit(100)]
fn push_ctor(out: &mut Vec<u8>, c: &ConstructorSpec)
    ensures
        final(out)@ == old(out)@ + json_ctor(c@),
{
    push_lit(out, "{\"label\":");
    push_json_str(out, c.label.as_str());
    push_lit(out, ",\"selector\":\"0x");
    push_hex(out, c.selector.as_slice());
    push_lit(out, "\",\"payable\":");
    push_bool(out, c.payable);
    push_lit(out, ",\"args\":[");
    push_args(out, &c.args);
    push_lit(out, "],\"docs\":[");
    push_json_str(out, c.docs.as_str());
    push_lit(out, "]}");
    proof {
        assert(out@ =~= old(out)@ + json_ctor(c@));
    }
}

#[verifier::loop_isolation(false)]
fn push_ctors(out: &mut Vec<u8>, cs: &Vec<ConstructorSpec>)
    ensures
        final(out)@ == old(out)@ + json_ctors(crate::specs::ctor_specs_view(cs@)),
{
    let ghost cv = crate::specs::ctor_specs_view(cs@);
    let n = cs.len();
    let mut i: usize = 0;
    while i < n
        invariant
            i <= n,
            out@ == old(out)@ + json_ctors(cv.subrange(0, i as int)),
        decreases n - i,
    {
        if i > 0 {
            push_lit(out, ",");
        }
        push_ctor(out, &cs[i]);
        proof {
            let sub = cv.subrange(0, i as int + 1);
            assert(sub.drop_last() =~= cv.subrange(0, i as int));
            assert(sub.last() == cv[i as int]);
            assert(out@ =~= old(out)@ + json_ctors(sub));
        }
        i += 1;
    }
    proof {
        assert(cv.subrange(0, n as int) =~= cv);
    }
}

fn push_msg(out: &mut Vec<u8>, m: &MessageSpec)
    ensures
        final(out)@ == old(out)@ + json_msg(m@),
{
    let ghost a = out@;
    let ghost mut acc: Seq<u8> = lit("{\"label\":");
    push_lit(out, "{\"label\":");
    push_json_str(out, m.label.as_str());
    proof {
        acc = acc + json_str(m.label@);
        assert(out@ =~= a + acc);
    }
    push_lit(out, ",\"selector\":\"0x");
    push_hex(out, m.selector.as_slice());
    proof {
        acc = acc + lit(",\"selector\":\"0x") + hex_bytes(m.selector@);
        assert(out@ =~= a + acc);
    }
    push_lit(out, "\",\"mutates\":");
    push_bool(out, m.mutates);
    proof {
        acc = acc + lit("\",\"mutates\":") + json_bool(m.mutates);
        assert(out@ =~= a + acc);
    }
    push_lit(out, ",\"payable\":");
    push_bool(out, m.payable);
    proof {
        acc = acc + lit(",\"payable\":") + json_bool(m.payable);
        assert(out@ =~= a + acc);
    }
    push_lit(out, ",\"args\":[");
    push_args(out, &m.args);
    proof {
        acc = acc + lit(",\"args\":[") + json_args(crate::specs::param_specs_view(m.args@));
        assert(out@ =~= a + acc);
    }
    push_lit(out, "],\"returnType\":");
    match m.return_ty {
        Option::Some(id) => push_dec(out, id as u64),
        Option::None => push_lit(out, "null"),
    }
    proof {
        acc = acc + lit("],\"returnType\":") + json_ret(crate::specs::opt_id_view(m.return_ty));
        assert(out@ =~= a + acc);
    }
    push_lit(out, ",\"docs\":[");
    push_json_str(out, m.docs.as_str());
    push_lit(out, "]}");
    proof {
        acc = acc + lit(",\"docs\":[") + json_str(m.docs@) + lit("]}");
        assert(out@ =~= a + acc);
        assert(acc == json_msg(m@));
    }
}

#[verifier::loop_isolation(false)]
fn push_msgs(out: &mut Vec<u8>, ms: &Vec<MessageSpec>)
    ensures
        final(out)@ == old(out)@ + json_msgs(crate::specs::msg_specs_view(ms@)),
{
    let ghost mv = crate::specs::msg_specs_view(ms@);
    let n = ms.len();
    let mut i: usize = 0;
    while i < n
        invariant
            i <= n,
            out@ == old(out)@ + json_msgs(mv.subrange(0, i as int)),
        decreases n - i,
    {
        if i > 0 {
            push_lit(out, ",");
        }
        push_msg(out, &ms[i]);
        proof {
            let sub = mv.subrange(0, i as int + 1);
            assert(sub.drop_last() =~= mv.subrange(0, i as int));
            assert(sub.last() == mv[i as int]);
            assert(out@ =~= old(out)@ + json_msgs(sub));
        }
        i += 1;
    }
    proof {
        assert(mv.subrange(0, n as int) =~= mv);
    }
}

#[verifier::loop_isolation(false)]
#[verifier::rlimit(100)]
fn push_event_args(out: &mut Vec<u8>, ps: &Vec<EventParamSpec>)
    ensures
        final(out)@ == old(out)@ + json_event_args(crate::specs::event_param_specs_view(ps@)),
{
    let ghost pv = crate::specs::event_param_specs_view(ps@);
    let n = ps.len();
    let mut i: usize = 0;
    while i < n
        invariant
            i <= n,
            out@ == old(out)@ + json_event_args(pv.subrange(0, i as int)),
        decreases n - i,
    {
        if i > 0 {
            push_lit(out, ",");
        }
        let ghost b = out@;
        let ghost mut item: Seq<u8> = lit("{\"label\":");
        push_lit(out, "{\"label\":");
        push_json_str(out, ps[i].label.as_str());
        proof {
            item = item + json_str(ps[i as int].label@);
            assert(out@ =~= b + item);
        }
        push_lit(out, ",\"type\":");
        push_dec(out, ps[i].ty as u64);
        proof {
            item = item + lit(",\"type\":") + dec_u64(ps[i as int].ty as u64);
            assert(out@ =~= b + item);
        }
        push_lit(out, ",\"indexed\":");
        push_bool(out, ps[i].indexed);
        push_lit(out, "}");
        proof {
            item = item + lit(",\"indexed\":") + json_bool(ps[i as int].indexed) + lit("}");
            assert(out@ =~= b + item);
            assert(item == json_event_arg(pv[i as int]));
            let sub = pv.subrange(0, i as int + 1);
            assert(sub.drop_last() =~= pv.subrange(0, i as int));
            assert(sub.last() == pv[i as int]);
            assert(out@ =~= old(out)@ + json_event_args(sub));
        }
        i += 1;
    }
    proof {
        assert(pv.subrange(0, n as int) =~= pv);
    }
}

fn push_event(out: &mut Vec<u8>, e: &EventSpec)
    ensures
        final(out)@ == old(out)@ + json_event(e@),
{
    let ghost a = out@;
    let ghost mut acc: Seq<u8> = lit("{\"label\":");
    push_lit(out, "{\"label\":");
    push_json_str(out, e.label.as_str());
    push_lit(out, ",\"args\":[");
    proof {
        acc = acc + json_str(e.label@) + lit(",\"args\":[");
        assert(out@ =~= a + acc);
    }
    push_event_args(out, &e.args);
    proof {
        acc = acc + json_event_args(crate::specs::event_param_specs_view(e.args@));
        assert(out@ =~= a + acc);
    }
    push_lit(out, "],\"docs\":[");
    push_json_str(out, e.docs.as_str());
    push_lit(out, "]}");
    proof {
        acc = acc + lit("],\"docs\":[") + json_str(e.docs@) + lit("]}");
        assert(out@ =~= a + acc);
        assert(acc == json_event(e@));
    }
}

#[verifier::loop_isolation(false)]
fn push_events(out: &mut Vec<u8>, es: &Vec<EventSpec>)
    ensures
        final(out)@ == old(out)@ + json_events(crate::specs::event_specs_view(es@)),
{
    let ghost ev = crate::specs::event_specs_view(es@);
    let n = es.len();
    let mut i: usize = 0;
    while i < n
        invariant
            i <= n,
            out@ == old(out)@ + json_events(ev.subrange(0, i as int)),
        decreases n - i,
    {
        if i > 0 {
            push_lit(out, ",");
        }
        push_event(out, &es[i]);
        proof {
            let sub = ev.subrange(0, i as int + 1);
            assert(sub.drop_last() =~= ev.subrange(0, i as int));
            assert(sub.last() == ev[i as int]);
            assert(out@ =~= old(out)@ + json_events(sub));
        }
        i += 1;
    }
    proof {
        assert(ev.subrange(0, n as int) =~= ev);
    }
}

#[verifier::loop_isolation(false)]
fn push_authors(out: &mut Vec<u8>, ss: &Vec<String>)
    ensures
        final(out)@ == old(out)@ + json_authors(crate::contract::strings_view(ss@)),
{
    let ghost sv = crate::contract::strings_view(ss@);
    let n = ss.len();
    let mut i: usize = 0;
    while i < n
        invariant
            i <= n,
            out@ == old(out)@ + json_authors(sv.subrange(0, i as int)),
        decreases n - i,
    {
        if i > 0 {
            push_lit(out, ",");
        }
        push_json_str(out, ss[i].as_str());
        proof {
            let sub = sv.subrange(0, i as int + 1);
            assert(sub.drop_last() =~= sv.subrange(0, i as int));
            assert(sub.last() == sv[i as int]);
            assert(out@ =~= old(out)@ + json_authors(sub));
        }
        i += 1;
    }
    proof {
        assert(sv.subrange(0, n as int) =~= sv);
    }
}

/// Generate the complete metadata document for one contract, serialized:
/// assembly followed by serialization, both pure functions of the inputs,
/// so the same model and code yield byte-identical documents.
pub fn metadata_bytes(
    model: &crate::contract::ContractModel,
    code: &[u8],
    language_version: SemVer,
    compiler_version: SemVer,
) -> (res: Result<Vec<u8>, crate::resolve::MetadataError>)
    ensures
        match res {
            Result::Ok(b) => crate::assemble::assemble_spec(
                model@,
                code@,
                language_version,
                compiler_version,
            ) matches Result::Ok(d) && b@ == json_descriptor(d),
            Result::Err(e) => crate::assemble::assemble_spec(
                model@,
                code@,
                language_version,
                compiler_version,
            ) == Result::<DescriptorV, crate::resolve::MetadataError>::Err(e),
        },
{
    match crate::assemble::metadata(model, code, language_version, compiler_version) {
        Result::Ok(d) => Result::Ok(descriptor_json_bytes(&d)),
        Result::Err(e) => Result::Err(e),
    }
}

/// Serialize the descriptor to its JSON document, byte for byte the value
/// of `json_descriptor` on the descriptor's view.
#[verifier::rlimit(100)]
pub fn descriptor_json_bytes(d: &Descriptor) -> (r: Vec<u8>)
    ensures
        r@ == json_descriptor(d@),
{
    let mut out: Vec<u8> = Vec::new();
    push_lit(&mut out, "{\"source\":{\"hash\":\"0x");
    push_hex(&mut out, d.source_hash.as_slice());
    push_lit(&mut out, "\",\"language\":\"Solidity ");
    push_semver(&mut out, &d.language_version);
    push_lit(&mut out, "\",\"compiler\":\"solang ");
    push_semver(&mut out, &d.compiler_version);
    push_lit(&mut out, "\"},\"contract\":{\"name\":");
    push_json_str(&mut out, d.contract_name.as_str());
    push_lit(&mut out, ",\"version\":\"");
    push_semver(&mut out, &d.contract_version);
    push_lit(&mut out, "\",\"authors\":[");
    push_authors(&mut out, &d.authors);
    push_lit(&mut out, "]");
    match &d.description {
        Option::Some(s) => {
            push_lit(&mut out, ",\"description\":");
            push_json_str(&mut out, s.as_str());
        },
        Option::None => {},
    }
    push_lit(&mut out, "},\"storage\":{\"struct\":{\"fields\":[");
    push_cells(&mut out, &d.layout.cells);
    push_lit(&mut out, "]}},\"spec\":{\"constructors\":[");
    push_ctors(&mut out, &d.spec.constructors);
    push_lit(&mut out, "],\"messages\":[");
    push_msgs(&mut out, &d.spec.messages);
    push_lit(&mut out, "],\"events\":[");
    push_events(&mut out, &d.spec.events);
    push_lit(&mut out, "],\"docs\":[");
    push_json_str(&mut out, d.spec.docs.as_str());
    push_lit(&mut out, "]},\"types\":[");
    push_types(&mut out, &d.registry.entries);
    push_lit(&mut out, "]}");
    proof {
        assert(out@ =~= json_descriptor(d@));
    }
    out
}

} // verus!

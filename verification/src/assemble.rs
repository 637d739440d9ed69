//! The metadata assembler: registry + layout + spec bundled with provenance
//! (code hash, compiler and language versions, authorship) into the final
//! descriptor document.

use vstd::prelude::*;
use vstd::string::StringExecFns;

use crate::contract::{tag_values, tags, ContractModel, ModelV, TagV};
use crate::layout::{build_layout, layout_spec, LayoutCellV, StorageLayout};
use crate::registry::{EntryV, PortableRegistry};
use crate::resolve::{MetadataError, TypeCache};
use crate::specs::{build_contract_spec, contract_spec_of, ContractSpec, ContractSpecV};

verus! {

broadcast use vstd::std_specs::vec::group_vec_axioms;

/// A semantic version.
#[derive(Clone, Copy, PartialEq, Eq, Structural, Debug)]
pub struct SemVer {
    pub major: u64,
    pub minor: u64,
    pub patch: u64,
}

/// The registry, storage layout and contract spec generated for one
/// contract.
pub struct Project {
    pub registry: PortableRegistry,
    pub layout: StorageLayout,
    pub spec: ContractSpec,
}

/// What project generation means: build the layout against a fresh registry
/// and cache, then the contract spec against the grown registry.
pub open spec fn gen_project_spec(m: ModelV) -> (
    Seq<EntryV>,
    Result<(Seq<LayoutCellV>, ContractSpecV), MetadataError>,
) {
    let (r1, cells) = layout_spec(m.storage, Seq::empty(), m.address_length);
    match cells {
        Option::None => (r1, Result::Err(MetadataError::UnsupportedType)),
        Option::Some(cells) => {
            let (r2, cs) = contract_spec_of(
                m.functions,
                m.default_constructor,
                m.events,
                m.docs,
                r1,
                m.address_length,
            );
            match cs {
                Result::Err(e) => (r2, Result::Err(e)),
                Result::Ok(cs) => (r2, Result::Ok((cells, cs))),
            }
        },
    }
}

/// Generate the registry, storage layout and contract spec for one contract,
/// from a fresh registry and cache.
pub fn gen_project(model: &ContractModel) -> (res: Result<Project, MetadataError>)
    ensures
        match res {
            Result::Ok(p) => {
                &&& p.registry.wf()
                &&& gen_project_spec(model@).0 == p.registry@
                &&& gen_project_spec(model@).1 == Result::<
                    (Seq<LayoutCellV>, ContractSpecV),
                    MetadataError,
                >::Ok((p.layout@, p.spec@))
            },
            Result::Err(e) => gen_project_spec(model@).1 == Result::<
                (Seq<LayoutCellV>, ContractSpecV),
                MetadataError,
            >::Err(e),
        },
{
    let mut registry = PortableRegistry::empty();
    let mut cache = TypeCache::empty();
    let alen = model.address_length;
    let layout = match build_layout(&model.storage, alen, &mut registry, &mut cache) {
        Result::Ok(l) => l,
        Result::Err(e) => {
            return Result::Err(e);
        },
    };
    let spec = match build_contract_spec(
        &model.functions,
        &model.default_constructor,
        &model.events,
        &model.docs,
        alen,
        &mut registry,
        &mut cache,
    ) {
        Result::Ok(s) => s,
        Result::Err(e) => {
            return Result::Err(e);
        },
    };
    Result::Ok(Project { registry, layout, spec })
}

/// The blake2b digest, with a 256-bit digest length, of the given bytes.
pub uninterp spec fn blake2b_256_of(data: Seq<u8>) -> Seq<u8>;

/// Relies on `blake2_rfc::blake2b::blake2b` with digest length 32 and an
/// empty key: the digest depends on the input bytes alone and is 32 bytes
/// long.
#[verifier::external_body]
fn blake2b_256(data: &[u8]) -> (r: Vec<u8>)
    ensures
        r@ == blake2b_256_of(data@),
        r@.len() == 32,
{
    blake2_rfc::blake2b::blake2b(32, &[], data).as_bytes().to_vec()
}

/// Join the parts with one newline between each two.
pub open spec fn join_nl(parts: Seq<Seq<char>>) -> Seq<char>
    decreases parts.len(),
{
    if parts.len() == 0 {
        Seq::empty()
    } else if parts.len() == 1 {
        parts[0]
    } else {
        join_nl(parts.drop_last()) + seq!['\n'] + parts.last()
    }
}

/// The contract description: its title and notice tags joined by newlines,
/// or nothing when it has neither.
pub open spec fn description_of(ts: Seq<TagV>) -> Option<Seq<char>> {
    let parts = tag_values(ts, "title"@) + tag_values(ts, "notice"@);
    if parts.len() == 0 {
        Option::None
    } else {
        Option::Some(join_nl(parts))
    }
}

/// The contract authors: its author tags, or the single sentinel author
/// `unknown` when it declares none.
pub open spec fn authors_of(ts: Seq<TagV>) -> Seq<Seq<char>> {
    if tag_values(ts, "author"@).len() == 0 {
        seq!["unknown"@]
    } else {
        tag_values(ts, "author"@)
    }
}

/// The final descriptor document: provenance, contract identity, storage
/// layout, contract spec and type registry. Self-sufficient: an off-chain
/// client needs nothing else to encode calls and decode results.
pub struct Descriptor {
    /// Content hash of the compiled output bytes.
    pub source_hash: Vec<u8>,
    pub language_version: SemVer,
    pub compiler_version: SemVer,
    pub contract_name: String,
    /// Synthesized: the source language has no native versioning concept.
    pub contract_version: SemVer,
    /// Never empty: a sentinel `unknown` author stands in when the source
    /// declares none.
    pub authors: Vec<String>,
    pub description: Option<String>,
    pub layout: StorageLayout,
    pub spec: ContractSpec,
    pub registry: PortableRegistry,
}

/// Mathematical view of a `Descriptor`.
pub struct DescriptorV {
    pub source_hash: Seq<u8>,
    pub language_version: SemVer,
    pub compiler_version: SemVer,
    pub contract_name: Seq<char>,
    pub contract_version: SemVer,
    pub authors: Seq<Seq<char>>,
    pub description: Option<Seq<char>>,
    pub layout: Seq<LayoutCellV>,
    pub spec: ContractSpecV,
    pub registry: Seq<EntryV>,
}

impl View for Descriptor {
    type V = DescriptorV;

    open spec fn view(&self) -> DescriptorV {
        DescriptorV {
            source_hash: self.source_hash@,
            language_version: self.language_version,
            compiler_version: self.compiler_version,
            contract_name: self.contract_name@,
            contract_version: self.contract_version,
            authors: crate::contract::strings_view(self.authors@),
            description: crate::registry::opt_string_view(self.description),
            layout: self.layout@,
            spec: self.spec@,
            registry: self.registry@,
        }
    }
}

/// What assembly means: one descriptor, a pure function of the program
/// model, the compiled code bytes and the tool versions.
pub open spec fn assemble_spec(
    m: ModelV,
    code: Seq<u8>,
    language_version: SemVer,
    compiler_version: SemVer,
) -> Result<DescriptorV, MetadataError> {
    let (r, out) = gen_project_spec(m);
    match out {
        Result::Err(e) => Result::Err(e),
        Result::Ok((cells, cs)) => Result::Ok(
            DescriptorV {
                source_hash: blake2b_256_of(code),
                language_version,
                compiler_version,
                contract_name: m.name,
                contract_version: SemVer { major: 0, minor: 0, patch: 1 },
                authors: authors_of(m.tags),
                description: description_of(m.tags),
                layout: cells,
                spec: cs,
                registry: r,
            },
        ),
    }
}

/// Join rendered tag values with newlines.
#[verifier::loop_isolation(false)]
fn join_lines(parts: &Vec<String>) -> (r: String)
    ensures
        r@ == join_nl(crate::contract::strings_view(parts@)),
{
    let ghost pv = crate::contract::strings_view(parts@);
    let n = parts.len();
    let mut out = String::new();
    let mut i: usize = 0;
    while i < n
        invariant
            i <= n,
            out@ == join_nl(pv.subrange(0, i as int)),
        decreases n - i,
    {
        if i > 0 {
            out.append("\n");
        }
        out.append(parts[i].as_str());
        proof {
            let sub = pv.subrange(0, i as int + 1);
            assert(sub.drop_last() =~= pv.subrange(0, i as int));
            assert(sub.last() == pv[i as int]);
            if i == 0 {
                assert(out@ =~= join_nl(sub));
            } else {
                reveal_strlit("\n");
                assert(("\n")@ =~= seq!['\n']);
                assert(out@ =~= join_nl(pv.subrange(0, i as int)) + seq!['\n'] + pv[i as int]);
            }
        }
        i += 1;
    }
    proof {
        assert(pv.subrange(0, n as int) =~= pv);
    }
    out
}

/// Generate the complete metadata descriptor for one contract: hash the
/// compiled code, stamp the tool versions, pull name, authors and
/// description from the documentation tags, and bundle the generated
/// registry, layout and spec.
pub fn metadata(
    model: &ContractModel,
    code: &[u8],
    language_version: SemVer,
    compiler_version: SemVer,
) -> (res: Result<Descriptor, MetadataError>)
    ensures
        match res {
            Result::Ok(d) => assemble_spec(model@, code@, language_version, compiler_version)
                == Result::<DescriptorV, MetadataError>::Ok(d@) && d.registry.wf(),
            Result::Err(e) => assemble_spec(model@, code@, language_version, compiler_version)
                == Result::<DescriptorV, MetadataError>::Err(e),
        },
{
    let project = match gen_project(model) {
        Result::Ok(p) => p,
        Result::Err(e) => {
            return Result::Err(e);
        },
    };
    let source_hash = blake2b_256(code);
    let mut description_parts = tags(model, "title");
    let mut notice = tags(model, "notice");
    let ghost dp0 = crate::contract::strings_view(description_parts@);
    let ghost nv = crate::contract::strings_view(notice@);
    description_parts.append(&mut notice);
    proof {
        assert(crate::contract::strings_view(description_parts@) =~= dp0 + nv);
    }
    let description: Option<String> = if description_parts.len() > 0 {
        Option::Some(join_lines(&description_parts))
    } else {
        Option::None
    };
    let mut authors = tags(model, "author");
    if authors.len() == 0 {
        authors.push("unknown".to_owned());
        proof {
            assert(crate::contract::strings_view(authors@) =~= seq!["unknown"@]);
        }
    }
    Result::Ok(
        Descriptor {
            source_hash,
            language_version,
            compiler_version,
            contract_name: model.name.clone(),
            contract_version: SemVer { major: 0, minor: 0, patch: 1 },
            authors,
            description,
            layout: project.layout,
            spec: project.spec,
            registry: project.registry,
        },
    )
}

/// Relies on `String::leak`: the returned slice holds exactly the string's
/// characters.
pub assume_specification<'a>[ String::leak ](s: String) -> (r: &'a mut str)
    ensures
        r@ == s@,
;

/// Leak a string to get a static reference.
pub fn string_to_static_str(s: String) -> (r: &'static str)
    ensures
        r@ == s@,
{
    s.leak()
}

} // verus!

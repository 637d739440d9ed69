use contract_descriptor::assemble::{gen_project, metadata, SemVer};
use contract_descriptor::contract::{
    ContractModel, EventDecl, EventField, FunctionDef, FunctionKind, Mutability, Param,
    ReturnParam, StorageVar, Tag, Visibility,
};
use contract_descriptor::json::{descriptor_json_bytes, metadata_bytes};
use contract_descriptor::layout::slot_key_hex;
use contract_descriptor::model::{ArrayLength, FieldDecl, SourceType, VariantDecl};
use contract_descriptor::registry::{entry_eq, Primitive, PortableRegistry, RegistryEntry};
use contract_descriptor::resolve::{resolve, MetadataError, TypeCache};

fn empty_model() -> ContractModel {
    ContractModel {
        name: "flipper".to_string(),
        tags: Vec::new(),
        docs: String::new(),
        address_length: 32,
        storage: Vec::new(),
        functions: Vec::new(),
        default_constructor: None,
        events: Vec::new(),
    }
}

fn msg(name: &str, selector: [u8; 4], returns: Vec<ReturnParam>) -> FunctionDef {
    FunctionDef {
        name: name.to_string(),
        selector: selector.to_vec(),
        kind: FunctionKind::Callable,
        visibility: Visibility::Public,
        mutability: Mutability::Readonly,
        in_library: false,
        params: Vec::new(),
        returns,
        docs: String::new(),
    }
}

fn ctor(selector: [u8; 4]) -> FunctionDef {
    FunctionDef {
        name: "init".to_string(),
        selector: selector.to_vec(),
        kind: FunctionKind::Constructor,
        visibility: Visibility::Public,
        mutability: Mutability::Nonpayable,
        in_library: false,
        params: Vec::new(),
        returns: Vec::new(),
        docs: String::new(),
    }
}

#[test]
fn widening_uint24_gives_u32() {
    let mut reg = PortableRegistry::empty();
    let mut cache = TypeCache::empty();
    let id = resolve(&SourceType::Uint(24), 32, &mut reg, &mut cache).unwrap();
    assert!(matches!(
        reg.entries[id],
        RegistryEntry::Primitive(Primitive::U32)
    ));
}

#[test]
fn widening_uint128_kept() {
    let mut reg = PortableRegistry::empty();
    let mut cache = TypeCache::empty();
    let id = resolve(&SourceType::Uint(128), 32, &mut reg, &mut cache).unwrap();
    assert!(matches!(
        reg.entries[id],
        RegistryEntry::Primitive(Primitive::U128)
    ));
}

#[test]
fn widening_uint300_unsupported() {
    let mut reg = PortableRegistry::empty();
    let mut cache = TypeCache::empty();
    let err = resolve(&SourceType::Uint(300), 32, &mut reg, &mut cache).unwrap_err();
    assert_eq!(err, MetadataError::UnsupportedType);
}

#[test]
fn signedness_preserved() {
    let mut reg = PortableRegistry::empty();
    let mut cache = TypeCache::empty();
    let id = resolve(&SourceType::Int(24), 32, &mut reg, &mut cache).unwrap();
    assert!(matches!(
        reg.entries[id],
        RegistryEntry::Primitive(Primitive::I32)
    ));
}

#[test]
fn transparency_reference_same_id() {
    let mut reg = PortableRegistry::empty();
    let mut cache = TypeCache::empty();
    let direct = resolve(&SourceType::Bool, 32, &mut reg, &mut cache).unwrap();
    let through_ref = resolve(
        &SourceType::Ref(Box::new(SourceType::Bool)),
        32,
        &mut reg,
        &mut cache,
    )
    .unwrap();
    let through_alias = resolve(
        &SourceType::UserAlias(Box::new(SourceType::Bool)),
        32,
        &mut reg,
        &mut cache,
    )
    .unwrap();
    assert_eq!(direct, through_ref);
    assert_eq!(direct, through_alias);
    assert_eq!(reg.entries.len(), 1);
}

fn point_struct(x: &str, y: &str) -> SourceType {
    SourceType::Struct(vec![
        FieldDecl {
            name: x.to_string(),
            ty: SourceType::Uint(32),
        },
        FieldDecl {
            name: y.to_string(),
            ty: SourceType::Bool,
        },
    ])
}

#[test]
fn dedup_identical_structs_share_one_entry() {
    let mut reg = PortableRegistry::empty();
    let mut cache = TypeCache::empty();
    let a = resolve(&point_struct("x", "y"), 32, &mut reg, &mut cache).unwrap();
    // A structurally identical but separately built value, so the cache sees
    // a fresh key and the registry's dedup decides.
    let mut cache2 = TypeCache::empty();
    let b = resolve(&point_struct("x", "y"), 32, &mut reg, &mut cache2).unwrap();
    assert_eq!(a, b);
    // u32, bool, and the composite: three distinct shapes only.
    assert_eq!(reg.entries.len(), 3);
}

#[test]
fn dedup_field_names_distinguish() {
    let mut reg = PortableRegistry::empty();
    let mut cache = TypeCache::empty();
    let a = resolve(&point_struct("x", "y"), 32, &mut reg, &mut cache).unwrap();
    let b = resolve(&point_struct("x", "z"), 32, &mut reg, &mut cache).unwrap();
    assert_ne!(a, b);
    assert_eq!(reg.entries.len(), 4);
}

#[test]
fn cache_hit_returns_same_id() {
    let mut reg = PortableRegistry::empty();
    let mut cache = TypeCache::empty();
    let t = point_struct("x", "y");
    let a = resolve(&t, 32, &mut reg, &mut cache).unwrap();
    let len_after_first = reg.entries.len();
    let b = resolve(&t, 32, &mut reg, &mut cache).unwrap();
    assert_eq!(a, b);
    assert_eq!(reg.entries.len(), len_after_first);
}

#[test]
fn enum_variants_sorted_by_discriminant() {
    let mut reg = PortableRegistry::empty();
    let mut cache = TypeCache::empty();
    let e = SourceType::Enum(vec![
        VariantDecl {
            name: "C".to_string(),
            discriminant: 2,
        },
        VariantDecl {
            name: "A".to_string(),
            discriminant: 0,
        },
        VariantDecl {
            name: "B".to_string(),
            discriminant: 1,
        },
    ]);
    let id = resolve(&e, 32, &mut reg, &mut cache).unwrap();
    match &reg.entries[id] {
        RegistryEntry::Variant(vs) => {
            let got: Vec<(&str, u8)> = vs
                .iter()
                .map(|v| (v.name.as_str(), v.discriminant))
                .collect();
            assert_eq!(got, vec![("A", 0), ("B", 1), ("C", 2)]);
        }
        _ => panic!("expected a variant entry"),
    }
}

#[test]
fn address_lowering_shape() {
    let mut reg = PortableRegistry::empty();
    let mut cache = TypeCache::empty();
    let id = resolve(&SourceType::Address, 32, &mut reg, &mut cache).unwrap();
    // u8 primitive, the 32-byte array, and the wrapping composite.
    assert_eq!(reg.entries.len(), 3);
    match &reg.entries[id] {
        RegistryEntry::Composite(fs) => {
            assert_eq!(fs.len(), 1);
            assert!(fs[0].name.is_none());
            match &reg.entries[fs[0].ty] {
                RegistryEntry::Array(len, el) => {
                    assert_eq!(*len, 32);
                    assert!(matches!(
                        reg.entries[*el],
                        RegistryEntry::Primitive(Primitive::U8)
                    ));
                }
                _ => panic!("expected an array entry"),
            }
        }
        _ => panic!("expected a composite entry"),
    }
}

#[test]
fn multi_dimensional_array_nesting() {
    let mut reg = PortableRegistry::empty();
    let mut cache = TypeCache::empty();
    // Innermost dimension first: bool[2][] is a sequence of 2-arrays here.
    let t = SourceType::Array(
        Box::new(SourceType::Bool),
        vec![ArrayLength::Fixed(2), ArrayLength::Dynamic],
    );
    let id = resolve(&t, 32, &mut reg, &mut cache).unwrap();
    match &reg.entries[id] {
        RegistryEntry::Sequence(el) => match &reg.entries[*el] {
            RegistryEntry::Array(len, inner) => {
                assert_eq!(*len, 2);
                assert!(matches!(
                    reg.entries[*inner],
                    RegistryEntry::Primitive(Primitive::Bool)
                ));
            }
            _ => panic!("expected an array entry"),
        },
        _ => panic!("expected a sequence entry"),
    }
}

#[test]
fn bytes_lowering() {
    let mut reg = PortableRegistry::empty();
    let mut cache = TypeCache::empty();
    let fixed = resolve(&SourceType::Bytes(4), 32, &mut reg, &mut cache).unwrap();
    let dynamic = resolve(&SourceType::DynamicBytes, 32, &mut reg, &mut cache).unwrap();
    assert!(matches!(reg.entries[fixed], RegistryEntry::Array(4, _)));
    assert!(matches!(reg.entries[dynamic], RegistryEntry::Sequence(_)));
}

#[test]
fn mapping_is_unsupported_in_resolution() {
    let mut reg = PortableRegistry::empty();
    let mut cache = TypeCache::empty();
    let m = SourceType::Mapping(Box::new(SourceType::Uint(8)), Box::new(SourceType::Bool));
    assert_eq!(
        resolve(&m, 32, &mut reg, &mut cache).unwrap_err(),
        MetadataError::UnsupportedType
    );
}

#[test]
fn multi_return_synthesizes_fresh_composite() {
    let mut model = empty_model();
    // A struct of the identical shape already in storage, under field names.
    model.storage.push(StorageVar {
        name: "p".to_string(),
        slot: 0,
        ty: point_struct("a", "b"),
    });
    model.functions.push(msg(
        "get",
        [1, 2, 3, 4],
        vec![
            ReturnParam {
                name: None,
                ty: SourceType::Uint(32),
            },
            ReturnParam {
                name: None,
                ty: SourceType::Bool,
            },
        ],
    ));
    let p = gen_project(&model).unwrap();
    let ret = p.spec.messages[0].return_ty.unwrap();
    // The tuple entry is fresh: not the struct's entry.
    match &p.registry.entries[ret] {
        RegistryEntry::Composite(fs) => {
            assert_eq!(fs.len(), 2);
            assert!(fs[0].name.is_none());
            assert_eq!(fs[0].type_label.as_deref(), Some(""));
        }
        _ => panic!("expected a composite entry"),
    }
    let composites = p
        .registry
        .entries
        .iter()
        .filter(|e| matches!(e, RegistryEntry::Composite(_)))
        .count();
    assert_eq!(composites, 2);
}

#[test]
fn layout_excludes_mapping_variables() {
    let mut model = empty_model();
    model.storage.push(StorageVar {
        name: "a".to_string(),
        slot: 0,
        ty: SourceType::Uint(8),
    });
    model.storage.push(StorageVar {
        name: "m".to_string(),
        slot: 1,
        ty: SourceType::Mapping(Box::new(SourceType::Uint(8)), Box::new(SourceType::Bool)),
    });
    model.storage.push(StorageVar {
        name: "b".to_string(),
        slot: 2,
        ty: SourceType::Bool,
    });
    let p = gen_project(&model).unwrap();
    let names: Vec<&str> = p.layout.cells.iter().map(|c| c.name.as_str()).collect();
    assert_eq!(names, vec!["a", "b"]);
    assert_eq!(p.layout.cells[0].slot, 0);
    assert_eq!(p.layout.cells[1].slot, 2);
}

#[test]
fn layout_excludes_oversized_types() {
    let mut model = empty_model();
    model.storage.push(StorageVar {
        name: "huge".to_string(),
        slot: 0,
        ty: SourceType::Array(
            Box::new(SourceType::Uint(8)),
            vec![
                ArrayLength::Fixed(u32::MAX),
                ArrayLength::Fixed(u32::MAX),
            ],
        ),
    });
    model.storage.push(StorageVar {
        name: "ok".to_string(),
        slot: 1,
        ty: SourceType::Bool,
    });
    let p = gen_project(&model).unwrap();
    let names: Vec<&str> = p.layout.cells.iter().map(|c| c.name.as_str()).collect();
    assert_eq!(names, vec!["ok"]);
}

#[test]
fn malformed_selector_rejected() {
    let mut model = empty_model();
    let mut c = ctor([0, 0, 0, 0]);
    c.selector = vec![1, 2, 3];
    model.functions.push(c);
    match gen_project(&model) {
        Err(e) => assert_eq!(e, MetadataError::MalformedInput),
        Ok(_) => panic!("expected a malformed-input error"),
    }
}

#[test]
fn constructors_carry_new_label_and_payable_flag() {
    let mut model = empty_model();
    let mut c = ctor([9, 9, 9, 9]);
    c.mutability = Mutability::Payable;
    model.functions.push(c);
    model.default_constructor = Some(ctor([0, 0, 0, 0]));
    let p = gen_project(&model).unwrap();
    assert_eq!(p.spec.constructors.len(), 2);
    assert_eq!(p.spec.constructors[0].label, "new");
    assert!(p.spec.constructors[0].payable);
    assert_eq!(p.spec.constructors[0].selector, [9, 9, 9, 9]);
    assert_eq!(p.spec.constructors[1].label, "new");
    assert!(!p.spec.constructors[1].payable);
}

#[test]
fn message_filter_and_mutates_flag() {
    let mut model = empty_model();
    let mut hidden = msg("internal_only", [1, 1, 1, 1], Vec::new());
    hidden.visibility = Visibility::Internal;
    model.functions.push(hidden);
    let mut library = msg("lib_fn", [2, 2, 2, 2], Vec::new());
    library.in_library = true;
    model.functions.push(library);
    let mut writer = msg("set", [3, 3, 3, 3], Vec::new());
    writer.mutability = Mutability::Nonpayable;
    model.functions.push(writer);
    let reader = msg("get", [4, 4, 4, 4], Vec::new());
    model.functions.push(reader);
    let p = gen_project(&model).unwrap();
    let labels: Vec<&str> = p.spec.messages.iter().map(|m| m.label.as_str()).collect();
    assert_eq!(labels, vec!["set", "get"]);
    assert!(p.spec.messages[0].mutates);
    assert!(!p.spec.messages[1].mutates);
}

#[test]
fn events_carry_indexed_flags() {
    let mut model = empty_model();
    model.events.push(EventDecl {
        name: "Transfer".to_string(),
        fields: vec![
            EventField {
                name: "from".to_string(),
                ty: SourceType::Address,
                indexed: true,
            },
            EventField {
                name: "amount".to_string(),
                ty: SourceType::Uint(128),
                indexed: false,
            },
        ],
        docs: String::new(),
    });
    let p = gen_project(&model).unwrap();
    assert_eq!(p.spec.events.len(), 1);
    assert_eq!(p.spec.events[0].label, "Transfer");
    assert!(p.spec.events[0].args[0].indexed);
    assert!(!p.spec.events[0].args[1].indexed);
}

#[test]
fn end_to_end_minimal_contract() {
    let mut model = empty_model();
    model.storage.push(StorageVar {
        name: "value".to_string(),
        slot: 0,
        ty: SourceType::Uint(8),
    });
    model.functions.push(ctor([0xAA, 0xBB, 0xCC, 0xDD]));
    model.functions.push(msg(
        "get",
        [0x11, 0x22, 0x33, 0x44],
        vec![ReturnParam {
            name: None,
            ty: SourceType::Uint(8),
        }],
    ));
    let d = metadata(
        &model,
        &[0u8; 4],
        SemVer {
            major: 0,
            minor: 3,
            patch: 0,
        },
        SemVer {
            major: 0,
            minor: 3,
            patch: 0,
        },
    )
    .unwrap();
    assert_eq!(d.registry.entries.len(), 1);
    assert!(matches!(
        d.registry.entries[0],
        RegistryEntry::Primitive(Primitive::U8)
    ));
    assert_eq!(d.layout.cells.len(), 1);
    assert_eq!(d.layout.cells[0].ty, 0);
    assert_eq!(d.layout.cells[0].name, "value");
    assert_eq!(slot_key_hex(d.layout.cells[0].slot), vec![b'0'; 64]);
    assert_eq!(d.spec.messages[0].return_ty, Some(0));
    assert_eq!(d.spec.constructors.len(), 1);
}

#[test]
fn descriptor_provenance_and_authors() {
    let mut model = empty_model();
    model.tags.push(Tag {
        tag: "title".to_string(),
        value: "A flipper".to_string(),
    });
    model.tags.push(Tag {
        tag: "notice".to_string(),
        value: "flips bits".to_string(),
    });
    let code = [1u8, 2, 3];
    let v = SemVer {
        major: 0,
        minor: 3,
        patch: 1,
    };
    let d = metadata(&model, &code, v, v).unwrap();
    // blake2b-256 of [1, 2, 3]: the digest must come from the real hash, not
    // the input handed back.
    assert_eq!(d.source_hash.len(), 32);
    assert_ne!(&d.source_hash[..3], &code[..]);
    let expected =
        blake2_rfc::blake2b::blake2b(32, &[], &code);
    assert_eq!(d.source_hash.as_slice(), expected.as_bytes());
    assert_eq!(d.authors, vec!["unknown".to_string()]);
    assert_eq!(d.description.as_deref(), Some("A flipper\nflips bits"));
    assert_eq!(
        d.contract_version,
        SemVer {
            major: 0,
            minor: 0,
            patch: 1
        }
    );
}

#[test]
fn author_tags_override_sentinel() {
    let mut model = empty_model();
    model.tags.push(Tag {
        tag: "author".to_string(),
        value: "alice".to_string(),
    });
    model.tags.push(Tag {
        tag: "author".to_string(),
        value: "bob".to_string(),
    });
    let v = SemVer {
        major: 1,
        minor: 0,
        patch: 0,
    };
    let d = metadata(&model, &[], v, v).unwrap();
    assert_eq!(d.authors, vec!["alice".to_string(), "bob".to_string()]);
    assert_eq!(d.description, None);
}

#[test]
fn generation_is_deterministic() {
    let mut model = empty_model();
    model.storage.push(StorageVar {
        name: "p".to_string(),
        slot: 7,
        ty: point_struct("x", "y"),
    });
    model.functions.push(ctor([1, 2, 3, 4]));
    model.functions.push(msg(
        "get",
        [5, 6, 7, 8],
        vec![ReturnParam {
            name: None,
            ty: SourceType::Bool,
        }],
    ));
    let v = SemVer {
        major: 0,
        minor: 3,
        patch: 0,
    };
    let code = [9u8; 16];
    let d1 = metadata(&model, &code, v, v).unwrap();
    let d2 = metadata(&model, &code, v, v).unwrap();
    assert_eq!(d1.source_hash, d2.source_hash);
    assert_eq!(d1.contract_name, d2.contract_name);
    assert_eq!(d1.registry.entries.len(), d2.registry.entries.len());
    for (a, b) in d1.registry.entries.iter().zip(d2.registry.entries.iter()) {
        assert!(entry_eq(a, b));
    }
    assert_eq!(d1.layout.cells.len(), d2.layout.cells.len());
    for (a, b) in d1.layout.cells.iter().zip(d2.layout.cells.iter()) {
        assert_eq!(a.slot, b.slot);
        assert_eq!(a.ty, b.ty);
        assert_eq!(a.name, b.name);
    }
    assert_eq!(d1.spec.messages.len(), d2.spec.messages.len());
    assert_eq!(
        d1.spec.messages[0].return_ty,
        d2.spec.messages[0].return_ty
    );
}

#[test]
fn slot_key_renders_big_endian_hex() {
    let key = slot_key_hex(255);
    assert_eq!(key.len(), 64);
    assert_eq!(&key[..62], &vec![b'0'; 62][..]);
    assert_eq!(&key[62..], b"ff");
    let key2 = slot_key_hex(0x1234_5678_9abc_def0);
    assert_eq!(&key2[..48], &vec![b'0'; 48][..]);
    assert_eq!(&key2[48..], b"123456789abcdef0");
}

#[test]
fn static_str_keeps_contents() {
    let s = contract_descriptor::assemble::string_to_static_str("hello".to_string());
    assert_eq!(s, "hello");
}

#[test]
fn serialized_documents_are_byte_identical() {
    let mut model = empty_model();
    model.storage.push(StorageVar {
        name: "p".to_string(),
        slot: 3,
        ty: point_struct("x", "y"),
    });
    model.functions.push(ctor([1, 2, 3, 4]));
    let v = SemVer {
        major: 0,
        minor: 3,
        patch: 0,
    };
    let b1 = metadata_bytes(&model, &[7u8; 8], v, v).unwrap();
    let b2 = metadata_bytes(&model, &[7u8; 8], v, v).unwrap();
    assert_eq!(b1, b2);
}

#[test]
fn minimal_document_renders_exactly() {
    let mut model = empty_model();
    model.storage.push(StorageVar {
        name: "value".to_string(),
        slot: 0,
        ty: SourceType::Uint(8),
    });
    model.functions.push(msg(
        "get",
        [0x11, 0x22, 0x33, 0x44],
        vec![ReturnParam {
            name: None,
            ty: SourceType::Uint(8),
        }],
    ));
    let v = SemVer {
        major: 0,
        minor: 3,
        patch: 0,
    };
    let code: [u8; 0] = [];
    let bytes = metadata_bytes(&model, &code, v, v).unwrap();
    let text = String::from_utf8(bytes).unwrap();
    // blake2b-256 of the empty input.
    let hash = "0e5751c026e543b2e8ab2eb06099daa1d1e5df47778f7787faab45cdf12fe3a8";
    let zeros = "0".repeat(64);
    let mut expected = String::new();
    expected.push_str("{\"source\":{\"hash\":\"0x");
    expected.push_str(hash);
    expected.push_str("\",\"language\":\"Solidity 0.3.0\",\"compiler\":\"solang 0.3.0\"},");
    expected.push_str("\"contract\":{\"name\":\"flipper\",\"version\":\"0.0.1\",\"authors\":[\"unknown\"]},");
    expected.push_str("\"storage\":{\"struct\":{\"fields\":[{\"name\":\"value\",\"layout\":{\"cell\":{\"key\":\"0x");
    expected.push_str(&zeros);
    expected.push_str("\",\"ty\":0}}}]}},");
    expected.push_str("\"spec\":{\"constructors\":[],");
    expected.push_str("\"messages\":[{\"label\":\"get\",\"selector\":\"0x11223344\",\"mutates\":false,\"payable\":false,\"args\":[],\"returnType\":0,\"docs\":[\"\"]}],");
    expected.push_str("\"events\":[],\"docs\":[\"\"]},");
    expected.push_str("\"types\":[{\"id\":0,\"type\":{\"def\":{\"primitive\":\"u8\"}}}]}");
    assert_eq!(text, expected);
}

#[test]
fn strings_are_escaped_in_documents() {
    let mut model = empty_model();
    model.name = "quo\"te\\back\nline".to_string();
    let v = SemVer {
        major: 1,
        minor: 0,
        patch: 0,
    };
    let d = metadata(&model, &[], v, v).unwrap();
    let bytes = descriptor_json_bytes(&d);
    let text = String::from_utf8(bytes).unwrap();
    assert!(text.contains("\"name\":\"quo\\\"te\\\\back\\u000aline\""));
    let parsed: serde_json::Value = serde_json::from_str(&text).unwrap();
    assert_eq!(
        parsed["contract"]["name"].as_str().unwrap(),
        "quo\"te\\back\nline"
    );
}

#[test]
fn tags_filter_by_name_in_order() {
    let mut model = empty_model();
    model.tags.push(Tag {
        tag: "author".to_string(),
        value: "alice".to_string(),
    });
    model.tags.push(Tag {
        tag: "title".to_string(),
        value: "t".to_string(),
    });
    model.tags.push(Tag {
        tag: "author".to_string(),
        value: "bob".to_string(),
    });
    let authors = contract_descriptor::contract::tags(&model, "author");
    assert_eq!(authors, vec!["alice".to_string(), "bob".to_string()]);
    let none = contract_descriptor::contract::tags(&model, "notice");
    assert!(none.is_empty());
}

#[test]
fn client_outputs_hold_plain_values() {
    let w = contract_descriptor::outputs::WriteSuccess {
        events: vec![vec![1, 2], vec![3]],
    };
    assert_eq!(w.event_count(), 2);
    let r = contract_descriptor::outputs::ReadSuccess {
        return_value: vec![0xFF],
    };
    assert_eq!(r.data(), &vec![0xFF]);
}

use idlgen::assemble::{FilePlan, OutFile};
use idlgen::errors::{EntityErrorKind, GenError};
use idlgen::generate;
use idlgen::ir::TypeNode;
use idlgen::naming::naming_context;
use idlgen::normalize::{legacy_discriminator, load_schema, parse_current};
use idlgen::numtext::u64_to_string;
use idlgen::process::process_types;
use idlgen::resolve::resolve;
use idlgen::scaffold;

fn find_file<'a>(plan: &'a FilePlan, suffix: &str) -> Option<&'a OutFile> {
    plan.files.iter().find(|f| f.path.ends_with(suffix))
}

fn count_occurrences(haystack: &str, needle: &str) -> usize {
    haystack.matches(needle).count()
}

const CURRENT_POOL: &str = "{\"metadata\":{\"name\":\"my_program\"},\"accounts\":[{\"name\":\"PoolState\",\"discriminator\":[1,2,3,4,5,6,7,8],\"generics\":[],\"fields\":[{\"name\":\"liquidity\",\"type\":\"u64\"}]},{\"name\":\"TickArray\",\"discriminator\":[9,9,9,9,9,9,9,9],\"generics\":[],\"fields\":[{\"name\":\"start\",\"type\":\"i32\"}]}],\"instructions\":[],\"types\":[],\"events\":[]}";

#[test]
fn round_trip_current_pool_state() {
    let g = generate(CURRENT_POOL, "out", false).unwrap_or_else(|_| panic!("generate failed"));
    let pool = find_file(&g.plan, "/accounts/pool_state.rs").expect("pool_state.rs missing");
    assert_eq!(count_occurrences(&pool.content, "    pub liquidity: u64,\n"), 1);
    assert_eq!(count_occurrences(&pool.content, "pub liquidity"), 1);
    let agg = find_file(&g.plan, "/accounts/mod.rs").expect("accounts mod missing");
    let p = agg.content.find("pub mod pool_state;").expect("pool_state not listed");
    let t = agg.content.find("pub mod tick_array;").expect("tick_array not listed");
    assert!(p < t, "declaration order not preserved");
}

#[test]
fn account_file_carries_discriminator() {
    let g = generate(CURRENT_POOL, "out", false).unwrap_or_else(|_| panic!("generate failed"));
    let pool = find_file(&g.plan, "/accounts/pool_state.rs").expect("pool_state.rs missing");
    assert!(pool.content.contains("#[carbon(discriminator = \"0x0102030405060708\")]"));
    assert!(pool.content.contains("pub struct PoolState {"));
}

#[test]
fn resolver_is_deterministic() {
    let node = TypeNode::Vector(Box::new(TypeNode::Opt(Box::new(TypeNode::FixedArray(
        Box::new(TypeNode::Primitive(idlgen::ir::PrimKind::U8)),
        4,
    )))));
    let ctx: Vec<String> = Vec::new();
    let table: Vec<String> = Vec::new();
    let a = resolve(&node, &ctx, &table).map(|r| r.expr).unwrap_or_default();
    let b = resolve(&node, &ctx, &table).map(|r| r.expr).unwrap_or_default();
    assert_eq!(a, b);
    assert_eq!(a, "Vec<Option<[u8; 4]>>");
}

const CURRENT_BIG: &str = "{\"metadata\":{\"name\":\"my_program\"},\"accounts\":[],\"instructions\":[],\"types\":[{\"name\":\"BigHolder\",\"generics\":[],\"fields\":[{\"name\":\"data\",\"type\":{\"array\":[\"u64\",33]}}]},{\"name\":\"OtherBig\",\"generics\":[],\"fields\":[{\"name\":\"data\",\"type\":{\"array\":[\"u8\",64]}}]}],\"events\":[]}";

const CURRENT_SMALL: &str = "{\"metadata\":{\"name\":\"my_program\"},\"accounts\":[],\"instructions\":[],\"types\":[{\"name\":\"SmallHolder\",\"generics\":[],\"fields\":[{\"name\":\"data\",\"type\":{\"array\":[\"u64\",32]}}]}],\"events\":[]}";

#[test]
fn oversized_array_flag_and_single_import() {
    let g = generate(CURRENT_BIG, "out", false).unwrap_or_else(|_| panic!("generate failed"));
    assert!(g.types[0].fields[0].is_oversized_array);
    assert!(g.types[0].needs_big_array);
    let agg = find_file(&g.plan, "/types/mod.rs").expect("types mod missing");
    assert_eq!(
        count_occurrences(&agg.content, "use serde_big_array::BigArray;"),
        1,
        "big-array import must appear exactly once even with two oversized types"
    );
}

#[test]
fn boundary_array_is_not_oversized() {
    let g = generate(CURRENT_SMALL, "out", false).unwrap_or_else(|_| panic!("generate failed"));
    assert!(!g.types[0].fields[0].is_oversized_array);
    let agg = find_file(&g.plan, "/types/mod.rs").expect("types mod missing");
    assert_eq!(count_occurrences(&agg.content, "use serde_big_array::BigArray;"), 0);
    let file = find_file(&g.plan, "/types/small_holder.rs").expect("small_holder.rs missing");
    assert!(file.content.contains("    pub data: [u64; 32],\n"));
}

const CURRENT_COLLIDE: &str = "{\"metadata\":{\"name\":\"my_program\"},\"accounts\":[{\"name\":\"PoolState\",\"discriminator\":[1],\"generics\":[],\"fields\":[]},{\"name\":\"pool_state\",\"discriminator\":[2],\"generics\":[],\"fields\":[]}],\"instructions\":[],\"types\":[],\"events\":[]}";

#[test]
fn module_name_collision_is_an_error() {
    let g = generate(CURRENT_COLLIDE, "out", false).unwrap_or_else(|_| panic!("generate failed"));
    assert_eq!(g.accounts.len(), 1);
    assert_eq!(g.accounts[0].module_name, "pool_state");
    assert_eq!(g.account_errors.len(), 1);
    assert_eq!(g.account_errors[0].entity, "pool_state");
    assert!(matches!(
        &g.account_errors[0].kind,
        EntityErrorKind::ModuleNameCollision { module_name } if module_name == "pool_state"
    ));
}

const LEGACY_POOL: &str = "{\"name\":\"my_program\",\"accounts\":[{\"name\":\"PoolState\",\"generics\":[],\"fields\":[{\"name\":\"liquidity\",\"type\":\"u64\"}]},{\"name\":\"TickArray\",\"generics\":[],\"fields\":[{\"name\":\"start\",\"type\":\"i32\"}]}],\"instructions\":[],\"types\":[],\"events\":[]}";

#[test]
fn legacy_fallback_succeeds_with_equivalent_shape() {
    assert!(parse_current(LEGACY_POOL).is_err());
    let sch = load_schema(LEGACY_POOL).unwrap_or_else(|_| panic!("legacy load failed"));
    assert_eq!(sch.program_name, "my_program");
    let g_legacy = generate(LEGACY_POOL, "out", false).unwrap_or_else(|_| panic!("legacy generate failed"));
    let g_current = generate(CURRENT_POOL, "out", false).unwrap_or_else(|_| panic!("current generate failed"));
    let legacy_paths: Vec<&str> = g_legacy.plan.files.iter().map(|f| f.path.as_str()).collect();
    let current_paths: Vec<&str> = g_current.plan.files.iter().map(|f| f.path.as_str()).collect();
    assert_eq!(legacy_paths, current_paths);
}

#[test]
fn legacy_discriminator_rule() {
    let d = legacy_discriminator("Pool");
    assert_eq!(d, vec![80u8, 111, 111, 108, 0, 0, 0, 0]);
    let d2 = legacy_discriminator("PoolStateLong");
    assert_eq!(d2, vec![80u8, 111, 111, 108, 83, 116, 97, 116]);
}

#[test]
fn package_mode_writes_manifest_with_conditional_dependency() {
    let g = generate(CURRENT_BIG, "out", true).unwrap_or_else(|_| panic!("generate failed"));
    let manifest = find_file(&g.plan, "/Cargo.toml").expect("manifest missing in package mode");
    assert_eq!(manifest.path, "out/my-program-decoder/Cargo.toml");
    assert!(manifest.content.contains("name = \"my-program-decoder\""));
    assert_eq!(count_occurrences(&manifest.content, "serde-big-array"), 1);
    let entry = find_file(&g.plan, "/src/lib.rs").expect("entry point missing");
    assert_eq!(entry.path, "out/my-program-decoder/src/lib.rs");
    assert!(entry.content.contains("pub struct MyProgramDecoder;"));

    let g2 = generate(CURRENT_SMALL, "out", true).unwrap_or_else(|_| panic!("generate failed"));
    let manifest2 = find_file(&g2.plan, "/Cargo.toml").expect("manifest missing");
    assert_eq!(count_occurrences(&manifest2.content, "serde-big-array"), 0);
}

#[test]
fn module_mode_has_no_manifest_and_entry_under_root() {
    let g = generate(CURRENT_SMALL, "out", false).unwrap_or_else(|_| panic!("generate failed"));
    assert!(find_file(&g.plan, "/Cargo.toml").is_none());
    let entry = find_file(&g.plan, "/mod.rs").expect("entry point missing");
    assert_eq!(
        g.plan.files.last().map(|f| f.path.as_str()),
        Some("out/my_program_decoder/mod.rs")
    );
    assert!(entry.path.starts_with("out/my_program_decoder/"));
}

const CURRENT_UNRESOLVED: &str = "{\"metadata\":{\"name\":\"my_program\"},\"accounts\":[],\"instructions\":[],\"types\":[{\"name\":\"GoodType\",\"generics\":[],\"fields\":[{\"name\":\"x\",\"type\":\"u8\"}]},{\"name\":\"BadType\",\"generics\":[],\"fields\":[{\"name\":\"y\",\"type\":{\"defined\":{\"name\":\"Missing\",\"generics\":[]}}}]}],\"events\":[]}";

#[test]
fn unresolved_reference_is_scoped_to_its_entity() {
    let g = generate(CURRENT_UNRESOLVED, "out", false).unwrap_or_else(|_| panic!("generate failed"));
    assert_eq!(g.types.len(), 1);
    assert_eq!(g.types[0].name, "GoodType");
    assert_eq!(g.type_errors.len(), 1);
    assert_eq!(g.type_errors[0].entity, "BadType");
    assert!(matches!(
        &g.type_errors[0].kind,
        EntityErrorKind::UnresolvedField { field, referenced } if field == "y" && referenced == "Missing"
    ));
    assert!(find_file(&g.plan, "/types/good_type.rs").is_some());
    assert!(find_file(&g.plan, "/types/bad_type.rs").is_none());
}

const CURRENT_GENERIC: &str = "{\"metadata\":{\"name\":\"my_program\"},\"accounts\":[],\"instructions\":[],\"types\":[{\"name\":\"Wrapper\",\"generics\":[\"T\"],\"fields\":[{\"name\":\"inner\",\"type\":{\"generic\":\"T\"}},{\"name\":\"pair\",\"type\":{\"defined\":{\"name\":\"Wrapper\",\"generics\":[\"u64\"]}}}]}],\"events\":[]}";

#[test]
fn generic_types_resolve_positionally() {
    let sch = load_schema(CURRENT_GENERIC).unwrap_or_else(|_| panic!("load failed"));
    let (models, errs) = process_types(&sch);
    assert!(errs.is_empty());
    assert_eq!(models.len(), 1);
    assert_eq!(models[0].fields[0].type_expression, "T");
    assert_eq!(models[0].fields[1].type_expression, "Wrapper<u64>");
    let g = generate(CURRENT_GENERIC, "out", false).unwrap_or_else(|_| panic!("generate failed"));
    let file = find_file(&g.plan, "/types/wrapper.rs").expect("wrapper.rs missing");
    assert!(file.content.contains("pub struct Wrapper<T> {"));
}

#[test]
fn undeclared_generic_parameter_is_unresolved() {
    let text = "{\"metadata\":{\"name\":\"p\"},\"accounts\":[],\"instructions\":[],\"types\":[{\"name\":\"Odd\",\"generics\":[],\"fields\":[{\"name\":\"x\",\"type\":{\"generic\":\"T\"}}]}],\"events\":[]}";
    let g = generate(text, "out", false).unwrap_or_else(|_| panic!("generate failed"));
    assert!(g.types.is_empty());
    assert_eq!(g.type_errors.len(), 1);
    assert!(matches!(
        &g.type_errors[0].kind,
        EntityErrorKind::UnresolvedField { referenced, .. } if referenced == "T"
    ));
}

#[test]
fn both_encodings_failing_surfaces_parse_error() {
    let r = generate("not a schema at all", "out", false);
    assert!(matches!(r, Err(GenError::SchemaParseError { .. })));
    let r2 = load_schema("{\"metadata\":{\"name\":\"p\"}");
    assert!(matches!(r2, Err(GenError::SchemaParseError { .. })));
}

#[test]
fn empty_schema_still_emits_skeleton() {
    let text = "{\"metadata\":{\"name\":\"p\"},\"accounts\":[],\"instructions\":[],\"types\":[],\"events\":[]}";
    let g = generate(text, "out", false).unwrap_or_else(|_| panic!("generate failed"));
    assert_eq!(g.plan.files.len(), 4);
    assert_eq!(g.plan.dirs.len(), 5);
    assert_eq!(g.plan.dirs[0], "out/p_decoder");
}

#[test]
fn output_root_with_trailing_slash_is_not_doubled() {
    let text = "{\"metadata\":{\"name\":\"p\"},\"accounts\":[],\"instructions\":[],\"types\":[],\"events\":[]}";
    let g = generate(text, "out/", false).unwrap_or_else(|_| panic!("generate failed"));
    assert_eq!(g.plan.dirs[0], "out/p_decoder");
}

#[test]
fn naming_context_derives_all_names() {
    let ctx = naming_context("my_program");
    assert_eq!(ctx.decoder_name, "MyProgramDecoder");
    assert_eq!(ctx.decoder_name_kebab, "my-program");
    assert_eq!(ctx.account_enum_name, "MyProgramAccount");
    assert_eq!(ctx.instruction_enum_name, "MyProgramInstruction");
    assert_eq!(ctx.program_snake, "my_program");
}

#[test]
fn events_share_instructions_directory() {
    let text = "{\"metadata\":{\"name\":\"p\"},\"accounts\":[],\"instructions\":[{\"name\":\"DoSwap\",\"discriminator\":[7],\"generics\":[],\"fields\":[]}],\"types\":[],\"events\":[{\"name\":\"SwapDone\",\"discriminator\":[8],\"generics\":[],\"fields\":[]}]}";
    let g = generate(text, "out", false).unwrap_or_else(|_| panic!("generate failed"));
    assert!(find_file(&g.plan, "/instructions/do_swap.rs").is_some());
    assert!(find_file(&g.plan, "/instructions/swap_done.rs").is_some());
    let agg = find_file(&g.plan, "/instructions/mod.rs").expect("instructions mod missing");
    assert!(agg.content.contains("pub mod do_swap;"));
    assert!(agg.content.contains("pub mod swap_done;"));
    assert!(agg.content.contains("pub enum PInstruction {"));
    assert!(agg.content.contains("    DoSwap(DoSwap),\n"));
}

#[test]
fn number_rendering_is_exact() {
    assert_eq!(u64_to_string(0), "0");
    assert_eq!(u64_to_string(12345), "12345");
    assert_eq!(u64_to_string(u64::MAX), "18446744073709551615");
}

#[test]
fn scaffold_is_a_stub() {
    let r = scaffold(
        String::from("out"),
        String::from("decoders"),
        String::from("source"),
        String::from("metrics"),
    );
    assert!(r.is_ok());
}

#[test]
fn canonical_text_parses_back_to_the_same_schema() {
    let schema = idlgen::ir::Schema {
        program_name: String::from("pool_prog"),
        accounts: vec![idlgen::ir::EntityDecl {
            name: String::from("PoolState"),
            discriminator: vec![1, 2, 3],
            generics: Vec::new(),
            fields: vec![idlgen::ir::FieldDecl {
                name: String::from("liquidity"),
                ty: TypeNode::Primitive(idlgen::ir::PrimKind::U64),
            }],
        }],
        instructions: Vec::new(),
        types: Vec::new(),
        events: Vec::new(),
    };
    let text = idlgen::encode::render_current(&schema);
    let parsed = parse_current(&text).unwrap_or_else(|_| panic!("canonical text rejected"));
    assert_eq!(parsed.program_name, "pool_prog");
    assert_eq!(parsed.accounts.len(), 1);
    assert_eq!(parsed.accounts[0].name, "PoolState");
    assert_eq!(parsed.accounts[0].discriminator, vec![1u8, 2, 3]);
    assert_eq!(parsed.accounts[0].fields[0].name, "liquidity");
    assert!(matches!(
        parsed.accounts[0].fields[0].ty,
        TypeNode::Primitive(idlgen::ir::PrimKind::U64)
    ));
}

#[test]
fn entityless_schemas_are_always_accepted() {
    let current = "{\"metadata\":{\"name\":\"p\"},\"accounts\":[],\"instructions\":[],\"types\":[],\"events\":[]}";
    let legacy = "{\"name\":\"p\",\"accounts\":[],\"instructions\":[],\"types\":[],\"events\":[]}";
    assert!(parse_current(current).is_ok());
    assert!(idlgen::normalize::parse_legacy(legacy).is_ok());
    assert!(load_schema(current).is_ok());
    assert!(load_schema(legacy).is_ok());
    assert!(generate(current, "out", true).is_ok());
    assert!(generate(legacy, "out", false).is_ok());
}

#[test]
fn pretty_printed_current_schema_is_accepted() {
    let pretty = "{\n  \"metadata\": {\n    \"name\": \"my_program\"\n  },\n  \"accounts\": [\n    {\n      \"name\": \"PoolState\",\n      \"discriminator\": [1, 2, 3, 4, 5, 6, 7, 8],\n      \"generics\": [],\n      \"fields\": [\n        {\n          \"name\": \"liquidity\",\n          \"type\": \"u64\"\n        }\n      ]\n    },\n    {\n      \"name\": \"TickArray\",\n      \"discriminator\": [9, 9, 9, 9, 9, 9, 9, 9],\n      \"generics\": [],\n      \"fields\": [\n        {\n          \"name\": \"start\",\n          \"type\": \"i32\"\n        }\n      ]\n    }\n  ],\n  \"instructions\": [],\n  \"types\": [],\n  \"events\": []\n}\n";
    let g_pretty = generate(pretty, "out", false).unwrap_or_else(|_| panic!("pretty-printed schema rejected"));
    let g_compact = generate(CURRENT_POOL, "out", false).unwrap_or_else(|_| panic!("compact schema rejected"));
    let pretty_files: Vec<(&str, &str)> =
        g_pretty.plan.files.iter().map(|f| (f.path.as_str(), f.content.as_str())).collect();
    let compact_files: Vec<(&str, &str)> =
        g_compact.plan.files.iter().map(|f| (f.path.as_str(), f.content.as_str())).collect();
    assert_eq!(pretty_files, compact_files, "pretty-printed run must emit the same tree");
}

#[test]
fn pretty_printed_legacy_schema_is_accepted() {
    let pretty = "{\n  \"name\": \"my_program\",\n  \"accounts\": [\n    {\n      \"name\": \"PoolState\",\n      \"generics\": [],\n      \"fields\": [\n        { \"name\": \"liquidity\", \"type\": \"u64\" }\n      ]\n    },\n    {\n      \"name\": \"TickArray\",\n      \"generics\": [],\n      \"fields\": [\n        { \"name\": \"start\", \"type\": \"i32\" }\n      ]\n    }\n  ],\n  \"instructions\": [],\n  \"types\": [],\n  \"events\": []\n}\n";
    assert!(parse_current(pretty).is_err());
    let sch = load_schema(pretty).unwrap_or_else(|_| panic!("pretty-printed legacy schema rejected"));
    assert_eq!(sch.program_name, "my_program");
    let g = generate(pretty, "out", false).unwrap_or_else(|_| panic!("generate failed"));
    let g_compact = generate(LEGACY_POOL, "out", false).unwrap_or_else(|_| panic!("compact legacy rejected"));
    let paths: Vec<&str> = g.plan.files.iter().map(|f| f.path.as_str()).collect();
    let compact_paths: Vec<&str> = g_compact.plan.files.iter().map(|f| f.path.as_str()).collect();
    assert_eq!(paths, compact_paths);
}

#[test]
fn whitespace_inside_names_is_kept() {
    let spaced = idlgen::normalize::strip_whitespace("{\"name\":\"my program\"}");
    assert_eq!(spaced, "{\"name\":\"my program\"}");
    let mixed = idlgen::normalize::strip_whitespace(" { \"a\" :\t\"b c\" }\r\n");
    assert_eq!(mixed, "{\"a\":\"b c\"}");
}

#[test]
fn pretty_printed_garbage_still_fails_both_encodings() {
    let r = generate("{\n  \"meta\": 1\n}\n", "out", false);
    assert!(matches!(r, Err(GenError::SchemaParseError { .. })));
}

use sierra::defs::data::ModuleData;
use sierra::defs::group::DefsGroup;
use sierra::defs::db::{
    init_defs_group, DefsDatabase, ItemKind, ItemView, MacroPlugin, PluginDiagnostic,
    PluginResult, PluginResultView, SyntaxItem,
};
use sierra::defs::ids::{
    CrateId, Directory, FileId, FileIndex, ItemId, ModuleFileId, ModuleId, ModuleItemId,
    SubmoduleId, SyntaxStablePtrId, VirtualFile, VirtualSubmoduleId,
};
use sierra::defs::items::{
    module_file, module_files, module_item_by_name, module_items, module_submodules,
};
use sierra::defs::modules::{crate_modules, file_modules, priv_file_to_module_mapping};
use sierra::defs::queries::{module_data, module_dir, module_main_file};

/// A plugin that generates nothing.
struct NoPlugin;

impl MacroPlugin for NoPlugin {
    fn generated(&self, _item: ItemView) -> PluginResultView {
        unreachable!("a specification function is never run")
    }

    fn generate_code(&self, _item: &SyntaxItem) -> PluginResult {
        PluginResult { code: None, diagnostics: vec![] }
    }
}

/// A plugin that, for each struct, generates a file named after it and reports a
/// diagnostic on it.
struct StructPlugin;

impl MacroPlugin for StructPlugin {
    fn generated(&self, _item: ItemView) -> PluginResultView {
        unreachable!("a specification function is never run")
    }

    fn generate_code(&self, item: &SyntaxItem) -> PluginResult {
        if item.kind == ItemKind::Struct {
            PluginResult {
                code: Some((format!("{}_impl", item.name), format!("impl of {}", item.name))),
                diagnostics: vec![PluginDiagnostic {
                    stable_ptr: item.stable_ptr,
                    message: format!("generated for {}", item.name),
                }],
            }
        } else {
            PluginResult { code: None, diagnostics: vec![] }
        }
    }
}

fn item(kind: ItemKind, name: &str, ptr: u64) -> SyntaxItem {
    SyntaxItem { kind, name: name.to_string(), stable_ptr: SyntaxStablePtrId(ptr) }
}

fn on_disk(path: &[&str]) -> FileId {
    FileId::OnDisk(path.iter().map(|s| s.to_string()).collect())
}

fn root() -> ModuleId {
    ModuleId::CrateRoot(CrateId(0))
}

fn root_file(index: usize) -> ModuleFileId {
    ModuleFileId(root(), FileIndex(index))
}

fn submodule_a() -> SubmoduleId {
    SubmoduleId {
        parent: Box::new(root_file(0)),
        stable_ptr: SyntaxStablePtrId(1),
        name: "a".to_string(),
    }
}

fn item_id(ptr: u64) -> ItemId {
    ItemId { module_file: root_file(0), stable_ptr: SyntaxStablePtrId(ptr) }
}

/// A crate rooted at `src` whose `lib.cairo` declares a submodule `a`, a function `foo`, a
/// struct `S` and a `use` named `foo`, and whose `a.cairo` declares an enum `E`.
fn sample_db<P: MacroPlugin>() -> DefsDatabase<P> {
    let mut db = DefsDatabase::new();
    db.set_crate_root(CrateId(0), Directory(vec!["src".to_string()]));
    db.set_file_syntax(
        on_disk(&["src", "lib.cairo"]),
        vec![
            item(ItemKind::Module, "a", 1),
            item(ItemKind::FreeFunction, "foo", 2),
            item(ItemKind::Struct, "S", 3),
            item(ItemKind::Use, "foo", 4),
        ],
    );
    db.set_file_syntax(on_disk(&["src", "a.cairo"]), vec![item(ItemKind::Enum, "E", 5)]);
    db
}

#[test]
fn main_file_of_crate_root() {
    let db = sample_db::<NoPlugin>();
    assert_eq!(module_main_file(&db, &root()), Some(on_disk(&["src", "lib.cairo"])));
}

#[test]
fn main_file_of_submodule() {
    let db = sample_db::<NoPlugin>();
    let m = ModuleId::Submodule(submodule_a());
    assert_eq!(module_main_file(&db, &m), Some(on_disk(&["src", "a.cairo"])));
}

#[test]
fn main_file_of_unknown_crate() {
    let db = sample_db::<NoPlugin>();
    assert_eq!(module_main_file(&db, &ModuleId::CrateRoot(CrateId(7))), None);
}

#[test]
fn main_file_of_virtual_submodule() {
    let db = sample_db::<NoPlugin>();
    let file = || FileId::Virtual(VirtualFile {
        parent: None,
        name: "v".to_string(),
        content: "c".to_string(),
    });
    let id = || VirtualSubmoduleId { parent: Box::new(root()), file: file() };
    assert_eq!(module_main_file(&db, &ModuleId::VirtualSubmodule(id())), Some(file()));
    assert_eq!(module_dir(&db, &ModuleId::VirtualSubmodule(id())), None);
}

#[test]
fn dir_of_modules() {
    let db = sample_db::<NoPlugin>();
    assert_eq!(module_dir(&db, &root()), Some(Directory(vec!["src".to_string()])));
    assert_eq!(
        module_dir(&db, &ModuleId::Submodule(submodule_a())),
        Some(Directory(vec!["src".to_string(), "a".to_string()]))
    );
    assert_eq!(module_dir(&db, &ModuleId::CrateRoot(CrateId(3))), None);
}

#[test]
fn data_of_crate_root() {
    let db = sample_db::<NoPlugin>();
    let data: ModuleData = module_data(&db, &root()).unwrap();
    assert_eq!(data.files, vec![on_disk(&["src", "lib.cairo"])]);
    assert_eq!(data.submodules, vec![(item_id(1), item(ItemKind::Module, "a", 1))]);
    assert_eq!(data.free_functions, vec![(item_id(2), item(ItemKind::FreeFunction, "foo", 2))]);
    assert_eq!(data.structs, vec![(item_id(3), item(ItemKind::Struct, "S", 3))]);
    assert_eq!(data.uses, vec![(item_id(4), item(ItemKind::Use, "foo", 4))]);
    assert!(data.enums.is_empty());
    assert!(data.traits.is_empty());
    assert!(data.impls.is_empty());
    assert!(data.extern_types.is_empty());
    assert!(data.extern_functions.is_empty());
    assert!(data.plugin_diagnostics.is_empty());
}

#[test]
fn data_of_unparsed_module() {
    let mut db = DefsDatabase::<NoPlugin>::new();
    db.set_crate_root(CrateId(0), Directory(vec!["src".to_string()]));
    assert_eq!(module_data(&db, &root()), None);
    assert_eq!(module_files(&db, &root()), None);
    assert_eq!(module_items(&db, &root()), None);
    assert_eq!(module_submodules(&db, &root()), None);
    assert_eq!(module_item_by_name(&db, &root(), "foo".to_string()), None);
}

#[test]
fn every_item_lands_in_its_map() {
    let mut db = DefsDatabase::<NoPlugin>::new();
    db.set_crate_root(CrateId(0), Directory(vec!["src".to_string()]));
    db.set_file_syntax(
        on_disk(&["src", "lib.cairo"]),
        vec![item(ItemKind::Trait, "T", 9), item(ItemKind::Trait, "T", 10)],
    );
    let data = module_data(&db, &root()).unwrap();
    assert_eq!(
        data.traits,
        vec![(item_id(9), item(ItemKind::Trait, "T", 9)), (item_id(10), item(ItemKind::Trait, "T", 10))]
    );
}

#[test]
fn submodules_of_crate_root() {
    let db = sample_db::<NoPlugin>();
    assert_eq!(module_submodules(&db, &root()), Some(vec![ModuleId::Submodule(submodule_a())]));
    assert_eq!(module_submodules(&db, &ModuleId::Submodule(submodule_a())), Some(vec![]));
}

#[test]
fn items_by_name_later_kind_wins() {
    let db = sample_db::<NoPlugin>();
    let items = module_items(&db, &root()).unwrap();
    assert_eq!(
        items.items,
        vec![
            ("a".to_string(), ModuleItemId::Submodule(submodule_a())),
            ("foo".to_string(), ModuleItemId::FreeFunction(item_id(2))),
            ("S".to_string(), ModuleItemId::Struct(item_id(3))),
        ]
    );
}

#[test]
fn item_by_name() {
    let db = sample_db::<NoPlugin>();
    assert_eq!(
        module_item_by_name(&db, &root(), "foo".to_string()),
        Some(ModuleItemId::FreeFunction(item_id(2)))
    );
    assert_eq!(
        module_item_by_name(&db, &root(), "S".to_string()),
        Some(ModuleItemId::Struct(item_id(3)))
    );
    assert_eq!(module_item_by_name(&db, &root(), "missing".to_string()), None);
    let sub = ModuleId::Submodule(submodule_a());
    let e = module_item_by_name(&db, &sub, "E".to_string());
    assert_eq!(
        e,
        Some(ModuleItemId::Enum(ItemId {
            module_file: ModuleFileId(ModuleId::Submodule(submodule_a()), FileIndex(0)),
            stable_ptr: SyntaxStablePtrId(5),
        }))
    );
}

#[test]
fn modules_of_crate() {
    let db = sample_db::<NoPlugin>();
    assert_eq!(crate_modules(&db, CrateId(0)), vec![root(), ModuleId::Submodule(submodule_a())]);
}

#[test]
fn modules_of_unknown_crate() {
    let db = sample_db::<NoPlugin>();
    assert_eq!(crate_modules(&db, CrateId(5)), vec![ModuleId::CrateRoot(CrateId(5))]);
}

#[test]
fn modules_of_files() {
    let db = sample_db::<NoPlugin>();
    assert_eq!(file_modules(&db, &on_disk(&["src", "lib.cairo"])), Some(vec![root()]));
    assert_eq!(
        file_modules(&db, &on_disk(&["src", "a.cairo"])),
        Some(vec![ModuleId::Submodule(submodule_a())])
    );
    assert_eq!(file_modules(&db, &on_disk(&["src", "b.cairo"])), None);
    let mapping = priv_file_to_module_mapping(&db);
    assert_eq!(
        mapping,
        vec![
            (on_disk(&["src", "lib.cairo"]), vec![root()]),
            (on_disk(&["src", "a.cairo"]), vec![ModuleId::Submodule(submodule_a())]),
        ]
    );
}

#[test]
fn file_shared_by_two_crates() {
    let mut db = DefsDatabase::<NoPlugin>::new();
    db.set_crate_root(CrateId(0), Directory(vec!["src".to_string()]));
    db.set_crate_root(CrateId(1), Directory(vec!["src".to_string()]));
    db.set_file_syntax(on_disk(&["src", "lib.cairo"]), vec![]);
    assert_eq!(
        file_modules(&db, &on_disk(&["src", "lib.cairo"])),
        Some(vec![ModuleId::CrateRoot(CrateId(0)), ModuleId::CrateRoot(CrateId(1))])
    );
}

fn generated_file() -> FileId {
    FileId::Virtual(VirtualFile {
        parent: Some(Box::new(on_disk(&["src", "lib.cairo"]))),
        name: "S_impl".to_string(),
        content: "impl of S".to_string(),
    })
}

#[test]
fn plugin_file_not_parsed() {
    let mut db = sample_db::<StructPlugin>();
    db.set_macro_plugins(vec![StructPlugin]);
    assert_eq!(module_data(&db, &root()), None);
}

#[test]
fn plugin_file_and_diagnostic() {
    let mut db = sample_db::<StructPlugin>();
    db.set_macro_plugins(vec![StructPlugin]);
    db.set_file_syntax(generated_file(), vec![item(ItemKind::Impl, "I", 10)]);
    let data = module_data(&db, &root()).unwrap();
    assert_eq!(data.files, vec![on_disk(&["src", "lib.cairo"]), generated_file()]);
    assert_eq!(
        data.impls,
        vec![(
            ItemId { module_file: root_file(1), stable_ptr: SyntaxStablePtrId(10) },
            item(ItemKind::Impl, "I", 10)
        )]
    );
    assert_eq!(
        data.plugin_diagnostics,
        vec![(
            root_file(0),
            PluginDiagnostic {
                stable_ptr: SyntaxStablePtrId(3),
                message: "generated for S".to_string()
            }
        )]
    );
    assert_eq!(module_files(&db, &root()), Some(vec![on_disk(&["src", "lib.cairo"]), generated_file()]));
    assert_eq!(module_file(&db, &root_file(1)), Some(generated_file()));
    assert_eq!(module_file(&db, &root_file(0)), Some(on_disk(&["src", "lib.cairo"])));
    assert_eq!(
        file_modules(&db, &generated_file()),
        Some(vec![
            root(),
            ModuleId::VirtualSubmodule(VirtualSubmoduleId { parent: Box::new(root()), file: generated_file() })
        ])
    );
}

#[test]
fn two_plugins_generate_in_plugin_order() {
    let mut db = sample_db::<StructPlugin>();
    db.set_macro_plugins(vec![StructPlugin, StructPlugin]);
    db.set_file_syntax(generated_file(), vec![]);
    let data = module_data(&db, &root()).unwrap();
    assert_eq!(
        data.files,
        vec![on_disk(&["src", "lib.cairo"]), generated_file(), generated_file()]
    );
    assert_eq!(data.plugin_diagnostics.len(), 2);
}

#[test]
fn init_clears_plugins() {
    let mut db = sample_db::<StructPlugin>();
    db.set_macro_plugins(vec![StructPlugin]);
    assert_eq!(db.num_plugins(), 1);
    init_defs_group(&mut db);
    assert_eq!(db.num_plugins(), 0);
    assert_eq!(module_data(&db, &root()).unwrap().files.len(), 1);
}

#[test]
fn setting_again_replaces() {
    let mut db = sample_db::<NoPlugin>();
    db.set_crate_root(CrateId(0), Directory(vec!["lib".to_string()]));
    assert_eq!(db.crates(), vec![CrateId(0)]);
    assert_eq!(db.crate_root_dir(CrateId(0)), Some(Directory(vec!["lib".to_string()])));
    db.set_file_syntax(on_disk(&["src", "a.cairo"]), vec![]);
    assert_eq!(db.file_syntax(&on_disk(&["src", "a.cairo"])), Some(&vec![]));
    assert_eq!(db.file_syntax(&on_disk(&["src", "x.cairo"])), None);
}

#[test]
fn nested_submodules_are_modules_of_the_crate() {
    let mut db = sample_db::<NoPlugin>();
    db.set_file_syntax(
        on_disk(&["src", "a.cairo"]),
        vec![item(ItemKind::Enum, "E", 5), item(ItemKind::Module, "b", 6)],
    );
    db.set_file_syntax(on_disk(&["src", "a", "b.cairo"]), vec![]);
    let a = ModuleId::Submodule(submodule_a());
    let b = ModuleId::Submodule(SubmoduleId {
        parent: Box::new(ModuleFileId(ModuleId::Submodule(submodule_a()), FileIndex(0))),
        stable_ptr: SyntaxStablePtrId(6),
        name: "b".to_string(),
    });
    assert_eq!(module_main_file(&db, &b), Some(on_disk(&["src", "a", "b.cairo"])));
    assert_eq!(crate_modules(&db, CrateId(0)), vec![root(), a, b]);
}

/// A plugin that, for each struct, generates a file that declares the struct `Inner`.
struct NestingPlugin;

impl MacroPlugin for NestingPlugin {
    fn generated(&self, _item: ItemView) -> PluginResultView {
        unreachable!("a specification function is never run")
    }

    fn generate_code(&self, item: &SyntaxItem) -> PluginResult {
        if item.kind == ItemKind::Struct && item.name == "S" {
            PluginResult { code: Some(("gen".to_string(), "struct Inner".to_string())), diagnostics: vec![] }
        } else if item.kind == ItemKind::Struct && item.name == "Inner" {
            PluginResult { code: Some(("gen2".to_string(), "".to_string())), diagnostics: vec![] }
        } else {
            PluginResult { code: None, diagnostics: vec![] }
        }
    }
}

#[test]
fn generated_files_follow_their_parents() {
    let mut db = sample_db::<NestingPlugin>();
    db.set_macro_plugins(vec![NestingPlugin]);
    let first = FileId::Virtual(VirtualFile {
        parent: Some(Box::new(on_disk(&["src", "lib.cairo"]))),
        name: "gen".to_string(),
        content: "struct Inner".to_string(),
    });
    let second = FileId::Virtual(VirtualFile {
        parent: Some(Box::new(FileId::Virtual(VirtualFile {
            parent: Some(Box::new(on_disk(&["src", "lib.cairo"]))),
            name: "gen".to_string(),
            content: "struct Inner".to_string(),
        }))),
        name: "gen2".to_string(),
        content: "".to_string(),
    });
    db.set_file_syntax(
        FileId::Virtual(VirtualFile {
            parent: Some(Box::new(on_disk(&["src", "lib.cairo"]))),
            name: "gen".to_string(),
            content: "struct Inner".to_string(),
        }),
        vec![item(ItemKind::Struct, "Inner", 11)],
    );
    assert_eq!(module_data(&db, &root()), None);
    db.set_file_syntax(
        FileId::Virtual(VirtualFile {
            parent: Some(Box::new(FileId::Virtual(VirtualFile {
                parent: Some(Box::new(on_disk(&["src", "lib.cairo"]))),
                name: "gen".to_string(),
                content: "struct Inner".to_string(),
            }))),
            name: "gen2".to_string(),
            content: "".to_string(),
        }),
        vec![],
    );
    let data = module_data(&db, &root()).unwrap();
    assert_eq!(data.files, vec![on_disk(&["src", "lib.cairo"]), first, second]);
    assert_eq!(
        data.structs,
        vec![
            (item_id(3), item(ItemKind::Struct, "S", 3)),
            (
                ItemId { module_file: root_file(1), stable_ptr: SyntaxStablePtrId(11) },
                item(ItemKind::Struct, "Inner", 11)
            ),
        ]
    );
}

#[test]
fn setting_one_crate_keeps_the_others() {
    let mut db = sample_db::<NoPlugin>();
    db.set_crate_root(CrateId(1), Directory(vec!["other".to_string()]));
    db.set_crate_root(CrateId(1), Directory(vec!["third".to_string()]));
    assert_eq!(db.crates(), vec![CrateId(0), CrateId(1)]);
    assert_eq!(db.crate_root_dir(CrateId(0)), Some(Directory(vec!["src".to_string()])));
    assert_eq!(db.crate_root_dir(CrateId(1)), Some(Directory(vec!["third".to_string()])));
    assert_eq!(db.crate_root_dir(CrateId(2)), None);
}

#[test]
fn queries_through_the_group() {
    let db = sample_db::<NoPlugin>();
    let a = ModuleId::Submodule(submodule_a());
    assert_eq!(db.module_main_file(root()), Some(on_disk(&["src", "lib.cairo"])));
    assert_eq!(db.module_files(root()), Some(vec![on_disk(&["src", "lib.cairo"])]));
    assert_eq!(db.module_file(root_file(0)), Some(on_disk(&["src", "lib.cairo"])));
    assert_eq!(db.module_dir(ModuleId::Submodule(submodule_a())), Some(Directory(vec!["src".to_string(), "a".to_string()])));
    assert_eq!(db.crate_modules(CrateId(0)), vec![root(), ModuleId::Submodule(submodule_a())]);
    assert_eq!(db.file_modules(on_disk(&["src", "a.cairo"])), Some(vec![ModuleId::Submodule(submodule_a())]));
    assert_eq!(db.priv_file_to_module_mapping().len(), 2);
    assert_eq!(db.module_submodules(root()), Some(vec![ModuleId::Submodule(submodule_a())]));
    assert_eq!(db.module_items(root()).unwrap().items.len(), 3);
    assert_eq!(db.module_item_by_name(root(), "S".to_string()), Some(ModuleItemId::Struct(item_id(3))));
    assert_eq!(db.module_data(a).unwrap().enums.len(), 1);
}

#[test]
fn plugin_output_makes_virtual_submodules() {
    let mut db = sample_db::<StructPlugin>();
    db.set_macro_plugins(vec![StructPlugin]);
    db.set_file_syntax(generated_file(), vec![item(ItemKind::Impl, "I", 10)]);
    let virtual_module =
        || ModuleId::VirtualSubmodule(VirtualSubmoduleId { parent: Box::new(root()), file: generated_file() });
    assert_eq!(
        module_submodules(&db, &root()),
        Some(vec![ModuleId::Submodule(submodule_a()), virtual_module()])
    );
    assert_eq!(module_main_file(&db, &virtual_module()), Some(generated_file()));
    let data = module_data(&db, &virtual_module()).unwrap();
    assert_eq!(data.files, vec![generated_file()]);
    assert_eq!(
        data.impls,
        vec![(
            ItemId {
                module_file: ModuleFileId(virtual_module(), FileIndex(0)),
                stable_ptr: SyntaxStablePtrId(10)
            },
            item(ItemKind::Impl, "I", 10)
        )]
    );
    assert_eq!(
        crate_modules(&db, CrateId(0)),
        vec![root(), ModuleId::Submodule(submodule_a()), virtual_module()]
    );
    assert_eq!(file_modules(&db, &generated_file()), Some(vec![root(), virtual_module()]));
}

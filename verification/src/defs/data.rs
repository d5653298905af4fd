use vstd::prelude::*;

use crate::defs::db::{
    items_view, DefsDatabase, DiagnosticView, ItemKind, ItemView, MacroPlugin, PluginDiagnostic,
    SyntaxItem,
};
use crate::defs::ids::{
    Directory, FileId, FileIndex, FileView, ItemId, ItemIdView, ModuleFileId, ModuleFileView,
    ModuleId, ModuleView, VirtualFile,
};
use crate::defs::spec::{
    entries_of_kind, file_children, file_diagnostics, item_diagnostics, item_files,
    items_of_kind, map_insert, module_dir_spec, module_main_file_spec,
    ModuleDataView,
};

verus! {

/// The items of a module by kind, each an ordered map from identifier to item, the
/// files of the module, and the diagnostics of its plugins.
#[derive(Debug, PartialEq, Eq)]
pub struct ModuleData {
    pub submodules: Vec<(ItemId, SyntaxItem)>,
    pub uses: Vec<(ItemId, SyntaxItem)>,
    pub free_functions: Vec<(ItemId, SyntaxItem)>,
    pub extern_functions: Vec<(ItemId, SyntaxItem)>,
    pub extern_types: Vec<(ItemId, SyntaxItem)>,
    pub structs: Vec<(ItemId, SyntaxItem)>,
    pub enums: Vec<(ItemId, SyntaxItem)>,
    pub traits: Vec<(ItemId, SyntaxItem)>,
    pub impls: Vec<(ItemId, SyntaxItem)>,
    pub files: Vec<FileId>,
    pub plugin_diagnostics: Vec<(ModuleFileId, PluginDiagnostic)>,
}

/// The views of the entries of an ordered map from item identifier to item.
pub open spec fn entries_view(s: Seq<(ItemId, SyntaxItem)>) -> Seq<(ItemIdView, ItemView)> {
    s.map_values(|e: (ItemId, SyntaxItem)| (e.0@, e.1@))
}

/// The views of a sequence of files.
pub open spec fn files_view(s: Seq<FileId>) -> Seq<FileView> {
    s.map_values(|f: FileId| f@)
}

/// The views of a sequence of diagnostics.
pub open spec fn diagnostics_view(s: Seq<(ModuleFileId, PluginDiagnostic)>) -> Seq<
    (ModuleFileView, DiagnosticView),
> {
    s.map_values(|e: (ModuleFileId, PluginDiagnostic)| (e.0@, e.1@))
}

impl View for ModuleData {
    type V = ModuleDataView;

    open spec fn view(&self) -> ModuleDataView {
        ModuleDataView {
            submodules: entries_view(self.submodules@),
            uses: entries_view(self.uses@),
            free_functions: entries_view(self.free_functions@),
            extern_functions: entries_view(self.extern_functions@),
            extern_types: entries_view(self.extern_types@),
            structs: entries_view(self.structs@),
            enums: entries_view(self.enums@),
            traits: entries_view(self.traits@),
            impls: entries_view(self.impls@),
            files: files_view(self.files@),
            plugin_diagnostics: diagnostics_view(self.plugin_diagnostics@),
        }
    }
}

/// No two entries of `s` have the same key.
pub open spec fn unique_keys<K, V>(s: Seq<(K, V)>) -> bool {
    forall|a: int, b: int|
        #![trigger s[a], s[b]]
        0 <= a < s.len() && 0 <= b < s.len() && s[a].0 == s[b].0 ==> a == b
}

/// Every key of `s` is an item of a file of module `m`.
pub open spec fn keys_in_module(s: Seq<(ItemIdView, ItemView)>, m: ModuleView) -> bool {
    forall|a: int| 0 <= a < s.len() ==> (#[trigger] s[a]).0.module_file.module == m
}

/// The ordered map of items is well formed for module `m`.
pub open spec fn item_map_wf(s: Seq<(ItemIdView, ItemView)>, m: ModuleView) -> bool {
    unique_keys(s) && keys_in_module(s, m)
}

/// Where the keys of `s` are unique, inserting keeps them so and keeps them in module `m`
/// when `k` is in it.
pub proof fn lemma_map_insert_wf(s: Seq<(ItemIdView, ItemView)>, k: ItemIdView, v: ItemView, m: ModuleView)
    requires
        item_map_wf(s, m),
        k.module_file.module == m,
    ensures
        item_map_wf(map_insert(s, k, v), m),
{
    let r = map_insert(s, k, v);
    if exists|j: int| 0 <= j < s.len() && (#[trigger] s[j]).0 == k {
        let j = choose|j: int| 0 <= j < s.len() && (#[trigger] s[j]).0 == k;
        assert forall|a: int, b: int|
            #![trigger r[a], r[b]]
            0 <= a < r.len() && 0 <= b < r.len() && r[a].0 == r[b].0 implies a == b by {
            assert(r[a].0 == s[a].0);
            assert(r[b].0 == s[b].0);
        }
        assert forall|a: int| 0 <= a < r.len() implies (#[trigger] r[a]).0.module_file.module == m by {
            assert(r[a].0 == s[a].0);
        }
    } else {
        assert forall|a: int, b: int|
            #![trigger r[a], r[b]]
            0 <= a < r.len() && 0 <= b < r.len() && r[a].0 == r[b].0 implies a == b by {
            if a < s.len() && b < s.len() {
                assert(r[a] == s[a]);
                assert(r[b] == s[b]);
            } else if a < s.len() {
                assert(r[a] == s[a]);
            } else if b < s.len() {
                assert(r[b] == s[b]);
            }
        }
    }
}

/// Puts `item` at `id` in the ordered map `map`, whose keys are items of the module of
/// `id`.
fn map_insert_item(map: &mut Vec<(ItemId, SyntaxItem)>, id: ItemId, item: SyntaxItem)
    requires
        item_map_wf(entries_view(old(map)@), id@.module_file.module),
    ensures
        entries_view(final(map)@) == map_insert(entries_view(old(map)@), id@, item@),
        item_map_wf(entries_view(final(map)@), id@.module_file.module),
{
    let ghost s = entries_view(map@);
    let ghost k = id@;
    let ghost v = item@;
    proof {
        lemma_map_insert_wf(s, k, v, k.module_file.module);
    }
    let mut j: usize = 0;
    while j < map.len()
        invariant
            j <= map@.len(),
            s == entries_view(map@),
            s == entries_view(old(map)@),
            item_map_wf(s, k.module_file.module),
            k == id@,
            v == item@,
            forall|a: int| 0 <= a < j ==> (#[trigger] s[a]).0 != k,
        decreases map@.len() - j,
    {
        if map[j].0.module_file.1.0 == id.module_file.1.0 && map[j].0.stable_ptr.0 == id.stable_ptr.0 {
            assert(s[j as int].0 == k);
            assert(map_insert(s, k, v) == s.update(j as int, (s[j as int].0, v))) by {
                let c = choose|c: int| 0 <= c < s.len() && (#[trigger] s[c]).0 == k;
                assert(s[c].0 == s[j as int].0);
            }
            let key = map[j].0.duplicate();
            let ghost key_v = key@;
            let ghost old_map = map@;
            assert(key_v == s[j as int].0);
            map.set(j, (key, item));
            assert(map@ == old_map.update(j as int, map@[j as int]));
            assert(map@[j as int].0@ == key_v && map@[j as int].1@ == v);
            assert(entries_view(map@) =~= s.update(j as int, (s[j as int].0, v)));
            return;
        }
        assert(s[j as int].0 != k);
        j = j + 1;
    }
    map.push((id, item));
    assert(entries_view(map@) =~= s.push((k, v)));
}

/// `d` with the items of kind `kind` replaced by `s`.
pub open spec fn with_entries(d: ModuleDataView, kind: ItemKind, s: Seq<(ItemIdView, ItemView)>) -> ModuleDataView {
    match kind {
        ItemKind::Module => ModuleDataView { submodules: s, ..d },
        ItemKind::Use => ModuleDataView { uses: s, ..d },
        ItemKind::FreeFunction => ModuleDataView { free_functions: s, ..d },
        ItemKind::ExternFunction => ModuleDataView { extern_functions: s, ..d },
        ItemKind::ExternType => ModuleDataView { extern_types: s, ..d },
        ItemKind::Struct => ModuleDataView { structs: s, ..d },
        ItemKind::Enum => ModuleDataView { enums: s, ..d },
        ItemKind::Trait => ModuleDataView { traits: s, ..d },
        ItemKind::Impl => ModuleDataView { impls: s, ..d },
    }
}

/// Every ordered map of items of `d` is well formed for module `m`.
pub open spec fn data_wf(d: ModuleDataView, m: ModuleView) -> bool {
    forall|kind: ItemKind| item_map_wf(#[trigger] entries_of_kind(d, kind), m)
}

impl ModuleData {
    /// Data with no item, no file and no diagnostic.
    pub fn empty() -> (r: ModuleData)
        ensures
            forall|kind: ItemKind| (#[trigger] entries_of_kind(r@, kind)).len() == 0,
            r@.files.len() == 0,
            r@.plugin_diagnostics.len() == 0,
    {
        ModuleData {
            submodules: Vec::new(),
            uses: Vec::new(),
            free_functions: Vec::new(),
            extern_functions: Vec::new(),
            extern_types: Vec::new(),
            structs: Vec::new(),
            enums: Vec::new(),
            traits: Vec::new(),
            impls: Vec::new(),
            files: Vec::new(),
            plugin_diagnostics: Vec::new(),
        }
    }

    /// Puts `item` at `id` in the ordered map of the items of its kind.
    pub fn insert_item(&mut self, id: ItemId, item: SyntaxItem)
        requires
            data_wf(old(self)@, id@.module_file.module),
        ensures
            final(self)@ == with_entries(
                old(self)@,
                item@.kind,
                map_insert(entries_of_kind(old(self)@, item@.kind), id@, item@),
            ),
            data_wf(final(self)@, id@.module_file.module),
    {
        let ghost m = id@.module_file.module;
        let ghost old_view = self@;
        proof {
            assert(item_map_wf(entries_of_kind(old_view, item.kind), m));
        }
        match item.kind {
            ItemKind::Module => map_insert_item(&mut self.submodules, id, item),
            ItemKind::Use => map_insert_item(&mut self.uses, id, item),
            ItemKind::FreeFunction => map_insert_item(&mut self.free_functions, id, item),
            ItemKind::ExternFunction => map_insert_item(&mut self.extern_functions, id, item),
            ItemKind::ExternType => map_insert_item(&mut self.extern_types, id, item),
            ItemKind::Struct => map_insert_item(&mut self.structs, id, item),
            ItemKind::Enum => map_insert_item(&mut self.enums, id, item),
            ItemKind::Trait => map_insert_item(&mut self.traits, id, item),
            ItemKind::Impl => map_insert_item(&mut self.impls, id, item),
        }
        assert forall|kind: ItemKind| item_map_wf(#[trigger] entries_of_kind(self@, kind), m) by {
            assert(item_map_wf(entries_of_kind(old_view, kind), m));
        }
    }
}

} // verus!

use vstd::prelude::*;

use crate::defs::data::{entries_view, files_view, unique_keys, ModuleData};
use crate::defs::db::{DefsDatabase, ItemKind, ItemView, MacroPlugin, SyntaxItem};
use crate::defs::ids::{
    FileId, FileView, ItemId, ItemIdView, ModuleFileId, ModuleId, ModuleItemId, ModuleItemView,
    ModuleView, SubmoduleId, SubmoduleView, VirtualSubmoduleId, VirtualSubmoduleView,
};
use crate::defs::queries::module_data;
use crate::defs::spec::{map_insert, module_data_spec, ModuleDataView};

verus! {

/// The submodule that the entry `e` of the submodules of a module declares.
pub open spec fn submodule_of(e: (ItemIdView, ItemView)) -> SubmoduleView {
    SubmoduleView {
        parent: Box::new(e.0.module_file.module),
        index: e.0.module_file.index,
        ptr: e.0.ptr,
        name: e.1.name,
    }
}

/// The module item that the entry `e` of the items of kind `kind` of a module is.
pub open spec fn module_item_of(kind: ItemKind, e: (ItemIdView, ItemView)) -> ModuleItemView {
    match kind {
        ItemKind::Module => ModuleItemView::Submodule(submodule_of(e)),
        ItemKind::Use => ModuleItemView::Use(e.0),
        ItemKind::FreeFunction => ModuleItemView::FreeFunction(e.0),
        ItemKind::ExternFunction => ModuleItemView::ExternFunction(e.0),
        ItemKind::ExternType => ModuleItemView::ExternType(e.0),
        ItemKind::Struct => ModuleItemView::Struct(e.0),
        ItemKind::Enum => ModuleItemView::Enum(e.0),
        ItemKind::Trait => ModuleItemView::Trait(e.0),
        ItemKind::Impl => ModuleItemView::Impl(e.0),
    }
}

/// Each entry of the items of kind `kind`, as its name and module item.
pub open spec fn named_entries(kind: ItemKind, entries: Seq<(ItemIdView, ItemView)>) -> Seq<
    (Seq<char>, ModuleItemView),
> {
    entries.map_values(|e: (ItemIdView, ItemView)| (e.1.name, module_item_of(kind, e)))
}

/// The items of the data `d` as names and module items: its submodules, uses, free
/// functions, extern functions, extern types, structs, enums, traits and impls, in this
/// order.
pub open spec fn all_named(d: ModuleDataView) -> Seq<(Seq<char>, ModuleItemView)> {
    named_entries(ItemKind::Module, d.submodules) + named_entries(ItemKind::Use, d.uses)
        + named_entries(ItemKind::FreeFunction, d.free_functions) + named_entries(
        ItemKind::ExternFunction,
        d.extern_functions,
    ) + named_entries(ItemKind::ExternType, d.extern_types) + named_entries(
        ItemKind::Struct,
        d.structs,
    ) + named_entries(ItemKind::Enum, d.enums) + named_entries(ItemKind::Trait, d.traits)
        + named_entries(ItemKind::Impl, d.impls)
}

/// The ordered map `acc` with each pair of `s` inserted in turn.
pub open spec fn insert_all<K, V>(acc: Seq<(K, V)>, s: Seq<(K, V)>) -> Seq<(K, V)>
    decreases s.len(),
{
    if s.len() == 0 {
        acc
    } else {
        map_insert(insert_all(acc, s.drop_last()), s.last().0, s.last().1)
    }
}

/// Inserting the pairs of `a + b` inserts those of `a`, then those of `b`.
pub proof fn lemma_insert_all_concat<K, V>(acc: Seq<(K, V)>, a: Seq<(K, V)>, b: Seq<(K, V)>)
    ensures
        insert_all(acc, a + b) == insert_all(insert_all(acc, a), b),
    decreases b.len(),
{
    if b.len() == 0 {
        assert(a + b =~= a);
    } else {
        lemma_insert_all_concat(acc, a, b.drop_last());
        assert((a + b).drop_last() =~= a + b.drop_last());
        assert((a + b).last() == b.last());
    }
}

/// Inserting keeps the keys unique.
pub proof fn lemma_map_insert_unique<K, V>(s: Seq<(K, V)>, k: K, v: V)
    requires
        unique_keys(s),
    ensures
        unique_keys(map_insert(s, k, v)),
{
    let r = map_insert(s, k, v);
    if exists|j: int| 0 <= j < s.len() && (#[trigger] s[j]).0 == k {
        assert forall|a: int, b: int|
            #![trigger r[a], r[b]]
            0 <= a < r.len() && 0 <= b < r.len() && r[a].0 == r[b].0 implies a == b by {
            assert(r[a].0 == s[a].0);
            assert(r[b].0 == s[b].0);
        }
    } else {
        assert forall|a: int, b: int|
            #![trigger r[a], r[b]]
            0 <= a < r.len() && 0 <= b < r.len() && r[a].0 == r[b].0 implies a == b by {
            if a < s.len() {
                assert(r[a] == s[a]);
            }
            if b < s.len() {
                assert(r[b] == s[b]);
            }
        }
    }
}

/// The value of key `k` in the ordered map `s`, if `k` is a key.
pub open spec fn map_get<K, V>(s: Seq<(K, V)>, k: K) -> Option<V> {
    if exists|j: int| 0 <= j < s.len() && (#[trigger] s[j]).0 == k {
        Some(s[choose|j: int| 0 <= j < s.len() && (#[trigger] s[j]).0 == k].1)
    } else {
        None
    }
}

/// The items of a module by name, as an ordered map.
#[derive(Debug, PartialEq, Eq)]
pub struct ModuleItems {
    pub items: Vec<(String, ModuleItemId)>,
}

/// The views of the entries of an ordered map from name to module item.
pub open spec fn named_view(s: Seq<(String, ModuleItemId)>) -> Seq<(Seq<char>, ModuleItemView)> {
    s.map_values(|e: (String, ModuleItemId)| (e.0@, e.1@))
}

impl View for ModuleItems {
    type V = Seq<(Seq<char>, ModuleItemView)>;

    open spec fn view(&self) -> Seq<(Seq<char>, ModuleItemView)> {
        named_view(self.items@)
    }
}

/// The files of module `m`, if it has data.
pub open spec fn module_files_of<P: MacroPlugin>(db: &DefsDatabase<P>, m: ModuleView) -> Option<
    Seq<crate::defs::ids::FileView>,
> {
    match module_data_spec(db, m) {
        Some(d) => Some(d.files),
        None => None,
    }
}

/// The virtual submodules that the plugins of module `m`, whose files are `files`,
/// generated: one for each file after the main one, in order, holding that file.
pub open spec fn virtual_submodules_of(m: ModuleView, files: Seq<FileView>) -> Seq<ModuleView> {
    if files.len() == 0 {
        seq![]
    } else {
        files.skip(1).map_values(
            |f: FileView| ModuleView::VirtualSubmodule(VirtualSubmoduleView { parent: Box::new(m), file: f }),
        )
    }
}

/// The submodules of module `m`, if it has data: one for each of its `mod` items, then
/// the virtual submodules that its plugins generated.
pub open spec fn module_submodules_spec<P: MacroPlugin>(db: &DefsDatabase<P>, m: ModuleView) -> Option<
    Seq<ModuleView>,
> {
    match module_data_spec(db, m) {
        Some(d) => Some(
            d.submodules.map_values(
                |e: (ItemIdView, ItemView)| ModuleView::Submodule(submodule_of(e)),
            ) + virtual_submodules_of(m, d.files),
        ),
        None => None,
    }
}

/// The items of module `m` by name, if it has data: the items of all kinds inserted in
/// turn, a later item of a name taking the place of an earlier one.
pub open spec fn module_items_spec<P: MacroPlugin>(db: &DefsDatabase<P>, m: ModuleView) -> Option<
    Seq<(Seq<char>, ModuleItemView)>,
> {
    match module_data_spec(db, m) {
        Some(d) => Some(insert_all(Seq::empty(), all_named(d))),
        None => None,
    }
}

/// All the files of module `module_id`: its main file and those generated by plugins.
pub fn module_files<P: MacroPlugin>(db: &DefsDatabase<P>, module_id: &ModuleId) -> (r: Option<Vec<FileId>>)
    requires
        db.wf(),
    ensures
        match r {
            Some(files) => module_files_of(db, module_id@) == Some(files_view(files@)),
            None => module_files_of(db, module_id@) is None,
        },
{
    match module_data(db, module_id) {
        Some(data) => Some(data.files),
        None => None,
    }
}

/// The file at position `module_file_id.1` among the files of module `module_file_id.0`.
pub fn module_file<P: MacroPlugin>(db: &DefsDatabase<P>, module_file_id: &ModuleFileId) -> (r: Option<FileId>)
    requires
        db.wf(),
        module_files_of(db, module_file_id.0@) matches Some(files) ==> module_file_id.1.0 < files.len(),
    ensures
        match r {
            Some(f) => module_files_of(db, module_file_id.0@) matches Some(files) && f@
                == files[module_file_id.1.0 as int],
            None => module_files_of(db, module_file_id.0@) is None,
        },
{
    match module_files(db, &module_file_id.0) {
        Some(files) => Some(files[module_file_id.1.0].duplicate()),
        None => None,
    }
}

/// The module item of kind `kind` that the entry `e` is.
fn module_item_id(kind: ItemKind, e: &(ItemId, SyntaxItem)) -> (r: ModuleItemId)
    ensures
        r@ == module_item_of(kind, (e.0@, e.1@)),
{
    let id = e.0.duplicate();
    match kind {
        ItemKind::Module => ModuleItemId::Submodule(
            SubmoduleId {
                parent: Box::new(id.module_file),
                stable_ptr: id.stable_ptr,
                name: e.1.name.clone(),
            },
        ),
        ItemKind::Use => ModuleItemId::Use(id),
        ItemKind::FreeFunction => ModuleItemId::FreeFunction(id),
        ItemKind::ExternFunction => ModuleItemId::ExternFunction(id),
        ItemKind::ExternType => ModuleItemId::ExternType(id),
        ItemKind::Struct => ModuleItemId::Struct(id),
        ItemKind::Enum => ModuleItemId::Enum(id),
        ItemKind::Trait => ModuleItemId::Trait(id),
        ItemKind::Impl => ModuleItemId::Impl(id),
    }
}

/// The submodules of module `module_id`: both explicit ones, one for each `mod` item of
/// its files, and virtual ones, one for each file that its plugins generated.
pub fn module_submodules<P: MacroPlugin>(db: &DefsDatabase<P>, module_id: &ModuleId) -> (r: Option<
    Vec<ModuleId>,
>)
    requires
        db.wf(),
    ensures
        match r {
            Some(s) => module_submodules_spec(db, module_id@) == Some(
                s@.map_values(|x: ModuleId| x@),
            ),
            None => module_submodules_spec(db, module_id@) is None,
        },
{
    let data = match module_data(db, module_id) {
        Some(data) => data,
        None => {
            return None;
        },
    };
    let ghost entries = entries_view(data.submodules@);
    let mut r: Vec<ModuleId> = Vec::new();
    let mut i: usize = 0;
    while i < data.submodules.len()
        invariant
            i <= data.submodules@.len(),
            entries == entries_view(data.submodules@),
            r@.len() == i,
            forall|j: int|
                0 <= j < i ==> (#[trigger] r@[j])@ == ModuleView::Submodule(submodule_of(entries[j])),
        decreases data.submodules@.len() - i,
    {
        let entry = &data.submodules[i];
        let m = ModuleId::Submodule(
            SubmoduleId {
                parent: Box::new(entry.0.module_file.duplicate()),
                stable_ptr: entry.0.stable_ptr,
                name: entry.1.name.clone(),
            },
        );
        r.push(m);
        i = i + 1;
    }
    let ghost explicit = entries.map_values(
        |e: (ItemIdView, ItemView)| ModuleView::Submodule(submodule_of(e)),
    );
    let ghost m = module_id@;
    let ghost fv = files_view(data.files@);
    let ghost virt = virtual_submodules_of(m, fv);
    assert(r@.map_values(|x: ModuleId| x@) =~= explicit);
    let mut j: usize = 1;
    while j < data.files.len()
        invariant
            1 <= j,
            j <= data.files@.len() || data.files@.len() == 0,
            fv == files_view(data.files@),
            m == module_id@,
            virt == virtual_submodules_of(m, fv),
            explicit.len() == entries.len(),
            r@.len() == explicit.len() + j - 1,
            forall|a: int| 0 <= a < explicit.len() ==> (#[trigger] r@[a])@ == explicit[a],
            forall|a: int| explicit.len() <= a < r@.len() ==> (#[trigger] r@[a])@ == virt[a - explicit.len()],
        decreases data.files@.len() - j,
    {
        let v = ModuleId::VirtualSubmodule(
            VirtualSubmoduleId { parent: Box::new(module_id.duplicate()), file: data.files[j].duplicate() },
        );
        assert(virt[j - 1] == ModuleView::VirtualSubmodule(
            VirtualSubmoduleView { parent: Box::new(m), file: fv[j as int] },
        ));
        r.push(v);
        j = j + 1;
    }
    assert(r@.map_values(|x: ModuleId| x@) =~= explicit + virt);
    Some(r)
}

/// Puts `id` at `name` in the ordered map `items`.
fn insert_named(items: &mut Vec<(String, ModuleItemId)>, name: String, id: ModuleItemId)
    requires
        unique_keys(named_view(old(items)@)),
    ensures
        named_view(final(items)@) == map_insert(named_view(old(items)@), name@, id@),
        unique_keys(named_view(final(items)@)),
{
    let ghost s = named_view(items@);
    let ghost k = name@;
    let ghost v = id@;
    proof {
        lemma_map_insert_unique(s, k, v);
    }
    let mut j: usize = 0;
    while j < items.len()
        invariant
            j <= items@.len(),
            s == named_view(items@),
            s == named_view(old(items)@),
            unique_keys(s),
            k == name@,
            v == id@,
            forall|a: int| 0 <= a < j ==> (#[trigger] s[a]).0 != k,
        decreases items@.len() - j,
    {
        if items[j].0 == name {
            assert(s[j as int].0 == k);
            assert(map_insert(s, k, v) == s.update(j as int, (s[j as int].0, v))) by {
                let c = choose|c: int| 0 <= c < s.len() && (#[trigger] s[c]).0 == k;
                assert(s[c].0 == s[j as int].0);
            }
            let ghost old_items = items@;
            items.set(j, (name, id));
            assert(items@ == old_items.update(j as int, items@[j as int]));
            assert(named_view(items@) =~= s.update(j as int, (s[j as int].0, v)));
            return;
        }
        j = j + 1;
    }
    items.push((name, id));
    assert(named_view(items@) =~= s.push((k, v)));
}

/// Puts each entry of `entries`, items of kind `kind`, at its name in `items`, in order.
fn insert_entries(items: &mut Vec<(String, ModuleItemId)>, kind: ItemKind, entries: &Vec<(ItemId, SyntaxItem)>)
    requires
        unique_keys(named_view(old(items)@)),
    ensures
        named_view(final(items)@) == insert_all(
            named_view(old(items)@),
            named_entries(kind, entries_view(entries@)),
        ),
        unique_keys(named_view(final(items)@)),
{
    let ghost s0 = named_view(items@);
    let ghost ne = named_entries(kind, entries_view(entries@));
    let mut i: usize = 0;
    while i < entries.len()
        invariant
            i <= entries@.len(),
            ne == named_entries(kind, entries_view(entries@)),
            named_view(items@) == insert_all(s0, ne.take(i as int)),
            unique_keys(named_view(items@)),
        decreases entries@.len() - i,
    {
        let id = module_item_id(kind, &entries[i]);
        insert_named(items, entries[i].1.name.clone(), id);
        assert(ne.take(i + 1).drop_last() =~= ne.take(i as int));
        i = i + 1;
    }
    assert(ne.take(i as int) =~= ne);
}

/// The items of module `module_id` by name.
pub fn module_items<P: MacroPlugin>(db: &DefsDatabase<P>, module_id: &ModuleId) -> (r: Option<ModuleItems>)
    requires
        db.wf(),
    ensures
        match r {
            Some(items) => module_items_spec(db, module_id@) == Some(items@)
                && unique_keys(items@),
            None => module_items_spec(db, module_id@) is None,
        },
{
    let data = match module_data(db, module_id) {
        Some(data) => data,
        None => {
            return None;
        },
    };
    let ghost d = data@;
    let mut items: Vec<(String, ModuleItemId)> = Vec::new();
    assert(named_view(items@) =~= Seq::<(Seq<char>, ModuleItemView)>::empty());
    insert_entries(&mut items, ItemKind::Module, &data.submodules);
    insert_entries(&mut items, ItemKind::Use, &data.uses);
    insert_entries(&mut items, ItemKind::FreeFunction, &data.free_functions);
    insert_entries(&mut items, ItemKind::ExternFunction, &data.extern_functions);
    insert_entries(&mut items, ItemKind::ExternType, &data.extern_types);
    insert_entries(&mut items, ItemKind::Struct, &data.structs);
    insert_entries(&mut items, ItemKind::Enum, &data.enums);
    insert_entries(&mut items, ItemKind::Trait, &data.traits);
    insert_entries(&mut items, ItemKind::Impl, &data.impls);
    proof {
        let e = Seq::<(Seq<char>, ModuleItemView)>::empty();
        let n1 = named_entries(ItemKind::Module, d.submodules);
        let n2 = named_entries(ItemKind::Use, d.uses);
        let n3 = named_entries(ItemKind::FreeFunction, d.free_functions);
        let n4 = named_entries(ItemKind::ExternFunction, d.extern_functions);
        let n5 = named_entries(ItemKind::ExternType, d.extern_types);
        let n6 = named_entries(ItemKind::Struct, d.structs);
        let n7 = named_entries(ItemKind::Enum, d.enums);
        let n8 = named_entries(ItemKind::Trait, d.traits);
        let n9 = named_entries(ItemKind::Impl, d.impls);
        lemma_insert_all_concat(e, n1, n2);
        lemma_insert_all_concat(e, n1 + n2, n3);
        lemma_insert_all_concat(e, n1 + n2 + n3, n4);
        lemma_insert_all_concat(e, n1 + n2 + n3 + n4, n5);
        lemma_insert_all_concat(e, n1 + n2 + n3 + n4 + n5, n6);
        lemma_insert_all_concat(e, n1 + n2 + n3 + n4 + n5 + n6, n7);
        lemma_insert_all_concat(e, n1 + n2 + n3 + n4 + n5 + n6 + n7, n8);
        lemma_insert_all_concat(e, n1 + n2 + n3 + n4 + n5 + n6 + n7 + n8, n9);
        assert(insert_all(e, n1) == insert_all(insert_all(e, Seq::empty()), n1)) by {
            lemma_insert_all_concat(e, Seq::empty(), n1);
            assert(Seq::<(Seq<char>, ModuleItemView)>::empty() + n1 =~= n1);
        }
    }
    Some(ModuleItems { items })
}

/// The item named `name` of module `module_id`, if it has one.
pub fn module_item_by_name<P: MacroPlugin>(db: &DefsDatabase<P>, module_id: &ModuleId, name: String) -> (r: Option<
    ModuleItemId,
>)
    requires
        db.wf(),
    ensures
        match module_items_spec(db, module_id@) {
            Some(items) => match r {
                Some(id) => map_get(items, name@) == Some(id@),
                None => map_get(items, name@) is None,
            },
            None => r is None,
        },
{
    let module_items = match module_items(db, module_id) {
        Some(items) => items,
        None => {
            return None;
        },
    };
    let ghost s = module_items@;
    let mut j: usize = 0;
    while j < module_items.items.len()
        invariant
            j <= module_items.items@.len(),
            s == module_items@,
            module_items_spec(db, module_id@) == Some(s),
            unique_keys(s),
            forall|a: int| 0 <= a < j ==> (#[trigger] s[a]).0 != name@,
        decreases module_items.items@.len() - j,
    {
        if module_items.items[j].0 == name {
            proof {
                assert(s[j as int].0 == name@);
                let c = choose|c: int| 0 <= c < s.len() && (#[trigger] s[c]).0 == name@;
                assert(s[c].0 == s[j as int].0);
                assert(c == j as int);
                assert(map_get(s, name@) == Some(s[j as int].1));
                assert(s[j as int].1 == module_items.items@[j as int].1@);
            }
            return Some(duplicate_item_id(&module_items.items[j].1));
        }
        j = j + 1;
    }
    None
}

/// A copy of a module item identifier.
pub fn duplicate_item_id(id: &ModuleItemId) -> (r: ModuleItemId)
    ensures
        r@ == id@,
{
    match id {
        ModuleItemId::Submodule(s) => ModuleItemId::Submodule(s.duplicate()),
        ModuleItemId::Use(i) => ModuleItemId::Use(i.duplicate()),
        ModuleItemId::FreeFunction(i) => ModuleItemId::FreeFunction(i.duplicate()),
        ModuleItemId::ExternFunction(i) => ModuleItemId::ExternFunction(i.duplicate()),
        ModuleItemId::ExternType(i) => ModuleItemId::ExternType(i.duplicate()),
        ModuleItemId::Struct(i) => ModuleItemId::Struct(i.duplicate()),
        ModuleItemId::Enum(i) => ModuleItemId::Enum(i.duplicate()),
        ModuleItemId::Trait(i) => ModuleItemId::Trait(i.duplicate()),
        ModuleItemId::Impl(i) => ModuleItemId::Impl(i.duplicate()),
    }
}

} // verus!

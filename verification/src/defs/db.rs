use vstd::prelude::*;

use crate::defs::ids::{
    duplicate_strings, strings_view, CrateId, Directory, FileId, FileView, SyntaxStablePtrId,
};

verus! {

/// The kind of a top-level item of a file.
#[derive(Clone, Copy, Debug, PartialEq, Eq, Structural)]
pub enum ItemKind {
    Module,
    Use,
    FreeFunction,
    ExternFunction,
    ExternType,
    Trait,
    Impl,
    Struct,
    Enum,
}

/// A top-level item of a parsed file: its kind, its name (for a `use` item, the last
/// identifier of its path) and the stable pointer of its node.
#[derive(Debug, PartialEq, Eq)]
pub struct SyntaxItem {
    pub kind: ItemKind,
    pub name: String,
    pub stable_ptr: SyntaxStablePtrId,
}

/// What an item denotes.
pub struct ItemView {
    pub kind: ItemKind,
    pub name: Seq<char>,
    pub ptr: u64,
}

impl View for SyntaxItem {
    type V = ItemView;

    open spec fn view(&self) -> ItemView {
        ItemView { kind: self.kind, name: self.name@, ptr: self.stable_ptr.0 }
    }
}

impl SyntaxItem {
    /// A copy of the item.
    pub fn duplicate(&self) -> (r: SyntaxItem)
        ensures
            r@ == self@,
    {
        SyntaxItem { kind: self.kind, name: self.name.clone(), stable_ptr: self.stable_ptr }
    }
}

/// The views of a sequence of items.
pub open spec fn items_view(s: Seq<SyntaxItem>) -> Seq<ItemView> {
    s.map_values(|x: SyntaxItem| x@)
}

/// A diagnostic that a plugin reports on a node.
#[derive(Debug, PartialEq, Eq)]
pub struct PluginDiagnostic {
    pub stable_ptr: SyntaxStablePtrId,
    pub message: String,
}

/// What a diagnostic denotes.
pub struct DiagnosticView {
    pub ptr: u64,
    pub message: Seq<char>,
}

impl View for PluginDiagnostic {
    type V = DiagnosticView;

    open spec fn view(&self) -> DiagnosticView {
        DiagnosticView { ptr: self.stable_ptr.0, message: self.message@ }
    }
}

impl PluginDiagnostic {
    /// A copy of the diagnostic.
    pub fn duplicate(&self) -> (r: PluginDiagnostic)
        ensures
            r@ == self@,
    {
        PluginDiagnostic { stable_ptr: self.stable_ptr, message: self.message.clone() }
    }
}

/// What a plugin generates for an item: possibly a file (its name and content) and
/// diagnostics.
#[derive(Debug, PartialEq, Eq)]
pub struct PluginResult {
    pub code: Option<(String, String)>,
    pub diagnostics: Vec<PluginDiagnostic>,
}

/// What a plugin result denotes.
pub struct PluginResultView {
    pub code: Option<(Seq<char>, Seq<char>)>,
    pub diagnostics: Seq<DiagnosticView>,
}

impl View for PluginResult {
    type V = PluginResultView;

    open spec fn view(&self) -> PluginResultView {
        PluginResultView {
            code: match self.code {
                Some((n, c)) => Some((n@, c@)),
                None => None,
            },
            diagnostics: self.diagnostics@.map_values(|d: PluginDiagnostic| d@),
        }
    }
}

/// A plugin that generates code for items.
pub trait MacroPlugin {
    /// What the plugin generates for an item.
    spec fn generated(&self, item: ItemView) -> PluginResultView;

    /// Generates code for `item`. Where no code should be generated, the result's `code`
    /// is `None`; otherwise it holds the name and content of a file that is added to the
    /// item's module and is the file of a virtual submodule of it.
    fn generate_code(&self, item: &SyntaxItem) -> (r: PluginResult)
        ensures
            r@ == self.generated(item@),
    ;
}

/// The inputs of the definitions database: the root directory of each crate, the
/// parsed items of each file and the macro plugins.
pub struct DefsDatabase<P: MacroPlugin> {
    crate_roots: Vec<(CrateId, Directory)>,
    file_syntax: Vec<(FileId, Vec<SyntaxItem>)>,
    macro_plugins: Vec<P>,
}

/// The root directories of the crates, in the order in which the crates were added.
pub open spec fn unique_crates(s: Seq<(u64, Seq<Seq<char>>)>) -> bool {
    forall|i: int, j: int|
        #![trigger s[i], s[j]]
        0 <= i < s.len() && 0 <= j < s.len() && s[i].0 == s[j].0 ==> i == j
}

/// No two of the items `items` have the same stable pointer, as a parser gives them.
pub open spec fn distinct_ptrs(items: Seq<ItemView>) -> bool {
    forall|a: int, b: int|
        #![trigger items[a], items[b]]
        0 <= a < items.len() && 0 <= b < items.len() && items[a].ptr == items[b].ptr ==> a == b
}

/// No file has two entries.
pub open spec fn unique_files(s: Seq<(FileView, Seq<ItemView>)>) -> bool {
    forall|i: int, j: int|
        #![trigger s[i], s[j]]
        0 <= i < s.len() && 0 <= j < s.len() && s[i].0 == s[j].0 ==> i == j
}

impl<P: MacroPlugin> DefsDatabase<P> {
    /// Each crate with the path of its root directory, in the order of addition.
    pub closed spec fn crate_roots(&self) -> Seq<(u64, Seq<Seq<char>>)> {
        self.crate_roots@.map_values(|e: (CrateId, Directory)| (e.0.0, e.1@))
    }

    /// Each parsed file with its items.
    pub closed spec fn syntax(&self) -> Seq<(FileView, Seq<ItemView>)> {
        self.file_syntax@.map_values(
            |e: (FileId, Vec<SyntaxItem>)| (e.0@, items_view(e.1@)),
        )
    }

    /// The macro plugins, in order.
    pub closed spec fn plugins(&self) -> Seq<P> {
        self.macro_plugins@
    }

    /// No crate and no parsed file has two entries, and no two items of a parsed file
    /// have the same stable pointer.
    pub closed spec fn wf(&self) -> bool {
        &&& unique_crates(self.crate_roots())
        &&& unique_files(self.syntax())
        &&& forall|i: int| 0 <= i < self.syntax().len() ==> distinct_ptrs(#[trigger] self.syntax()[i].1)
    }

    /// In a well-formed database, no two parsed items of a file have the same stable
    /// pointer.
    pub proof fn lemma_parsed_distinct(&self, f: FileView)
        requires
            self.wf(),
        ensures
            syntax_of(self.syntax(), f) matches Some(items) ==> distinct_ptrs(items),
    {
        if syntax_of(self.syntax(), f) is Some {
            let i = file_index(self.syntax(), f)->0;
            assert(distinct_ptrs(self.syntax()[i].1));
        }
    }

    /// A database with no crate, no parsed file and no plugin.
    pub fn new() -> (db: Self)
        ensures
            db.wf(),
            db.crate_roots() == Seq::<(u64, Seq<Seq<char>>)>::empty(),
            db.syntax() == Seq::<(FileView, Seq<ItemView>)>::empty(),
            db.plugins() == Seq::<P>::empty(),
    {
        let db = DefsDatabase {
            crate_roots: Vec::new(),
            file_syntax: Vec::new(),
            macro_plugins: Vec::new(),
        };
        assert(db.crate_roots() =~= Seq::<(u64, Seq<Seq<char>>)>::empty());
        assert(db.syntax() =~= Seq::<(FileView, Seq<ItemView>)>::empty());
        db
    }

    /// The position of `crate_id` among the crates, if it is there.
    fn crate_position(&self, crate_id: CrateId) -> (r: Option<usize>)
        requires
            self.wf(),
        ensures
            match r {
                Some(i) => crate_index(self.crate_roots(), crate_id.0) == Some(i as int),
                None => crate_index(self.crate_roots(), crate_id.0) is None,
            },
    {
        let mut i: usize = 0;
        while i < self.crate_roots.len()
            invariant
                i <= self.crate_roots@.len(),
                self.wf(),
                forall|j: int| 0 <= j < i ==> (#[trigger] self.crate_roots()[j]).0 != crate_id.0,
            decreases self.crate_roots@.len() - i,
        {
            if self.crate_roots[i].0.0 == crate_id.0 {
                proof {
                    lemma_crate_index_at(self.crate_roots(), crate_id.0, i as int);
                }
                return Some(i);
            }
            i = i + 1;
        }
        proof {
            lemma_crate_index_none(self.crate_roots(), crate_id.0);
        }
        None
    }

    /// The position of `file` among the parsed files, if it is there.
    fn file_position(&self, file: &FileId) -> (r: Option<usize>)
        requires
            self.wf(),
        ensures
            match r {
                Some(i) => file_index(self.syntax(), file@) == Some(i as int),
                None => file_index(self.syntax(), file@) is None,
            },
    {
        let mut i: usize = 0;
        while i < self.file_syntax.len()
            invariant
                i <= self.file_syntax@.len(),
                self.wf(),
                forall|j: int| 0 <= j < i ==> (#[trigger] self.syntax()[j]).0 != file@,
            decreases self.file_syntax@.len() - i,
        {
            if self.file_syntax[i].0.same(file) {
                proof {
                    lemma_file_index_at(self.syntax(), file@, i as int);
                }
                return Some(i);
            }
            i = i + 1;
        }
        proof {
            lemma_file_index_none(self.syntax(), file@);
        }
        None
    }

    /// Sets the root directory of `crate_id`: replaces the one it has, or adds the crate
    /// after the others.
    pub fn set_crate_root(&mut self, crate_id: CrateId, dir: Directory)
        requires
            old(self).wf(),
        ensures
            final(self).wf(),
            final(self).crate_roots() == with_crate_root(old(self).crate_roots(), crate_id.0, dir@),
            final(self).syntax() == old(self).syntax(),
            final(self).plugins() == old(self).plugins(),
    {
        let ghost old_roots = self.crate_roots();
        let ghost entry = (crate_id.0, dir@);
        match self.crate_position(crate_id) {
            Some(i) => {
                self.crate_roots.set(i, (crate_id, dir));
                assert(self.crate_roots() =~= old_roots.update(i as int, entry));
                assert forall|a: int, b: int|
                    #![trigger self.crate_roots()[a], self.crate_roots()[b]]
                    0 <= a < self.crate_roots().len() && 0 <= b < self.crate_roots().len()
                        && self.crate_roots()[a].0 == self.crate_roots()[b].0 implies a == b by {
                    assert(old_roots[a].0 == self.crate_roots()[a].0);
                    assert(old_roots[b].0 == self.crate_roots()[b].0);
                }
            },
            None => {
                self.crate_roots.push((crate_id, dir));
                assert(self.crate_roots() =~= old_roots.push(entry));
            },
        }
    }

    /// Sets the parsed items of `file`: replaces the ones it has, or adds the file after
    /// the others.
    pub fn set_file_syntax(&mut self, file: FileId, items: Vec<SyntaxItem>)
        requires
            old(self).wf(),
            distinct_ptrs(items_view(items@)),
        ensures
            final(self).wf(),
            final(self).syntax() == with_file_syntax(old(self).syntax(), file@, items_view(items@)),
            final(self).crate_roots() == old(self).crate_roots(),
            final(self).plugins() == old(self).plugins(),
    {
        let ghost old_syntax = self.syntax();
        let ghost entry = (file@, items_view(items@));
        match self.file_position(&file) {
            Some(i) => {
                self.file_syntax.set(i, (file, items));
                assert(self.syntax() =~= old_syntax.update(i as int, entry));
                assert forall|a: int, b: int|
                    #![trigger self.syntax()[a], self.syntax()[b]]
                    0 <= a < self.syntax().len() && 0 <= b < self.syntax().len()
                        && self.syntax()[a].0 == self.syntax()[b].0 implies a == b by {
                    assert(old_syntax[a].0 == self.syntax()[a].0);
                    assert(old_syntax[b].0 == self.syntax()[b].0);
                }
                assert forall|a: int| 0 <= a < self.syntax().len() implies distinct_ptrs(
                    #[trigger] self.syntax()[a].1,
                ) by {
                    if a != i as int {
                        assert(self.syntax()[a] == old_syntax[a]);
                    }
                }
            },
            None => {
                self.file_syntax.push((file, items));
                assert(self.syntax() =~= old_syntax.push(entry));
                assert forall|a: int| 0 <= a < self.syntax().len() implies distinct_ptrs(
                    #[trigger] self.syntax()[a].1,
                ) by {
                    if a < old_syntax.len() {
                        assert(self.syntax()[a] == old_syntax[a]);
                    }
                }
            },
        }
    }

    /// Sets the macro plugins.
    pub fn set_macro_plugins(&mut self, plugins: Vec<P>)
        requires
            old(self).wf(),
        ensures
            final(self).wf(),
            final(self).plugins() == plugins@,
            final(self).crate_roots() == old(self).crate_roots(),
            final(self).syntax() == old(self).syntax(),
    {
        self.macro_plugins = plugins;
    }

    /// The identifiers of the crates, in order.
    pub fn crates(&self) -> (r: Vec<CrateId>)
        ensures
            r@.map_values(|c: CrateId| c.0) == crate_ids(self.crate_roots()),
    {
        let mut r: Vec<CrateId> = Vec::new();
        let mut i: usize = 0;
        while i < self.crate_roots.len()
            invariant
                i <= self.crate_roots@.len(),
                r@.len() == i,
                forall|j: int| 0 <= j < i ==> (#[trigger] r@[j]).0 == self.crate_roots()[j].0,
            decreases self.crate_roots@.len() - i,
        {
            r.push(self.crate_roots[i].0);
            i = i + 1;
        }
        assert(r@.map_values(|c: CrateId| c.0) =~= crate_ids(self.crate_roots()));
        r
    }

    /// The root directory of `crate_id`, if the crate has one.
    pub fn crate_root_dir(&self, crate_id: CrateId) -> (r: Option<Directory>)
        requires
            self.wf(),
        ensures
            match r {
                Some(d) => crate_root_dir(self.crate_roots(), crate_id.0) == Some(d@),
                None => crate_root_dir(self.crate_roots(), crate_id.0) is None,
            },
    {
        match self.crate_position(crate_id) {
            Some(i) => Some(Directory(duplicate_strings(&self.crate_roots[i].1.0))),
            None => None,
        }
    }

    /// The parsed items of `file`, if it was parsed.
    pub fn file_syntax(&self, file: &FileId) -> (r: Option<&Vec<SyntaxItem>>)
        requires
            self.wf(),
        ensures
            match r {
                Some(items) => syntax_of(self.syntax(), file@) == Some(items_view(items@)),
                None => syntax_of(self.syntax(), file@) is None,
            },
    {
        match self.file_position(file) {
            Some(i) => Some(&self.file_syntax[i].1),
            None => None,
        }
    }

    /// The number of macro plugins.
    pub fn num_plugins(&self) -> (r: usize)
        ensures
            r == self.plugins().len(),
    {
        self.macro_plugins.len()
    }

    /// The macro plugin at position `i`.
    pub fn plugin(&self, i: usize) -> (r: &P)
        requires
            i < self.plugins().len(),
        ensures
            *r == self.plugins()[i as int],
    {
        &self.macro_plugins[i]
    }
}

/// Gives the database no macro plugin.
pub fn init_defs_group<P: MacroPlugin>(db: &mut DefsDatabase<P>)
    requires
        old(db).wf(),
    ensures
        final(db).wf(),
        final(db).plugins() == Seq::<P>::empty(),
        final(db).crate_roots() == old(db).crate_roots(),
        final(db).syntax() == old(db).syntax(),
{
    db.set_macro_plugins(Vec::new());
}

/// The identifiers of the crates of `roots`, in order.
pub open spec fn crate_ids(roots: Seq<(u64, Seq<Seq<char>>)>) -> Seq<u64> {
    roots.map_values(|e: (u64, Seq<Seq<char>>)| e.0)
}

/// The position of `c` among the crates of `roots`, if it is there.
pub open spec fn crate_index(roots: Seq<(u64, Seq<Seq<char>>)>, c: u64) -> Option<int> {
    if exists|i: int| 0 <= i < roots.len() && (#[trigger] roots[i]).0 == c {
        Some(choose|i: int| 0 <= i < roots.len() && (#[trigger] roots[i]).0 == c)
    } else {
        None
    }
}

/// The path of the root directory of the crate `c`, if it has one.
pub open spec fn crate_root_dir(roots: Seq<(u64, Seq<Seq<char>>)>, c: u64) -> Option<Seq<Seq<char>>> {
    match crate_index(roots, c) {
        Some(i) => Some(roots[i].1),
        None => None,
    }
}

/// The position of `f` among the parsed files, if it is there.
pub open spec fn file_index(syntax: Seq<(FileView, Seq<ItemView>)>, f: FileView) -> Option<int> {
    if exists|i: int| 0 <= i < syntax.len() && (#[trigger] syntax[i]).0 == f {
        Some(choose|i: int| 0 <= i < syntax.len() && (#[trigger] syntax[i]).0 == f)
    } else {
        None
    }
}

/// `roots` with `d` as the root directory of crate `c`: in place of the one it has, or
/// added after the others.
pub open spec fn with_crate_root(roots: Seq<(u64, Seq<Seq<char>>)>, c: u64, d: Seq<Seq<char>>) -> Seq<
    (u64, Seq<Seq<char>>),
> {
    match crate_index(roots, c) {
        Some(i) => roots.update(i, (c, d)),
        None => roots.push((c, d)),
    }
}

/// `syntax` with `items` as the parsed items of file `f`: in place of the ones it has, or
/// added after the others.
pub open spec fn with_file_syntax(syntax: Seq<(FileView, Seq<ItemView>)>, f: FileView, items: Seq<ItemView>) -> Seq<
    (FileView, Seq<ItemView>),
> {
    match file_index(syntax, f) {
        Some(i) => syntax.update(i, (f, items)),
        None => syntax.push((f, items)),
    }
}

/// The parsed items of `f`, if it was parsed.
pub open spec fn syntax_of(syntax: Seq<(FileView, Seq<ItemView>)>, f: FileView) -> Option<Seq<ItemView>> {
    match file_index(syntax, f) {
        Some(i) => Some(syntax[i].1),
        None => None,
    }
}

/// Where the crate at `i` is `c` and no two crates are the same, `i` is the position of
/// `c`.
pub proof fn lemma_crate_index_at(roots: Seq<(u64, Seq<Seq<char>>)>, c: u64, i: int)
    requires
        unique_crates(roots),
        0 <= i < roots.len(),
        roots[i].0 == c,
    ensures
        crate_index(roots, c) == Some(i),
{
    let k = choose|k: int| 0 <= k < roots.len() && (#[trigger] roots[k]).0 == c;
    assert(roots[k].0 == roots[i].0);
}

/// Where no crate is `c`, `c` has no position.
pub proof fn lemma_crate_index_none(roots: Seq<(u64, Seq<Seq<char>>)>, c: u64)
    requires
        forall|j: int| 0 <= j < roots.len() ==> (#[trigger] roots[j]).0 != c,
    ensures
        crate_index(roots, c) is None,
{
}

/// Where the parsed file at `i` is `f` and no file has two entries, `i` is the position
/// of `f`.
pub proof fn lemma_file_index_at(syntax: Seq<(FileView, Seq<ItemView>)>, f: FileView, i: int)
    requires
        unique_files(syntax),
        0 <= i < syntax.len(),
        syntax[i].0 == f,
    ensures
        file_index(syntax, f) == Some(i),
{
    let k = choose|k: int| 0 <= k < syntax.len() && (#[trigger] syntax[k]).0 == f;
    assert(syntax[k].0 == syntax[i].0);
}

/// Where no parsed file is `f`, `f` has no position.
pub proof fn lemma_file_index_none(syntax: Seq<(FileView, Seq<ItemView>)>, f: FileView)
    requires
        forall|j: int| 0 <= j < syntax.len() ==> (#[trigger] syntax[j]).0 != f,
    ensures
        file_index(syntax, f) is None,
{
}

/// The path `dir` followed by the component `name`.
pub fn join(dir: &Directory, name: String) -> (r: Vec<String>)
    ensures
        strings_view(r@) == dir@.push(name@),
{
    let mut r = duplicate_strings(&dir.0);
    let ghost name_view = name@;
    r.push(name);
    assert(strings_view(r@) =~= dir@.push(name_view));
    r
}

impl Directory {
    /// The file `name` in this directory.
    pub fn file(&self, name: String) -> (r: FileId)
        ensures
            r@ == FileView::OnDisk(self@.push(name@)),
    {
        FileId::OnDisk(join(self, name))
    }

    /// The subdirectory `name` of this directory.
    pub fn subdir(&self, name: String) -> (r: Directory)
        ensures
            r@ == self@.push(name@),
    {
        Directory(join(self, name))
    }
}

} // verus!

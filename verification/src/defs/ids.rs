use vstd::prelude::*;

verus! {

/// The identifier of a crate.
#[derive(Clone, Copy, Debug, PartialEq, Eq, Hash)]
pub struct CrateId(pub u64);

/// The position of a file among the files of its module (0 for the main file).
#[derive(Clone, Copy, Debug, PartialEq, Eq, Hash)]
pub struct FileIndex(pub usize);

/// A stable pointer to a node of a syntax tree.
#[derive(Clone, Copy, Debug, PartialEq, Eq, Hash)]
pub struct SyntaxStablePtrId(pub u64);

/// A virtual submodule: the module whose plugins generated it, and the file that a
/// plugin generated for it.
#[derive(Debug, PartialEq, Eq)]
pub struct VirtualSubmoduleId {
    pub parent: Box<ModuleId>,
    pub file: FileId,
}

/// A directory, as its path components.
#[derive(Clone, Debug, PartialEq, Eq)]
pub struct Directory(pub Vec<String>);

/// A file: one on disk, known by its path components, or one generated by a plugin.
#[derive(Debug, PartialEq, Eq)]
pub enum FileId {
    OnDisk(Vec<String>),
    Virtual(VirtualFile),
}

/// A file generated by a plugin from an item of its parent file.
#[derive(Debug, PartialEq, Eq)]
pub struct VirtualFile {
    pub parent: Option<Box<FileId>>,
    pub name: String,
    pub content: String,
}

/// A module: the root module of a crate, a submodule declared by a `mod` item, or a
/// virtual submodule.
#[derive(Debug, PartialEq, Eq)]
pub enum ModuleId {
    CrateRoot(CrateId),
    Submodule(SubmoduleId),
    VirtualSubmodule(VirtualSubmoduleId),
}

/// A submodule: the `mod` item at `stable_ptr` in a file of its parent module, and the
/// submodule's name.
#[derive(Debug, PartialEq, Eq)]
pub struct SubmoduleId {
    pub parent: Box<ModuleFileId>,
    pub stable_ptr: SyntaxStablePtrId,
    pub name: String,
}

/// A file of a module, by its position among the module's files.
#[derive(Debug, PartialEq, Eq)]
pub struct ModuleFileId(pub ModuleId, pub FileIndex);

/// An item other than a submodule: the item at `stable_ptr` in a file of a module.
#[derive(Debug, PartialEq, Eq)]
pub struct ItemId {
    pub module_file: ModuleFileId,
    pub stable_ptr: SyntaxStablePtrId,
}

/// An item of a module, by its kind.
#[derive(Debug, PartialEq, Eq)]
pub enum ModuleItemId {
    Submodule(SubmoduleId),
    Use(ItemId),
    FreeFunction(ItemId),
    ExternFunction(ItemId),
    ExternType(ItemId),
    Struct(ItemId),
    Enum(ItemId),
    Trait(ItemId),
    Impl(ItemId),
}

/// What a file denotes.
pub enum FileView {
    OnDisk(Seq<Seq<char>>),
    Virtual(Option<Box<FileView>>, Seq<char>, Seq<char>),
}

/// What a module denotes.
pub enum ModuleView {
    CrateRoot(u64),
    Submodule(SubmoduleView),
    VirtualSubmodule(VirtualSubmoduleView),
}

/// What a virtual submodule denotes: its parent module and its file.
pub struct VirtualSubmoduleView {
    pub parent: Box<ModuleView>,
    pub file: FileView,
}

/// What a submodule denotes: its parent module, the position of the parent's file that
/// declares it, the stable pointer of its `mod` item, and its name.
pub struct SubmoduleView {
    pub parent: Box<ModuleView>,
    pub index: nat,
    pub ptr: u64,
    pub name: Seq<char>,
}

/// What a (module, file position) pair denotes.
pub struct ModuleFileView {
    pub module: ModuleView,
    pub index: nat,
}

/// What an item identifier denotes.
pub struct ItemIdView {
    pub module_file: ModuleFileView,
    pub ptr: u64,
}

/// What a module item identifier denotes.
pub enum ModuleItemView {
    Submodule(SubmoduleView),
    Use(ItemIdView),
    FreeFunction(ItemIdView),
    ExternFunction(ItemIdView),
    ExternType(ItemIdView),
    Struct(ItemIdView),
    Enum(ItemIdView),
    Trait(ItemIdView),
    Impl(ItemIdView),
}

/// The views of a sequence of strings.
pub open spec fn strings_view(s: Seq<String>) -> Seq<Seq<char>> {
    s.map_values(|x: String| x@)
}

/// The view of a file.
pub open spec fn file_view(f: FileId) -> FileView
    decreases f,
{
    match f {
        FileId::OnDisk(path) => FileView::OnDisk(strings_view(path@)),
        FileId::Virtual(v) => FileView::Virtual(
            match v.parent {
                Some(p) => Some(Box::new(file_view(*p))),
                None => None,
            },
            v.name@,
            v.content@,
        ),
    }
}

impl View for FileId {
    type V = FileView;

    open spec fn view(&self) -> FileView {
        file_view(*self)
    }
}

/// The view of a module.
pub open spec fn module_view(m: ModuleId) -> ModuleView
    decreases m,
{
    match m {
        ModuleId::CrateRoot(c) => ModuleView::CrateRoot(c.0),
        ModuleId::Submodule(s) => ModuleView::Submodule(
            SubmoduleView {
                parent: Box::new(module_view(s.parent.0)),
                index: s.parent.1.0 as nat,
                ptr: s.stable_ptr.0,
                name: s.name@,
            },
        ),
        ModuleId::VirtualSubmodule(v) => ModuleView::VirtualSubmodule(
            VirtualSubmoduleView { parent: Box::new(module_view(*v.parent)), file: v.file@ },
        ),
    }
}

impl View for ModuleId {
    type V = ModuleView;

    open spec fn view(&self) -> ModuleView {
        module_view(*self)
    }
}

impl View for SubmoduleId {
    type V = SubmoduleView;

    open spec fn view(&self) -> SubmoduleView {
        SubmoduleView {
            parent: Box::new(self.parent.0@),
            index: self.parent.1.0 as nat,
            ptr: self.stable_ptr.0,
            name: self.name@,
        }
    }
}

impl View for ModuleFileId {
    type V = ModuleFileView;

    open spec fn view(&self) -> ModuleFileView {
        ModuleFileView { module: self.0@, index: self.1.0 as nat }
    }
}

impl View for ItemId {
    type V = ItemIdView;

    open spec fn view(&self) -> ItemIdView {
        ItemIdView { module_file: self.module_file@, ptr: self.stable_ptr.0 }
    }
}

impl View for ModuleItemId {
    type V = ModuleItemView;

    open spec fn view(&self) -> ModuleItemView {
        match self {
            ModuleItemId::Submodule(s) => ModuleItemView::Submodule(s@),
            ModuleItemId::Use(i) => ModuleItemView::Use(i@),
            ModuleItemId::FreeFunction(i) => ModuleItemView::FreeFunction(i@),
            ModuleItemId::ExternFunction(i) => ModuleItemView::ExternFunction(i@),
            ModuleItemId::ExternType(i) => ModuleItemView::ExternType(i@),
            ModuleItemId::Struct(i) => ModuleItemView::Struct(i@),
            ModuleItemId::Enum(i) => ModuleItemView::Enum(i@),
            ModuleItemId::Trait(i) => ModuleItemView::Trait(i@),
            ModuleItemId::Impl(i) => ModuleItemView::Impl(i@),
        }
    }
}

impl View for Directory {
    type V = Seq<Seq<char>>;

    open spec fn view(&self) -> Seq<Seq<char>> {
        strings_view(self.0@)
    }
}

/// A copy of each string, in order.
pub fn duplicate_strings(s: &Vec<String>) -> (r: Vec<String>)
    ensures
        strings_view(r@) == strings_view(s@),
{
    let mut r: Vec<String> = Vec::new();
    let mut i: usize = 0;
    while i < s.len()
        invariant
            i <= s.len(),
            r@.len() == i,
            forall|j: int| 0 <= j < i ==> (#[trigger] r@[j])@ == s@[j]@,
        decreases s.len() - i,
    {
        r.push(s[i].clone());
        i = i + 1;
    }
    assert(strings_view(r@) =~= strings_view(s@));
    r
}

/// Whether two sequences of strings are equal, string by string.
pub fn strings_equal(a: &Vec<String>, b: &Vec<String>) -> (r: bool)
    ensures
        r == (strings_view(a@) == strings_view(b@)),
{
    if a.len() != b.len() {
        assert(strings_view(a@).len() != strings_view(b@).len());
        return false;
    }
    let mut i: usize = 0;
    while i < a.len()
        invariant
            i <= a.len(),
            a.len() == b.len(),
            forall|j: int| 0 <= j < i ==> (#[trigger] a@[j])@ == b@[j]@,
        decreases a.len() - i,
    {
        if a[i] != b[i] {
            assert(strings_view(a@)[i as int] != strings_view(b@)[i as int]);
            return false;
        }
        i = i + 1;
    }
    assert(strings_view(a@) =~= strings_view(b@));
    true
}

impl FileId {
    /// A copy of the file identifier.
    pub fn duplicate(&self) -> (r: FileId)
        ensures
            r@ == self@,
        decreases self,
    {
        match self {
            FileId::OnDisk(path) => FileId::OnDisk(duplicate_strings(path)),
            FileId::Virtual(v) => FileId::Virtual(
                VirtualFile {
                    parent: match &v.parent {
                        Some(p) => Some(Box::new((**p).duplicate())),
                        None => None,
                    },
                    name: v.name.clone(),
                    content: v.content.clone(),
                },
            ),
        }
    }

    /// Whether both identifiers denote the same file.
    pub fn same(&self, other: &FileId) -> (r: bool)
        ensures
            r == (self@ == other@),
        decreases self,
    {
        match (self, other) {
            (FileId::OnDisk(a), FileId::OnDisk(b)) => strings_equal(a, b),
            (FileId::Virtual(a), FileId::Virtual(b)) => {
                if a.name != b.name || a.content != b.content {
                    return false;
                }
                match (&a.parent, &b.parent) {
                    (Some(p), Some(q)) => (**p).same(&**q),
                    (None, None) => true,
                    _ => false,
                }
            },
            _ => false,
        }
    }
}

impl ModuleId {
    /// A copy of the module identifier.
    pub fn duplicate(&self) -> (r: ModuleId)
        ensures
            r@ == self@,
        decreases self,
    {
        match self {
            ModuleId::CrateRoot(c) => ModuleId::CrateRoot(*c),
            ModuleId::Submodule(s) => ModuleId::Submodule(s.duplicate()),
            ModuleId::VirtualSubmodule(v) => ModuleId::VirtualSubmodule(
                VirtualSubmoduleId { parent: Box::new(v.parent.duplicate()), file: v.file.duplicate() },
            ),
        }
    }
}

impl SubmoduleId {
    /// A copy of the submodule identifier.
    pub fn duplicate(&self) -> (r: SubmoduleId)
        ensures
            r@ == self@,
        decreases self,
    {
        SubmoduleId {
            parent: Box::new(ModuleFileId(self.parent.0.duplicate(), self.parent.1)),
            stable_ptr: self.stable_ptr,
            name: self.name.clone(),
        }
    }
}

impl ModuleFileId {
    /// A copy of the identifier.
    pub fn duplicate(&self) -> (r: ModuleFileId)
        ensures
            r@ == self@,
    {
        ModuleFileId(self.0.duplicate(), self.1)
    }
}

impl ItemId {
    /// A copy of the identifier.
    pub fn duplicate(&self) -> (r: ItemId)
        ensures
            r@ == self@,
    {
        ItemId { module_file: self.module_file.duplicate(), stable_ptr: self.stable_ptr }
    }
}

} // verus!

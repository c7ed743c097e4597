use vstd::prelude::*;
use crate::scan::{TokenType, TokenTypeG};

verus! {

/// Whether a symbol is a function (with the label that ends its body, once
/// code for it was generated) or a variable.
#[derive(Clone, Copy, Debug, PartialEq, Eq, Structural)]
pub enum StructuralType {
    Function { end_label: Option<usize> },
    Variable,
}

/// The primitive types of the language.
#[derive(Clone, Copy, Debug, PartialEq, Eq, Structural)]
pub enum PrimType {
    Char,
    Int,
    Long,
    Void,
    CharPtr,
    IntPtr,
    LongPtr,
    VoidPtr,
}

impl PrimType {
    pub open spec fn is_pointer(self) -> bool {
        self is CharPtr || self is IntPtr || self is LongPtr || self is VoidPtr
    }

    pub open spec fn spec_pointer_to(self) -> PrimType {
        match self {
            PrimType::Char => PrimType::CharPtr,
            PrimType::Int => PrimType::IntPtr,
            PrimType::Long => PrimType::LongPtr,
            _ => PrimType::VoidPtr,
        }
    }

    pub open spec fn spec_value_at(self) -> PrimType {
        match self {
            PrimType::CharPtr => PrimType::Char,
            PrimType::IntPtr => PrimType::Int,
            PrimType::LongPtr => PrimType::Long,
            _ => PrimType::Void,
        }
    }

    /// Whether the type is a pointer type.
    pub fn is_ptr(&self) -> (r: bool)
        ensures
            r == self.is_pointer(),
    {
        match self {
            PrimType::CharPtr | PrimType::IntPtr | PrimType::LongPtr | PrimType::VoidPtr => true,
            _ => false,
        }
    }

    /// The pointer type whose values point at this type.
    pub fn pointer_to(&self) -> (r: PrimType)
        requires
            !self.is_pointer(),
        ensures
            r == self.spec_pointer_to(),
            r.is_pointer(),
    {
        match self {
            PrimType::Char => PrimType::CharPtr,
            PrimType::Int => PrimType::IntPtr,
            PrimType::Long => PrimType::LongPtr,
            _ => PrimType::VoidPtr,
        }
    }

    /// The type a pointer of this type points at.
    pub fn value_at(&self) -> (r: PrimType)
        requires
            self.is_pointer(),
        ensures
            r == self.spec_value_at(),
            !r.is_pointer(),
    {
        match self {
            PrimType::CharPtr => PrimType::Char,
            PrimType::IntPtr => PrimType::Int,
            PrimType::LongPtr => PrimType::Long,
            _ => PrimType::Void,
        }
    }

    pub open spec fn spec_from_token<S>(tok: TokenTypeG<S>) -> PrimType {
        match tok {
            TokenTypeG::Char => PrimType::Char,
            TokenTypeG::Int => PrimType::Int,
            TokenTypeG::Long => PrimType::Long,
            _ => PrimType::Void,
        }
    }

    /// The type that a type keyword names.
    pub fn from_token(tok: TokenType) -> (r: PrimType)
        requires
            tok.spec_is_type(),
        ensures
            r == Self::spec_from_token(tok),
    {
        match tok {
            TokenTypeG::Char => PrimType::Char,
            TokenTypeG::Int => PrimType::Int,
            TokenTypeG::Long => PrimType::Long,
            _ => PrimType::Void,
        }
    }
}

/// Pointing at a type and then dereferencing gives the type back.
pub proof fn lemma_value_at_pointer_to(t: PrimType)
    requires
        !t.is_pointer(),
    ensures
        t.spec_pointer_to().spec_value_at() == t,
{
}

/// Dereferencing a pointer type and then pointing again gives the pointer type back.
pub proof fn lemma_pointer_to_value_at(t: PrimType)
    requires
        t.is_pointer(),
    ensures
        t.spec_value_at().spec_pointer_to() == t,
{
}

/// An entry of the symbol table, generic over the representation of names.
#[derive(Clone, Debug)]
pub struct SymbolEntryG<S> {
    pub name: S,
    pub dtype: PrimType,
    pub stype: StructuralType,
}

pub type SymbolEntry = SymbolEntryG<String>;

pub type SymbolEntryV = SymbolEntryG<Seq<char>>;

impl View for SymbolEntryG<String> {
    type V = SymbolEntryV;

    open spec fn view(&self) -> SymbolEntryV {
        SymbolEntryG { name: self.name@, dtype: self.dtype, stype: self.stype }
    }
}

impl SymbolEntryG<String> {
    /// A copy of the entry.
    pub fn duplicate(&self) -> (r: SymbolEntry)
        ensures
            r == *self,
    {
        SymbolEntryG { name: self.name.clone(), dtype: self.dtype, stype: self.stype }
    }
}

pub open spec fn entries_view(v: Seq<SymbolEntry>) -> Seq<SymbolEntryV> {
    v.map_values(|e: SymbolEntry| e@)
}

/// The index of the first entry named `name`.
pub open spec fn find_first(s: Seq<SymbolEntryV>, name: Seq<char>) -> Option<int>
    decreases s.len(),
{
    if s.len() == 0 {
        None
    } else {
        match find_first(s.drop_last(), name) {
            Some(i) => Some(i),
            None => if s.last().name == name {
                Some(s.len() - 1)
            } else {
                None
            },
        }
    }
}

pub proof fn lemma_find_first_props(s: Seq<SymbolEntryV>, name: Seq<char>)
    ensures
        find_first(s, name) matches Some(i) ==> 0 <= i < s.len() && s[i].name == name && (
        forall|j: int| 0 <= j < i ==> s[j].name != name),
        find_first(s, name) is None ==> forall|j: int| 0 <= j < s.len() ==> s[j].name != name,
    decreases s.len(),
{
    if s.len() > 0 {
        lemma_find_first_props(s.drop_last(), name);
        assert forall|j: int| 0 <= j < s.len() - 1 implies s.drop_last()[j] == s[j] by {}
    }
}

/// The first entry named `name` is found again in any longer table.
pub proof fn lemma_find_first_extend(s: Seq<SymbolEntryV>, t: Seq<SymbolEntryV>, name: Seq<char>)
    requires
        find_first(s, name) is Some,
    ensures
        find_first(s + t, name) == find_first(s, name),
    decreases t.len(),
{
    if t.len() == 0 {
        assert(s + t =~= s);
    } else {
        lemma_find_first_extend(s, t.drop_last(), name);
        assert((s + t).drop_last() =~= s + t.drop_last());
    }
}

/// Which entries a filtered walk of the table yields.
#[derive(Clone, Copy, Debug, PartialEq, Eq, Structural)]
pub enum EntryFilter {
    Variables,
    Functions,
}

pub open spec fn filter_accepts<S>(f: EntryFilter, e: SymbolEntryG<S>) -> bool {
    match f {
        EntryFilter::Variables => e.stype is Variable,
        EntryFilter::Functions => e.stype is Function,
    }
}

pub open spec fn filtered(s: Seq<SymbolEntryV>, f: EntryFilter) -> Seq<SymbolEntryV>
    decreases s.len(),
{
    if s.len() == 0 {
        Seq::empty()
    } else if filter_accepts(f, s.last()) {
        filtered(s.drop_last(), f).push(s.last())
    } else {
        filtered(s.drop_last(), f)
    }
}

/// A walk over the entries of a table that a filter accepts, in table order.
pub struct SymFilteredIterator {
    items: Vec<SymbolEntry>,
    next_index: usize,
}

impl SymFilteredIterator {
    /// The entries still to be yielded.
    pub closed spec fn remaining(&self) -> Seq<SymbolEntryV> {
        entries_view(self.items@).skip(self.next_index as int)
    }

    pub closed spec fn wf(&self) -> bool {
        self.next_index <= self.items@.len()
    }

    /// A walk over the entries of `entries` that `test` accepts.
    pub fn new(entries: &Vec<SymbolEntry>, test: EntryFilter) -> (r: SymFilteredIterator)
        ensures
            r.wf(),
            r.remaining() == filtered(entries_view(entries@), test),
    {
        let mut items: Vec<SymbolEntry> = Vec::new();
        let mut i: usize = 0;
        while i < entries.len()
            invariant
                i <= entries@.len(),
                entries_view(items@) == filtered(entries_view(entries@.take(i as int)), test),
            decreases entries@.len() - i,
        {
            let e = &entries[i];
            let accept = match test {
                EntryFilter::Variables => matches!(e.stype, StructuralType::Variable),
                EntryFilter::Functions => matches!(e.stype, StructuralType::Function { .. }),
            };
            proof {
                assert(entries_view(entries@.take(i + 1)).drop_last() =~= entries_view(
                    entries@.take(i as int),
                ));
                assert(entries_view(entries@.take(i + 1)).last() == entries@[i as int]@);
            }
            let ghost before = items@;
            if accept {
                items.push(e.duplicate());
                assert(entries_view(items@) =~= entries_view(before).push(entries@[i as int]@));
            }
            i += 1;
        }
        assert(entries@.take(entries@.len() as int) =~= entries@);
        let r = SymFilteredIterator { items, next_index: 0 };
        assert(entries_view(r.items@).skip(0) =~= entries_view(r.items@));
        r
    }

    /// The next accepted entry, if any.
    pub fn next(&mut self) -> (r: Option<SymbolEntry>)
        requires
            old(self).wf(),
        ensures
            final(self).wf(),
            old(self).remaining().len() == 0 ==> r is None && final(self).remaining()
                == old(self).remaining(),
            old(self).remaining().len() > 0 ==> (r matches Some(e) && e@ == old(
                self,
            ).remaining()[0] && final(self).remaining() == old(self).remaining().drop_first()),
    {
        if self.next_index < self.items.len() {
            let e = self.items[self.next_index].duplicate();
            self.next_index = self.next_index + 1;
            proof {
                assert(self.remaining() =~= old(self).remaining().drop_first());
            }
            Some(e)
        } else {
            None
        }
    }
}


/// Builds a symbol table entry by entry.
pub struct SymbolTableBuilder {
    globals: Vec<SymbolEntry>,
}

impl View for SymbolTableBuilder {
    type V = Seq<SymbolEntryV>;

    closed spec fn view(&self) -> Seq<SymbolEntryV> {
        entries_view(self.globals@)
    }
}

impl SymbolTableBuilder {
    /// A builder with no entries.
    pub fn new() -> (b: SymbolTableBuilder)
        ensures
            b@ == Seq::<SymbolEntryV>::empty(),
    {
        let b = SymbolTableBuilder { globals: Vec::new() };
        assert(b@ =~= Seq::<SymbolEntryV>::empty());
        b
    }

    /// The builder with one more entry at the end.
    pub fn add_glob(self, name: &str, dtype: PrimType, stype: StructuralType) -> (b: SymbolTableBuilder)
        ensures
            b@ == self@.push(SymbolEntryG { name: name@, dtype, stype }),
    {
        let mut globals = self.globals;
        let ghost before = globals@;
        globals.push(SymbolEntryG { name: name.to_owned(), dtype, stype });
        let b = SymbolTableBuilder { globals };
        assert(b@ =~= entries_view(before).push(SymbolEntryG { name: name@, dtype, stype }));
        b
    }

    /// The builder with one more function entry, without end label, at the end.
    pub fn add_glob_fn(self, name: &str, dtype: PrimType) -> (b: SymbolTableBuilder)
        ensures
            b@ == self@.push(
                SymbolEntryG { name: name@, dtype, stype: StructuralType::Function { end_label: None } },
            ),
    {
        self.add_glob(name, dtype, StructuralType::Function { end_label: None })
    }

    /// The table with the entries added so far.
    pub fn build(self) -> (t: SymbolTable)
        ensures
            t@ == self@,
    {
        SymbolTable { globals: self.globals }
    }
}

/// The global symbols: variables and functions, in declaration order.
/// Lookups find the first entry with a name.
pub struct SymbolTable {
    globals: Vec<SymbolEntry>,
}

impl View for SymbolTable {
    type V = Seq<SymbolEntryV>;

    closed spec fn view(&self) -> Seq<SymbolEntryV> {
        entries_view(self.globals@)
    }
}

/// The entry after its function gets the end label `label`.
pub open spec fn with_end_label(e: SymbolEntryV, label: usize) -> SymbolEntryV {
    SymbolEntryG { name: e.name, dtype: e.dtype, stype: StructuralType::Function { end_label: Some(label) } }
}

impl SymbolTable {
    /// An empty table.
    pub fn new() -> (t: SymbolTable)
        ensures
            t@ == Seq::<SymbolEntryV>::empty(),
    {
        let t = SymbolTable { globals: Vec::new() };
        assert(t@ =~= Seq::<SymbolEntryV>::empty());
        t
    }

    /// A copy of the table.
    pub fn duplicate(&self) -> (t: SymbolTable)
        ensures
            t@ == self@,
    {
        let mut globals: Vec<SymbolEntry> = Vec::new();
        let mut i: usize = 0;
        while i < self.globals.len()
            invariant
                i <= self.globals@.len(),
                entries_view(globals@) == entries_view(self.globals@.take(i as int)),
            decreases self.globals@.len() - i,
        {
            let ghost before = globals@;
            globals.push(self.globals[i].duplicate());
            assert(self.globals@.take(i + 1) =~= self.globals@.take(i as int).push(self.globals@[i as int]));
            assert(entries_view(globals@) =~= entries_view(before).push(self.globals@[i as int]@));
            assert(entries_view(globals@) =~= entries_view(self.globals@.take(i + 1)));
            i += 1;
        }
        assert(self.globals@.take(self.globals@.len() as int) =~= self.globals@);
        SymbolTable { globals }
    }

    /// Add an entry at the end of the table.
    pub fn add_glob(&mut self, name: &str, dtype: PrimType, stype: StructuralType)
        ensures
            final(self)@ == old(self)@.push(SymbolEntryG { name: name@, dtype, stype }),
    {
        let ghost before = self.globals@;
        self.globals.push(SymbolEntryG { name: name.to_owned(), dtype, stype });
        assert(self@ =~= entries_view(before).push(SymbolEntryG { name: name@, dtype, stype }));
    }

    /// Add a function entry, without end label, at the end of the table.
    pub fn add_glob_fn(&mut self, name: &str, dtype: PrimType)
        ensures
            final(self)@ == old(self)@.push(
                SymbolEntryG { name: name@, dtype, stype: StructuralType::Function { end_label: None } },
            ),
    {
        self.add_glob(name, dtype, StructuralType::Function { end_label: None })
    }

    /// The index of the first entry named `name`.
    fn find_pos(&self, name: &str) -> (r: Option<usize>)
        ensures
            r matches Some(k) ==> find_first(self@, name@) == Some(k as int),
            r is None <==> find_first(self@, name@) is None,
    {
        let key: String = name.to_owned();
        let mut i: usize = 0;
        while i < self.globals.len()
            invariant
                i <= self.globals@.len(),
                key@ == name@,
                find_first(self@.take(i as int), name@) is None,
            decreases self.globals@.len() - i,
        {
            proof {
                assert(self@.take(i + 1).drop_last() =~= self@.take(i as int));
            }
            if self.globals[i].name.eq(&key) {
                proof {
                    assert(find_first(self@.take(i + 1), name@) == Some(i as int));
                    lemma_find_first_extend(self@.take(i + 1), self@.skip(i + 1), name@);
                    assert(self@.take(i + 1) + self@.skip(i + 1) =~= self@);
                }
                return Some(i);
            }
            i += 1;
        }
        assert(self@.take(i as int) =~= self@);
        None
    }

    /// The first entry named `name`.
    pub fn find_glob(&self, name: &str) -> (r: Option<&SymbolEntry>)
        ensures
            match find_first(self@, name@) {
                Some(i) => r matches Some(e) && e@ == self@[i],
                None => r is None,
            },
    {
        match self.find_pos(name) {
            Some(i) => {
                proof {
                    lemma_find_first_props(self@, name@);
                }
                assert(find_first(self@, name@) == Some(i as int));
                assert(self@[i as int] == self.globals@[i as int]@);
                Some(&self.globals[i])
            },
            None => None,
        }
    }

    /// Record the end label of the function `name`, which has none yet.
    pub fn set_fn_end_label(&mut self, name: &str, label: usize)
        requires
            find_first(old(self)@, name@) matches Some(i) && old(self)@[i].stype == (
            StructuralType::Function { end_label: None }),
        ensures
            final(self)@ == old(self)@.update(
                find_first(old(self)@, name@).unwrap(),
                with_end_label(old(self)@[find_first(old(self)@, name@).unwrap()], label),
            ),
    {
        proof {
            lemma_find_first_props(self@, name@);
        }
        let i = self.find_pos(name).unwrap();
        let dtype = self.globals[i].dtype;
        let ghost before = self.globals@;
        self.globals.set(i, SymbolEntryG { name: name.to_owned(), dtype, stype: StructuralType::Function { end_label: Some(label) } });
        assert(self@ =~= entries_view(before).update(i as int, with_end_label(entries_view(before)[i as int], label)));
    }

    /// The end label of the function `name`.
    pub fn get_fn_end_label(&self, name: &str) -> (r: usize)
        requires
            find_first(self@, name@) matches Some(i) && self@[i].stype matches StructuralType::Function {
                end_label: Some(_),
            },
        ensures
            self@[find_first(self@, name@).unwrap()].stype == (StructuralType::Function {
                end_label: Some(r),
            }),
    {
        proof {
            lemma_find_first_props(self@, name@);
        }
        let oi = self.find_pos(name);
        assert(oi is Some);
        let i = oi.unwrap();
        assert(find_first(self@, name@) == Some(i as int));
        assert(self@[i as int] == self.globals@[i as int]@);
        match self.globals[i].stype {
            StructuralType::Function { end_label: Some(label) } => label,
            _ => 0,
        }
    }

    /// The type of the function `name`.
    pub fn get_fn_dtype(&self, name: &str) -> (r: PrimType)
        requires
            find_first(self@, name@) matches Some(i) && self@[i].stype is Function,
        ensures
            r == self@[find_first(self@, name@).unwrap()].dtype,
    {
        proof {
            lemma_find_first_props(self@, name@);
        }
        let oi = self.find_pos(name);
        assert(oi is Some);
        let i = oi.unwrap();
        assert(find_first(self@, name@) == Some(i as int));
        assert(self@[i as int] == self.globals@[i as int]@);
        self.globals[i].dtype
    }

    /// A walk over the variables of the table, in declaration order.
    pub fn iter_global_vars(&self) -> (it: SymFilteredIterator)
        ensures
            it.wf(),
            it.remaining() == filtered(self@, EntryFilter::Variables),
    {
        SymFilteredIterator::new(&self.globals, EntryFilter::Variables)
    }

    /// Whether the table has no entries.
    pub fn is_empty(&self) -> (r: bool)
        ensures
            r == (self@.len() == 0),
    {
        self.globals.len() == 0
    }

    /// The number of entries.
    pub fn len(&self) -> (r: usize)
        ensures
            r == self@.len(),
    {
        self.globals.len()
    }

    /// Whether some entry is named `name`.
    pub fn has_global(&self, name: &str) -> (r: bool)
        ensures
            r == (exists|i: int| 0 <= i < self@.len() && self@[i].name == name@),
    {
        proof {
            lemma_find_first_props(self@, name@);
        }
        self.find_pos(name).is_some()
    }
}

impl Default for SymbolTable {
    /// The table that every program starts with: the function `printint`.
    fn default() -> (t: SymbolTable)
        ensures
            t@ == seq![
                SymbolEntryG {
                    name: "printint"@,
                    dtype: PrimType::Void,
                    stype: StructuralType::Function { end_label: None },
                },
            ],
    {
        let t = SymbolTableBuilder::new().add_glob_fn("printint", PrimType::Void).build();
        assert(t@ =~= seq![
            SymbolEntryG {
                name: "printint"@,
                dtype: PrimType::Void,
                stype: StructuralType::Function { end_label: None },
            },
        ]);
        t
    }
}

/// Adding an entry keeps every name that was found before; a new name is found
/// at the new entry.
pub proof fn lemma_add_then_find(s: Seq<SymbolEntryV>, e: SymbolEntryV, name: Seq<char>)
    ensures
        find_first(s, name) is Some ==> find_first(s.push(e), name) == find_first(s, name),
        find_first(s, name) is None && e.name == name ==> find_first(s.push(e), name) == Some(
            s.len() as int,
        ),
        find_first(s, name) is None && e.name != name ==> find_first(s.push(e), name) is None,
{
    assert(s.push(e).drop_last() =~= s);
}
} // verus!

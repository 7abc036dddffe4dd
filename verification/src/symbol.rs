use crate::traits::PolyTypes;
use vstd::prelude::*;
use vstd::std_specs::cmp::PartialEqSpecImpl;

verus! {

/// What a symbol is declared with: its label and, optionally, its type.
#[derive(Debug)]
pub struct SymbolInfo<Types> {
    pub label: String,
    pub associated_type: Option<Types>,
}

impl<Types> SymbolInfo<Types> {
    pub fn new(label: &str, associated_type: Option<Types>) -> (r: Self)
        ensures
            r.label@ == label@,
            r.associated_type == associated_type,
    {
        SymbolInfo { label: label.to_owned(), associated_type }
    }

    pub fn new_typed(label: &str, associated_type: Types) -> (r: Self)
        ensures
            r.label@ == label@,
            r.associated_type == Some(associated_type),
    {
        Self::new(label, Some(associated_type))
    }
}

impl<Types: PolyTypes> Clone for SymbolInfo<Types> {
    fn clone(&self) -> (r: Self)
        ensures
            r == *self,
    {
        let associated_type = match &self.associated_type {
            Some(declared) => Some(declared.duplicate()),
            None => None,
        };
        SymbolInfo { label: self.label.clone(), associated_type }
    }
}

/// The identity of a symbol: the registry that interned it and its place
/// in that registry.
#[derive(Debug, Clone, Copy, PartialEq, Eq, Hash, Structural)]
pub struct SymbolId {
    pub registry: u64,
    pub index: usize,
}

/// An interned symbol. Two symbols are equal when their identities are,
/// whatever their labels.
#[derive(Debug)]
pub struct Symbol<Types> {
    id: SymbolId,
    info: SymbolInfo<Types>,
}

impl<Types> Symbol<Types> {
    /// The identity by which symbols are compared.
    pub closed spec fn id(self) -> SymbolId {
        self.id
    }

    /// What the symbol was declared with.
    pub closed spec fn info(self) -> SymbolInfo<Types> {
        self.info
    }

    fn new(id: SymbolId, info: SymbolInfo<Types>) -> (r: Self)
        ensures
            r.id() == id,
            r.info() == info,
    {
        Symbol { id, info }
    }

    pub fn identity(&self) -> (r: SymbolId)
        ensures
            r == self.id(),
    {
        self.id
    }

    pub fn label(&self) -> (r: &String)
        ensures
            *r == self.info().label,
    {
        &self.info.label
    }

    pub fn associated_type(&self) -> (r: &Option<Types>)
        ensures
            *r == self.info().associated_type,
    {
        &self.info.associated_type
    }
}

impl<Types: PolyTypes> Clone for Symbol<Types> {
    fn clone(&self) -> (r: Self)
        ensures
            r == *self,
    {
        Symbol { id: self.id, info: self.info.clone() }
    }
}

impl<Types> PartialEq for Symbol<Types> {
    fn eq(&self, other: &Self) -> (r: bool) {
        self.id.registry == other.id.registry && self.id.index == other.id.index
    }
}

impl<Types> PartialEqSpecImpl for Symbol<Types> {
    open spec fn obeys_eq_spec() -> bool {
        true
    }

    open spec fn eq_spec(&self, other: &Self) -> bool {
        self.id() == other.id()
    }
}

/// A registry of symbols: an arena in which each label is interned once.
pub struct SymbolsProvider<Types> {
    registry: u64,
    symbols: Vec<Symbol<Types>>,
}

impl<Types: PolyTypes> SymbolsProvider<Types> {
    /// The number that the registry was made with.
    pub closed spec fn registry(self) -> u64 {
        self.registry
    }

    /// The interned symbols, oldest first.
    pub closed spec fn entries(self) -> Seq<Symbol<Types>> {
        self.symbols@
    }

    /// Whether a symbol with this label was interned.
    pub open spec fn knows(self, label: Seq<char>) -> bool {
        exists|i: int| 0 <= i < self.entries().len() && (#[trigger] self.entries()[i]).info().label@ == label
    }

    /// Each symbol is identified by this registry and its place in it, and
    /// no label occurs twice.
    pub open spec fn wf(self) -> bool {
        &&& forall|i: int|
            0 <= i < self.entries().len() ==> (#[trigger] self.entries()[i]).id() == (SymbolId {
                registry: self.registry(),
                index: i as usize,
            })
        &&& forall|i: int, j: int|
            0 <= i < j < self.entries().len() ==> (#[trigger] self.entries()[i]).info().label@
                != (#[trigger] self.entries()[j]).info().label@
    }

    /// An empty registry. Symbols of registries made with different
    /// numbers are never equal.
    pub fn empty(registry: u64) -> (r: Self)
        ensures
            r.wf(),
            r.registry() == registry,
            r.entries() == Seq::<Symbol<Types>>::empty(),
    {
        SymbolsProvider { registry, symbols: Vec::new() }
    }

    fn position(&self, label: &String) -> (r: Option<usize>)
        ensures
            match r {
                Some(i) => i < self.entries().len() && self.entries()[i as int].info().label@
                    == label@,
                None => !self.knows(label@),
            },
    {
        let mut i: usize = 0;
        while i < self.symbols.len()
            invariant
                i <= self.symbols.len(),
                forall|j: int| 0 <= j < i ==> (#[trigger] self.entries()[j]).info().label@ != label@,
            decreases self.symbols.len() - i,
        {
            if *self.symbols[i].label() == *label {
                return Some(i);
            }
            i += 1;
        }
        None
    }

    /// Interns `info`: the symbol already interned under its label if
    /// there is one, else a new symbol, stored last.
    pub fn add(&mut self, info: SymbolInfo<Types>) -> (r: Symbol<Types>)
        requires
            old(self).wf(),
        ensures
            final(self).wf(),
            final(self).registry() == old(self).registry(),
            final(self).entries().contains(r),
            final(self).knows(info.label@),
            old(self).knows(info.label@) ==> final(self).entries() == old(self).entries()
                && old(self).entries().contains(r) && r.info().label@ == info.label@,
            !old(self).knows(info.label@) ==> final(self).entries() == old(self).entries().push(r)
                && r.info() == info && r.id() == (SymbolId {
                registry: old(self).registry(),
                index: old(self).entries().len() as usize,
            }),
    {
        match self.position(&info.label) {
            Some(i) => {
                let r = self.symbols[i].clone();
                assert(self.entries()[i as int] == r);
                r
            },
            None => {
                let id = SymbolId { registry: self.registry, index: self.symbols.len() };
                let symbol = Symbol::new(id, info);
                let r = symbol.clone();
                self.symbols.push(symbol);
                assert(self.entries()[self.entries().len() - 1] == r);
                r
            },
        }
    }

    /// The symbol interned under `label`, if there is one.
    pub fn get(&self, label: &str) -> (r: Option<Symbol<Types>>)
        ensures
            match r {
                Some(symbol) => self.entries().contains(symbol) && symbol.info().label@ == label@,
                None => !self.knows(label@),
            },
    {
        let owned = label.to_owned();
        match self.position(&owned) {
            Some(i) => Some(self.symbols[i].clone()),
            None => None,
        }
    }
}

/// Two symbols that one registry gave for one label are the same symbol.
pub proof fn lemma_one_symbol_per_label<Types: PolyTypes>(
    provider: SymbolsProvider<Types>,
    a: Symbol<Types>,
    b: Symbol<Types>,
)
    requires
        provider.wf(),
        provider.entries().contains(a),
        provider.entries().contains(b),
        a.info().label@ == b.info().label@,
    ensures
        a == b,
{
    let i = choose|i: int| 0 <= i < provider.entries().len() && provider.entries()[i] == a;
    let j = choose|j: int| 0 <= j < provider.entries().len() && provider.entries()[j] == b;
    if i < j {
        assert(provider.entries()[i].info().label@ != provider.entries()[j].info().label@);
    } else if j < i {
        assert(provider.entries()[j].info().label@ != provider.entries()[i].info().label@);
    }
}

/// Symbols of registries made with different numbers differ, whatever
/// their labels.
pub proof fn lemma_registries_apart<Types: PolyTypes>(
    first: SymbolsProvider<Types>,
    second: SymbolsProvider<Types>,
    a: Symbol<Types>,
    b: Symbol<Types>,
)
    requires
        first.wf(),
        second.wf(),
        first.registry() != second.registry(),
        first.entries().contains(a),
        second.entries().contains(b),
    ensures
        a.id() != b.id(),
{
    let i = choose|i: int| 0 <= i < first.entries().len() && first.entries()[i] == a;
    let j = choose|j: int| 0 <= j < second.entries().len() && second.entries()[j] == b;
    assert(first.entries()[i].id().registry == first.registry());
    assert(second.entries()[j].id().registry == second.registry());
}

} // verus!

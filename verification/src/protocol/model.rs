//! The syntax definitions of a FinTS protocol version: data element groups,
//! segments, segment sequences and messages, each with its children, preset
//! values and valid-value sets.

use vstd::prelude::*;
use crate::strmap::{lemma_map_of_len, StrMap};

verus! {

/// What a definition defines.
#[derive(Debug, Clone, Copy, PartialEq, Eq, Structural)]
pub enum DefinitionKind {
    Deg,
    Seg,
    Sf,
    Msg,
}

/// What a child of a definition refers to.
#[derive(Debug, Clone, Copy, PartialEq, Eq, Structural)]
pub enum SyntaxChildKind {
    De,
    Deg,
    Seg,
    Sf,
    EntityRef,
}

/// A child of a definition, with its occurrence and size attributes as written.
#[derive(Debug, Clone, PartialEq, Eq)]
pub struct SyntaxChild {
    pub kind: SyntaxChildKind,
    pub data_type: String,
    pub name: Option<String>,
    pub min_size: Option<String>,
    pub max_size: Option<String>,
    pub min_num: Option<String>,
    pub max_num: Option<String>,
}

/// A value preset for the element at a relative path.
#[derive(Debug, Clone, PartialEq, Eq)]
pub struct SyntaxValue {
    pub path: String,
    pub value: String,
}

/// The values allowed for the element at a relative path.
#[derive(Debug, Clone, PartialEq, Eq)]
pub struct SyntaxValidSet {
    pub path: String,
    pub values: Vec<String>,
}

/// One definition.
#[derive(Debug, Clone, PartialEq, Eq)]
pub struct SyntaxDefinition {
    pub id: String,
    pub kind: DefinitionKind,
    pub needs_request_tag: bool,
    pub dont_sign: bool,
    pub dont_crypt: bool,
    pub children: Vec<SyntaxChild>,
    pub values: Vec<SyntaxValue>,
    pub valids: Vec<SyntaxValidSet>,
}

impl SyntaxDefinition {
    /// A definition without attributes, children, values or valid sets.
    pub fn new(kind: DefinitionKind, id: String) -> (d: Self)
        ensures
            d.kind == kind,
            d.id == id,
            !d.needs_request_tag,
            !d.dont_sign,
            !d.dont_crypt,
            d.children@.len() == 0,
            d.values@.len() == 0,
            d.valids@.len() == 0,
    {
        SyntaxDefinition {
            id,
            kind,
            needs_request_tag: false,
            dont_sign: false,
            dont_crypt: false,
            children: Vec::new(),
            values: Vec::new(),
            valids: Vec::new(),
        }
    }
}

/// The definitions of one protocol version, by id.
pub struct ProtocolSyntax {
    version: String,
    definitions: StrMap<SyntaxDefinition>,
}

/// Number of definitions of a kind in a sequence.
pub open spec fn count_kind(defs: Seq<SyntaxDefinition>, kind: DefinitionKind) -> nat
    decreases defs.len(),
{
    if defs.len() == 0 {
        0
    } else {
        (if defs.last().kind == kind {
            1nat
        } else {
            0nat
        }) + count_kind(defs.drop_last(), kind)
    }
}

impl ProtocolSyntax {
    /// The protocol version.
    pub closed spec fn version_view(&self) -> Seq<char> {
        self.version@
    }

    /// The definitions by id.
    pub closed spec fn defs(&self) -> Map<Seq<char>, SyntaxDefinition> {
        self.definitions@
    }

    /// The definitions in ascending order of their ids.
    pub closed spec fn defs_in_order(&self) -> Seq<SyntaxDefinition> {
        self.definitions.vals_view()
    }

    /// Every definition is stored under its own id.
    pub closed spec fn ids_match(&self) -> bool {
        forall|k: Seq<char>| #[trigger] self.defs().contains_key(k) ==> self.defs()[k].id@ == k
    }

    /// A syntax without definitions.
    pub fn new(version: &str) -> (s: Self)
        ensures
            s.version_view() == version@,
            s.defs() == Map::<Seq<char>, SyntaxDefinition>::empty(),
            s.ids_match(),
    {
        ProtocolSyntax { version: version.to_owned(), definitions: StrMap::new() }
    }

    /// Adds a definition under its id, replacing one with the same id.
    pub fn add_definition(&mut self, definition: SyntaxDefinition)
        requires
            old(self).ids_match(),
        ensures
            final(self).version_view() == old(self).version_view(),
            final(self).defs() == old(self).defs().insert(definition.id@, definition),
            final(self).ids_match(),
    {
        let id = definition.id.clone();
        self.definitions.insert(id, definition);
    }

    /// A syntax holding the given definitions; a later one replaces an
    /// earlier one with the same id.
    pub fn from_definitions(version: &str, definitions: Vec<SyntaxDefinition>) -> (s: Self)
        ensures
            s.version_view() == version@,
            s.ids_match(),
            forall|i: int|
                0 <= i < definitions@.len() ==> #[trigger] s.defs().contains_key(
                    definitions@[i].id@,
                ),
            forall|k: Seq<char>|
                #[trigger] s.defs().contains_key(k) ==> exists|i: int|
                    0 <= i < definitions@.len() && definitions@[i].id@ == k,
    {
        let ghost all = definitions@;
        let mut rest = definitions;
        let mut s = ProtocolSyntax::new(version);
        while rest.len() > 0
            invariant
                all.len() >= rest@.len(),
                rest@ == all.skip(all.len() - rest@.len()),
                s.version_view() == version@,
                s.ids_match(),
                forall|j: int|
                    0 <= j < all.len() - rest@.len() ==> #[trigger] s.defs().contains_key(
                        all[j].id@,
                    ),
                forall|k: Seq<char>|
                    #[trigger] s.defs().contains_key(k) ==> exists|j: int|
                        0 <= j < all.len() - rest@.len() && all[j].id@ == k,
            decreases rest@.len(),
        {
            let ghost done = all.len() - rest@.len();
            let d = rest.remove(0);
            assert(d == all[done]);
            assert(rest@ =~= all.skip(all.len() - rest@.len()));
            s.add_definition(d);
            assert forall|k: Seq<char>| #[trigger] s.defs().contains_key(k) implies exists|j: int|
                0 <= j < all.len() - rest@.len() && all[j].id@ == k by {
                if k != all[done].id@ {
                    let j = choose|j: int| 0 <= j < done && all[j].id@ == k;
                    assert(0 <= j < all.len() - rest@.len() && all[j].id@ == k);
                } else {
                    assert(all[done].id@ == k);
                }
            }
        }
        assert(all.len() - rest@.len() == definitions@.len());
        s
    }

    pub fn version(&self) -> (v: &str)
        ensures
            v@ == self.version_view(),
    {
        self.version.as_str()
    }

    /// The definition with the given id.
    pub fn definition(&self, id: &str) -> (r: Option<&SyntaxDefinition>)
        ensures
            r matches Some(d) ==> self.defs().contains_key(id@) && *d == self.defs()[id@],
            r is None ==> !self.defs().contains_key(id@),
    {
        self.definitions.get(id)
    }

    /// Number of definitions.
    pub fn definitions_len(&self) -> (n: usize)
        ensures
            n == self.defs().len(),
            self.defs().dom().finite(),
    {
        self.definitions.check_well_formed();
        proof {
            lemma_map_of_len(self.definitions.keys_view(), self.definitions.vals_view());
        }
        self.definitions.len()
    }

    /// All definitions, in ascending order of their ids.
    pub fn definitions(&self) -> (r: Vec<&SyntaxDefinition>)
        ensures
            r@.len() == self.defs_in_order().len(),
            forall|i: int| 0 <= i < r@.len() ==> *r@[i] == self.defs_in_order()[i],
    {
        self.definitions.check_well_formed();
        let mut r: Vec<&SyntaxDefinition> = Vec::new();
        let mut i: usize = 0;
        let n = self.definitions.len();
        while i < n
            invariant
                n == self.definitions.size(),
                self.definitions.well_formed(),
                i <= n,
                r@.len() == i,
                forall|j: int| 0 <= j < i ==> *r@[j] == self.defs_in_order()[j],
            decreases n - i,
        {
            r.push(self.definitions.value_at(i));
            i += 1;
        }
        r
    }

    /// Number of definitions of the given kind.
    pub fn definition_count(&self, kind: DefinitionKind) -> (n: usize)
        ensures
            n == count_kind(self.defs_in_order(), kind),
    {
        self.definitions.check_well_formed();
        let total = self.definitions.len();
        let mut n: usize = 0;
        let mut i: usize = 0;
        while i < total
            invariant
                total == self.definitions.size(),
                self.definitions.well_formed(),
                i <= total,
                n == count_kind(self.defs_in_order().take(i as int), kind),
                n <= i,
            decreases total - i,
        {
            let d = self.definitions.value_at(i);
            assert(self.defs_in_order().take(i + 1).drop_last() =~= self.defs_in_order().take(
                i as int,
            ));
            if d.kind == kind {
                n += 1;
            }
            i += 1;
        }
        assert(self.defs_in_order().take(total as int) =~= self.defs_in_order());
        n
    }
}

} // verus!

//! The registry: named type definitions and declared extension names.

use vstd::prelude::*;

use crate::context::ContextM;
use crate::marshal::{arg_type_spec, res_type_spec, GenError, Resolved};
use crate::text::same_text;
use crate::types::{flattens, Type, TypeKind};

verus! {

/// A field of a dictionary.
#[derive(Debug)]
pub struct Field {
    pub type_: Type,
}

/// A dictionary: a record of named fields, possibly inheriting another one.
#[derive(Debug)]
pub struct Dictionary {
    pub is_hidden: bool,
    pub inherits: Option<String>,
    pub fields: Vec<(String, Field)>,
}

/// An enumeration over raw string tags.
#[derive(Debug)]
pub struct Enum {
    pub variants: Vec<String>,
}

/// An argument of an operation or callback.
#[derive(Debug)]
pub struct Argument {
    pub name: String,
    pub type_: Type,
}

/// A callback type.
#[derive(Debug)]
pub struct Callback {
    pub args: Vec<Argument>,
    pub return_type: Option<Type>,
}

/// A constant member.
#[derive(Debug)]
pub struct Const {
    pub type_: Type,
    pub value: String,
}

/// An attribute member, with its accessors.
#[derive(Debug)]
pub struct Attribute {
    pub type_: Type,
    pub getter: bool,
    pub setter: bool,
}

/// An operation member.
#[derive(Debug)]
pub struct Operation {
    pub args: Vec<Argument>,
    pub return_type: Option<Type>,
    pub doc_comment: String,
}

/// A member of an interface.
#[derive(Debug)]
pub enum Member {
    Const(Const),
    Attribute(Attribute),
    Operation(Operation),
}

/// A set of members that interfaces include.
#[derive(Debug)]
pub struct Mixin {
    pub members: Vec<(String, Vec<Member>)>,
}

/// An interface: an opaque handle type with members.
#[derive(Debug)]
pub struct Interface {
    pub doc_comment: String,
    pub is_hidden: bool,
    pub has_class: bool,
    pub rendering_context: Option<String>,
    pub inherits: Option<String>,
    pub members: Vec<(String, Vec<Member>)>,
}

/// A named type definition.
#[derive(Debug)]
pub enum NamedType {
    Dictionary(Dictionary),
    Interface(Interface),
    Enum(Enum),
    Typedef(Type),
    Callback(Callback),
    Mixin(Mixin),
}

/// The named type definitions of an API and its declared extension names.
#[derive(Debug)]
pub struct Registry {
    pub types: Vec<(String, NamedType)>,
    pub extensions: Vec<String>,
}

/// The definition of `n` among `es`: the last entry that carries that name.
pub open spec fn find_def(es: Seq<(String, NamedType)>, n: Seq<char>) -> Option<NamedType>
    decreases es.len(),
{
    if es.len() == 0 {
        None
    } else if es.last().0@ == n {
        Some(es.last().1)
    } else {
        find_def(es.drop_last(), n)
    }
}

/// Whether argument resolution of `t` from context `g` ends.
pub open spec fn arg_resolves(reg: Registry, t: Type, g: ContextM) -> bool {
    exists|f: nat| !(#[trigger] arg_type_spec(reg, t, g, f) is OutOfFuel)
}

/// Whether result resolution of `t` ends.
pub open spec fn res_resolves(reg: Registry, t: Type) -> bool {
    exists|f: nat| !(#[trigger] res_type_spec(reg, t, f) is OutOfFuel)
}

/// Whether field collection of `d` through its ancestors ends.
pub open spec fn fields_resolve(reg: Registry, d: Dictionary) -> bool {
    exists|f: nat| !(#[trigger] fields_spec(reg, d, f) is OutOfFuel)
}

/// Whether member collection of `i` through its ancestors ends.
pub open spec fn members_resolve(reg: Registry, i: Interface) -> bool {
    exists|f: nat| !(#[trigger] members_spec(reg, i, f) is OutOfFuel)
}

impl Registry {
    /// A well-formed registry: each name is registered once, and alias
    /// chains are acyclic, so that flattening and resolution of every type
    /// through them end.
    pub open spec fn wf(&self) -> bool {
        &&& forall|i: int, j: int|
            0 <= i < j < self.types@.len() ==> #[trigger] self.types@[i].0@
                != #[trigger] self.types@[j].0@
        &&& forall|k: TypeKind| #[trigger] flattens(*self, k)
        &&& forall|t: Type, g: ContextM| #[trigger] arg_resolves(*self, t, g)
        &&& forall|t: Type| #[trigger] res_resolves(*self, t)
        &&& forall|d: Dictionary| #[trigger] fields_resolve(*self, d)
        &&& forall|i: Interface| #[trigger] members_resolve(*self, i)
    }

    /// The definition registered under `n`, if any.
    pub open spec fn lookup(&self, n: Seq<char>) -> Option<NamedType> {
        find_def(self.types@, n)
    }

    /// Resolve a name to its definition; `None` where nothing is registered
    /// under it.
    pub fn resolve_type(&self, name: &str) -> (r: Option<&NamedType>)
        ensures
            match r {
                Some(d) => self.lookup(name@) == Some(*d),
                None => self.lookup(name@) is None,
            },
    {
        let mut i: usize = self.types.len();
        assert(self.types@.take(i as int) =~= self.types@);
        while i > 0
            invariant
                i <= self.types@.len(),
                find_def(self.types@.take(i as int), name@) == self.lookup(name@),
            decreases i,
        {
            assert(self.types@.take(i as int).drop_last() =~= self.types@.take(i - 1));
            if same_text(self.types[i - 1].0.as_str(), name) {
                return Some(&self.types[i - 1].1);
            }
            i = i - 1;
        }
        None
    }
}

/// A collected field: its name and its definition.
pub type FieldM = (Seq<char>, Field);

/// A collected group of members: their name and the members.
pub type MembersM = (Seq<char>, Vec<Member>);

/// The entry named `n` among `fs`: the last one of that name.
pub open spec fn find_entry<V>(fs: Seq<(Seq<char>, V)>, n: Seq<char>) -> Option<V>
    decreases fs.len(),
{
    if fs.len() == 0 {
        None
    } else if fs.last().0 == n {
        Some(fs.last().1)
    } else {
        find_entry(fs.drop_last(), n)
    }
}

/// Whether no two of `fs` have the same name.
pub open spec fn names_unique<V>(fs: Seq<(Seq<char>, V)>) -> bool {
    forall|i: int, j: int| 0 <= i < j < fs.len() ==> #[trigger] fs[i].0 != #[trigger] fs[j].0
}

/// `fs` with the entry `n` set to `f`: in place where `fs` has an entry of
/// that name, else at the end.
pub open spec fn set_entry<V>(fs: Seq<(Seq<char>, V)>, n: Seq<char>, f: V) -> Seq<(Seq<char>, V)> {
    if exists|i: int| 0 <= i < fs.len() && fs[i].0 == n {
        fs.update(choose|i: int| 0 <= i < fs.len() && fs[i].0 == n, (n, f))
    } else {
        fs.push((n, f))
    }
}

/// The entries of `base`, overridden or extended by the declared entries `own` in order.
pub open spec fn merge_entries<V>(base: Seq<(Seq<char>, V)>, own: Seq<(String, V)>) -> Seq<(Seq<char>, V)>
    decreases own.len(),
{
    if own.len() == 0 {
        base
    } else {
        set_entry(merge_entries(base, own.drop_last()), own.last().0@, own.last().1)
    }
}

/// The fields of `d` with those of its ancestors, within `fuel` levels of
/// inheritance: the inherited ones first, each shadowed in place by a
/// declared field of the same name, then the other declared fields.
pub open spec fn fields_spec(reg: Registry, d: Dictionary, fuel: nat) -> Resolved<Seq<FieldM>>
    decreases fuel,
{
    if fuel == 0 {
        Resolved::OutOfFuel
    } else {
        match d.inherits {
            None => Resolved::Done(merge_entries(Seq::empty(), d.fields@)),
            Some(parent) => match reg.lookup(parent@) {
                Some(NamedType::Dictionary(pd)) => match fields_spec(reg, pd, (fuel - 1) as nat) {
                    Resolved::Done(base) => Resolved::Done(merge_entries(base, d.fields@)),
                    other => other,
                },
                Some(_) => Resolved::Fatal(GenError::InheritsOtherKind),
                None => Resolved::Fatal(GenError::UnresolvedName),
            },
        }
    }
}

/// The outcome of collecting the fields of `d`.
pub open spec fn fields_outcome(reg: Registry, d: Dictionary) -> Resolved<Seq<FieldM>> {
    fields_spec(reg, d, choose|f: nat| !(#[trigger] fields_spec(reg, d, f) is OutOfFuel))
}

/// The entry of a name in a sequence of unique names is the one at its index.
proof fn lemma_find_entry_at<V>(fs: Seq<(Seq<char>, V)>, i: int)
    requires
        names_unique(fs),
        0 <= i < fs.len(),
    ensures
        find_entry(fs, fs[i].0) == Some(fs[i].1),
    decreases fs.len(),
{
    if i < fs.len() - 1 {
        assert(fs.last().0 != fs[i].0);
        assert(fs.drop_last()[i] == fs[i]);
        lemma_find_entry_at(fs.drop_last(), i);
    }
}

/// A name that no entry carries has no entry.
proof fn lemma_find_entry_absent<V>(fs: Seq<(Seq<char>, V)>, n: Seq<char>)
    requires
        forall|i: int| 0 <= i < fs.len() ==> (#[trigger] fs[i]).0 != n,
    ensures
        find_entry(fs, n) is None,
    decreases fs.len(),
{
    if fs.len() > 0 {
        assert(fs.last() == fs[fs.len() - 1]);
        assert forall|i: int| 0 <= i < fs.len() - 1 implies (#[trigger] fs.drop_last()[i]).0 != n by {
            assert(fs.drop_last()[i] == fs[i]);
        }
        lemma_find_entry_absent(fs.drop_last(), n);
    }
}

/// The entry of each name in a sequence of unique names.
proof fn lemma_find_entry<V>(fs: Seq<(Seq<char>, V)>, n: Seq<char>)
    requires
        names_unique(fs),
    ensures
        (exists|i: int| 0 <= i < fs.len() && fs[i].0 == n) ==> find_entry(fs, n)
            == Some(fs[choose|i: int| 0 <= i < fs.len() && fs[i].0 == n].1),
        !(exists|i: int| 0 <= i < fs.len() && fs[i].0 == n) ==> find_entry(fs, n) is None,
{
    if exists|i: int| 0 <= i < fs.len() && fs[i].0 == n {
        let i = choose|i: int| 0 <= i < fs.len() && fs[i].0 == n;
        lemma_find_entry_at(fs, i);
    } else {
        lemma_find_entry_absent(fs, n);
    }
}

/// Setting an entry keeps names unique, sets that entry and no other.
proof fn lemma_set_entry<V>(fs: Seq<(Seq<char>, V)>, n: Seq<char>, f: V, m: Seq<char>)
    requires
        names_unique(fs),
    ensures
        names_unique(set_entry(fs, n, f)),
        find_entry(set_entry(fs, n, f), m) == if m == n {
            Some(f)
        } else {
            find_entry(fs, m)
        },
{
    let r = set_entry(fs, n, f);
    if exists|i: int| 0 <= i < fs.len() && fs[i].0 == n {
        let i = choose|i: int| 0 <= i < fs.len() && fs[i].0 == n;
        assert(names_unique(r)) by {
            assert forall|a: int, b: int| 0 <= a < b < r.len() implies #[trigger] r[a].0 != #[trigger] r[b].0 by {
                assert(fs[a].0 != fs[b].0);
            }
        }
        lemma_find_entry(fs, m);
        lemma_find_entry(r, m);
        if m == n {
            lemma_find_entry_at(r, i);
        } else if exists|j: int| 0 <= j < fs.len() && fs[j].0 == m {
            let j = choose|j: int| 0 <= j < fs.len() && fs[j].0 == m;
            assert(j != i);
            assert(r[j] == fs[j]);
            lemma_find_entry_at(r, j);
        } else {
            assert forall|j: int| 0 <= j < r.len() implies (#[trigger] r[j]).0 != m by {
                if j != i {
                    assert(r[j] == fs[j]);
                }
            }
            lemma_find_entry_absent(r, m);
        }
    } else {
        assert(names_unique(r)) by {
            assert forall|a: int, b: int| 0 <= a < b < r.len() implies #[trigger] r[a].0 != #[trigger] r[b].0 by {
                if b == fs.len() {
                    assert(r[a] == fs[a]);
                } else {
                    assert(fs[a].0 != fs[b].0);
                }
            }
        }
        assert(r.drop_last() =~= fs);
    }
}

/// Merging keeps names unique; a declared entry shadows an inherited one of
/// the same name, and every other name keeps its inherited entry.
proof fn lemma_merge_entries<V>(base: Seq<(Seq<char>, V)>, own: Seq<(String, V)>, m: Seq<char>)
    requires
        names_unique(base),
    ensures
        names_unique(merge_entries(base, own)),
        find_entry(merge_entries(base, own), m) == match find_declared(own, m) {
            Some(f) => Some(f),
            None => find_entry(base, m),
        },
    decreases own.len(),
{
    if own.len() > 0 {
        lemma_merge_entries(base, own.drop_last(), m);
        lemma_set_entry(merge_entries(base, own.drop_last()), own.last().0@, own.last().1, m);
    }
}

/// The declared entry named `n` among `own`: the last one of that name.
pub open spec fn find_declared<V>(own: Seq<(String, V)>, n: Seq<char>) -> Option<V>
    decreases own.len(),
{
    if own.len() == 0 {
        None
    } else if own.last().0@ == n {
        Some(own.last().1)
    } else {
        find_declared(own.drop_last(), n)
    }
}

/// Field collection within `fuel` levels: its names are unique, and a
/// declared field shadows an inherited one of the same name.
proof fn lemma_collect_fields_union(reg: Registry, d: Dictionary, fuel: nat, n: Seq<char>)
    requires
        fields_spec(reg, d, fuel) is Done,
    ensures
        names_unique(fields_spec(reg, d, fuel)->Done_0),
        find_entry(fields_spec(reg, d, fuel)->Done_0, n) == match find_declared(d.fields@, n) {
            Some(f) => Some(f),
            None => match d.inherits {
                None => None,
                Some(parent) => match reg.lookup(parent@) {
                    Some(NamedType::Dictionary(pd)) => find_entry(
                        fields_spec(reg, pd, (fuel - 1) as nat)->Done_0,
                        n,
                    ),
                    _ => None,
                },
            },
        },
    decreases fuel,
{
    match d.inherits {
        None => {
            lemma_merge_entries(Seq::empty(), d.fields@, n);
        },
        Some(parent) => match reg.lookup(parent@) {
            Some(NamedType::Dictionary(pd)) => {
                lemma_collect_fields_union(reg, pd, (fuel - 1) as nat, n);
                lemma_merge_entries(fields_spec(reg, pd, (fuel - 1) as nat)->Done_0, d.fields@, n);
            },
            _ => {},
        },
    }
}

/// The model of collected references to named entries.
pub open spec fn field_refs<V>(v: Seq<(&String, &V)>) -> Seq<(Seq<char>, V)> {
    v.map_values(|p: (&String, &V)| (p.0@, *p.1))
}

/// Set the entry `n` to `f`, in place where an entry of that name is, else at the end.
fn set_entry_ref<'a, V>(fs: &mut Vec<(&'a String, &'a V)>, n: &'a String, f: &'a V)
    requires
        names_unique(field_refs(old(fs)@)),
    ensures
        field_refs(final(fs)@) == set_entry(field_refs(old(fs)@), n@, *f),
{
    let ghost before = field_refs(fs@);
    let mut i: usize = 0;
    while i < fs.len()
        invariant
            fs@ == old(fs)@,
            before == field_refs(fs@),
            names_unique(before),
            i <= fs@.len(),
            forall|j: int| 0 <= j < i ==> (#[trigger] before[j]).0 != n@,
        decreases fs@.len() - i,
    {
        if same_text(fs[i].0.as_str(), n.as_str()) {
            proof {
                assert(before[i as int].0 == n@);
                let c = choose|c: int| 0 <= c < before.len() && before[c].0 == n@;
                if c != i {
                    if c < i {
                        assert(before[c].0 != before[i as int].0);
                    } else {
                        assert(before[i as int].0 != before[c].0);
                    }
                }
            }
            fs.set(i, (n, f));
            assert(field_refs(fs@) =~= before.update(i as int, (n@, *f)));
            return;
        }
        i = i + 1;
    }
    fs.push((n, f));
    assert(field_refs(fs@) =~= before.push((n@, *f)));
}

impl Dictionary {
    fn collect_fields_fuel<'a>(&'a self, registry: &'a Registry, Ghost(fuel): Ghost<nat>) -> (r:
        Result<Vec<(&'a String, &'a Field)>, GenError>)
        requires
            !(fields_spec(*registry, *self, fuel) is OutOfFuel),
        ensures
            match r {
                Ok(v) => fields_spec(*registry, *self, fuel) == Resolved::Done(field_refs(v@)),
                Err(e) => fields_spec(*registry, *self, fuel) == Resolved::<Seq<FieldM>>::Fatal(e),
            },
        decreases fuel,
    {
        let mut fields: Vec<(&'a String, &'a Field)> = match &self.inherits {
            None => Vec::new(),
            Some(parent) => match registry.resolve_type(parent.as_str()) {
                Some(NamedType::Dictionary(pd)) => {
                    match pd.collect_fields_fuel(registry, Ghost((fuel - 1) as nat)) {
                        Ok(v) => {
                            proof {
                                lemma_collect_fields_union(*registry, *pd, (fuel - 1) as nat, Seq::empty());
                            }
                            v
                        },
                        Err(e) => {
                            return Err(e);
                        },
                    }
                },
                Some(_) => {
                    return Err(GenError::InheritsOtherKind);
                },
                None => {
                    return Err(GenError::UnresolvedName);
                },
            },
        };
        let ghost base = field_refs(fields@);
        assert(names_unique(base)) by {
            if self.inherits is None {
                assert(base.len() == 0);
            }
        }
        assert(fields_spec(*registry, *self, fuel) == Resolved::Done(merge_entries(base, self.fields@)))
            by {
            if self.inherits is None {
                assert(base =~= Seq::<FieldM>::empty());
            }
        }
        let mut i: usize = 0;
        assert(merge_entries(base, self.fields@.take(0)) == base);
        while i < self.fields.len()
            invariant
                i <= self.fields@.len(),
                field_refs(fields@) == merge_entries(base, self.fields@.take(i as int)),
                names_unique(field_refs(fields@)),
            decreases self.fields@.len() - i,
        {
            let ghost cur = field_refs(fields@);
            set_entry_ref(&mut fields, &self.fields[i].0, &self.fields[i].1);
            proof {
                assert(self.fields@.take(i + 1).drop_last() =~= self.fields@.take(i as int));
                lemma_set_entry(cur, self.fields@[i as int].0@, self.fields@[i as int].1, Seq::empty());
            }
            i = i + 1;
        }
        assert(self.fields@.take(i as int) =~= self.fields@);
        Ok(fields)
    }

    /// The fields of this dictionary together with those it inherits: the
    /// inherited ones first, each shadowed in place by a declared field of the
    /// same name, then the other declared fields. A fatal configuration error
    /// where an ancestor is missing or is not a dictionary.
    pub fn collect_fields<'a>(&'a self, registry: &'a Registry) -> (r: Result<
        Vec<(&'a String, &'a Field)>,
        GenError,
    >)
        requires
            registry.wf(),
        ensures
            match r {
                Ok(v) => fields_outcome(*registry, *self) == Resolved::Done(field_refs(v@)),
                Err(e) => fields_outcome(*registry, *self) == Resolved::<Seq<FieldM>>::Fatal(e),
            },
    {
        assert(fields_resolve(*registry, *self));
        let ghost f = choose|f: nat| !(#[trigger] fields_spec(*registry, *self, f) is OutOfFuel);
        self.collect_fields_fuel(registry, Ghost(f))
    }
}

/// The members of `i` with those of its ancestors, grouped by name, within
/// `fuel` levels of inheritance: the inherited groups first, each replaced in
/// place by a declared group of the same name, then the other declared groups.
pub open spec fn members_spec(reg: Registry, i: Interface, fuel: nat) -> Resolved<Seq<MembersM>>
    decreases fuel,
{
    if fuel == 0 {
        Resolved::OutOfFuel
    } else {
        match i.inherits {
            None => Resolved::Done(merge_entries(Seq::empty(), i.members@)),
            Some(parent) => match reg.lookup(parent@) {
                Some(NamedType::Interface(pi)) => match members_spec(reg, pi, (fuel - 1) as nat) {
                    Resolved::Done(base) => Resolved::Done(merge_entries(base, i.members@)),
                    other => other,
                },
                Some(_) => Resolved::Fatal(GenError::InheritsOtherKind),
                None => Resolved::Fatal(GenError::UnresolvedName),
            },
        }
    }
}

/// The outcome of collecting the members of `i`.
pub open spec fn members_outcome(reg: Registry, i: Interface) -> Resolved<Seq<MembersM>> {
    members_spec(reg, i, choose|f: nat| !(#[trigger] members_spec(reg, i, f) is OutOfFuel))
}

/// The collected member groups of an interface have unique names; a declared
/// group replaces an inherited one of the same name.
proof fn lemma_collect_members_union(reg: Registry, i: Interface, fuel: nat, n: Seq<char>)
    requires
        members_spec(reg, i, fuel) is Done,
    ensures
        names_unique(members_spec(reg, i, fuel)->Done_0),
        find_entry(members_spec(reg, i, fuel)->Done_0, n) == match find_declared(i.members@, n) {
            Some(m) => Some(m),
            None => match i.inherits {
                None => None,
                Some(parent) => match reg.lookup(parent@) {
                    Some(NamedType::Interface(pi)) => find_entry(
                        members_spec(reg, pi, (fuel - 1) as nat)->Done_0,
                        n,
                    ),
                    _ => None,
                },
            },
        },
    decreases fuel,
{
    match i.inherits {
        None => {
            lemma_merge_entries(Seq::<MembersM>::empty(), i.members@, n);
        },
        Some(parent) => match reg.lookup(parent@) {
            Some(NamedType::Interface(pi)) => {
                lemma_collect_members_union(reg, pi, (fuel - 1) as nat, n);
                lemma_merge_entries(members_spec(reg, pi, (fuel - 1) as nat)->Done_0, i.members@, n);
            },
            _ => {},
        },
    }
}

impl Interface {
    fn collect_members_fuel<'a>(&'a self, registry: &'a Registry, Ghost(fuel): Ghost<nat>) -> (r:
        Result<Vec<(&'a String, &'a Vec<Member>)>, GenError>)
        requires
            !(members_spec(*registry, *self, fuel) is OutOfFuel),
        ensures
            match r {
                Ok(v) => members_spec(*registry, *self, fuel) == Resolved::Done(field_refs(v@)),
                Err(e) => members_spec(*registry, *self, fuel) == Resolved::<Seq<MembersM>>::Fatal(e),
            },
        decreases fuel,
    {
        let mut members: Vec<(&'a String, &'a Vec<Member>)> = match &self.inherits {
            None => Vec::new(),
            Some(parent) => match registry.resolve_type(parent.as_str()) {
                Some(NamedType::Interface(pi)) => {
                    match pi.collect_members_fuel(registry, Ghost((fuel - 1) as nat)) {
                        Ok(v) => {
                            proof {
                                lemma_collect_members_union(*registry, *pi, (fuel - 1) as nat, Seq::empty());
                            }
                            v
                        },
                        Err(e) => {
                            return Err(e);
                        },
                    }
                },
                Some(_) => {
                    return Err(GenError::InheritsOtherKind);
                },
                None => {
                    return Err(GenError::UnresolvedName);
                },
            },
        };
        let ghost base = field_refs(members@);
        assert(names_unique(base)) by {
            if self.inherits is None {
                assert(base.len() == 0);
            }
        }
        assert(members_spec(*registry, *self, fuel) == Resolved::Done(merge_entries(base, self.members@)))
            by {
            if self.inherits is None {
                assert(base =~= Seq::<MembersM>::empty());
            }
        }
        let mut i: usize = 0;
        assert(merge_entries(base, self.members@.take(0)) == base);
        while i < self.members.len()
            invariant
                i <= self.members@.len(),
                field_refs(members@) == merge_entries(base, self.members@.take(i as int)),
                names_unique(field_refs(members@)),
            decreases self.members@.len() - i,
        {
            let ghost cur = field_refs(members@);
            set_entry_ref(&mut members, &self.members[i].0, &self.members[i].1);
            proof {
                assert(self.members@.take(i + 1).drop_last() =~= self.members@.take(i as int));
                lemma_set_entry(cur, self.members@[i as int].0@, self.members@[i as int].1, Seq::empty());
            }
            i = i + 1;
        }
        assert(self.members@.take(i as int) =~= self.members@);
        Ok(members)
    }

    /// The members of this interface together with those it inherits, grouped
    /// by name: the inherited groups first, each replaced in place by a
    /// declared group of the same name, then the other declared groups. A
    /// fatal configuration error where an ancestor is missing or is not an
    /// interface.
    pub fn collect_members<'a>(&'a self, registry: &'a Registry) -> (r: Result<
        Vec<(&'a String, &'a Vec<Member>)>,
        GenError,
    >)
        requires
            registry.wf(),
        ensures
            match r {
                Ok(v) => members_outcome(*registry, *self) == Resolved::Done(field_refs(v@)),
                Err(e) => members_outcome(*registry, *self) == Resolved::<Seq<MembersM>>::Fatal(e),
            },
    {
        assert(members_resolve(*registry, *self));
        let ghost f = choose|f: nat| !(#[trigger] members_spec(*registry, *self, f) is OutOfFuel);
        self.collect_members_fuel(registry, Ghost(f))
    }
}

/// More fuel than needed does not change field collection.
proof fn lemma_fields_fuel_mono(reg: Registry, d: Dictionary, f1: nat, f2: nat)
    requires
        !(fields_spec(reg, d, f1) is OutOfFuel),
        f1 <= f2,
    ensures
        fields_spec(reg, d, f2) == fields_spec(reg, d, f1),
    decreases f1,
{
    if let Some(parent) = d.inherits {
        if let Some(NamedType::Dictionary(pd)) = reg.lookup(parent@) {
            lemma_fields_fuel_mono(reg, pd, (f1 - 1) as nat, (f2 - 1) as nat);
        }
    }
}

/// The collected fields of a dictionary are exactly its declared fields and
/// those of its ancestors: no name twice, a declared field shadowing an
/// inherited one of the same name, every other name keeping the field of the
/// nearest ancestor that declares it.
pub proof fn lemma_collect_fields_law(reg: Registry, d: Dictionary, n: Seq<char>)
    requires
        reg.wf(),
        fields_outcome(reg, d) is Done,
    ensures
        names_unique(fields_outcome(reg, d)->Done_0),
        find_entry(fields_outcome(reg, d)->Done_0, n) == match find_declared(d.fields@, n) {
            Some(f) => Some(f),
            None => match d.inherits {
                None => None,
                Some(parent) => match reg.lookup(parent@) {
                    Some(NamedType::Dictionary(pd)) => find_entry(fields_outcome(reg, pd)->Done_0, n),
                    _ => None,
                },
            },
        },
{
    assert(fields_resolve(reg, d));
    let f = choose|f: nat| !(#[trigger] fields_spec(reg, d, f) is OutOfFuel);
    lemma_collect_fields_union(reg, d, f, n);
    if let Some(parent) = d.inherits {
        if let Some(NamedType::Dictionary(pd)) = reg.lookup(parent@) {
            assert(fields_resolve(reg, pd));
            let g = choose|g: nat| !(#[trigger] fields_spec(reg, pd, g) is OutOfFuel);
            let h = (f - 1) as nat;
            if g <= h {
                lemma_fields_fuel_mono(reg, pd, g, h);
            } else {
                lemma_fields_fuel_mono(reg, pd, h, g);
            }
        }
    }
}

} // verus!

//! The generic context of one member: fresh type-parameter names and the
//! constraints on them.

use vstd::prelude::*;
use vstd::relations::injective_on;
use vstd::set_lib::{lemma_int_range, lemma_len_subset, lemma_map_size, set_int_range};

use crate::text::{
    decimal, decimal_text, join, join_texts, lemma_decimal_injective, same_text, text_less, text_lt,
    texts,
};

verus! {

/// The `i`-th candidate for a parameter that prefers the name `d`.
pub open spec fn candidate(d: Seq<char>, i: nat) -> Seq<char> {
    d + decimal(i)
}

/// Whether `i` is the first candidate index whose name is not yet taken.
pub open spec fn is_first_free(names: Seq<Seq<char>>, d: Seq<char>, i: nat) -> bool {
    &&& !names.contains(candidate(d, i))
    &&& forall|j: nat| j < i ==> names.contains(#[trigger] candidate(d, j))
}

/// The first candidate index whose name is not yet taken.
pub open spec fn first_free(names: Seq<Seq<char>>, d: Seq<char>) -> nat {
    choose|i: nat| is_first_free(names, d, i)
}

/// `x` inserted into `s` before the first text that it precedes.
pub open spec fn insert_sorted(s: Seq<Seq<char>>, x: Seq<char>) -> Seq<Seq<char>>
    decreases s.len(),
{
    if s.len() == 0 {
        seq![x]
    } else if text_less(x, s[0]) {
        seq![x] + s
    } else {
        seq![s[0]] + insert_sorted(s.drop_first(), x)
    }
}

/// The model of a generic context: its parameter names, in order, and its
/// constraints, in the order they were added.
pub struct ContextM {
    pub args: Seq<Seq<char>>,
    pub constraints: Seq<Seq<char>>,
}

impl ContextM {
    /// The context of a member before anything is allocated.
    pub open spec fn empty() -> ContextM {
        ContextM { args: Seq::empty(), constraints: Seq::empty() }
    }

    /// Allocate a parameter that prefers the name `d`: the preferred name with
    /// the smallest numeric suffix not yet taken. Returns the name and the
    /// context after the allocation.
    pub open spec fn allocate(self, d: Seq<char>) -> (Seq<char>, ContextM) {
        let n = candidate(d, first_free(self.args, d));
        (n, ContextM { args: insert_sorted(self.args, n), constraints: self.constraints })
    }

    /// The context with one more constraint.
    pub open spec fn constrain(self, c: Seq<char>) -> ContextM {
        ContextM { args: self.args, constraints: self.constraints.push(c) }
    }

    /// The parameter list: empty, or the names in angle brackets.
    pub open spec fn params_text(self) -> Seq<char> {
        if self.args.len() == 0 {
            Seq::empty()
        } else {
            "<"@ + join(self.args, ", "@) + ">"@
        }
    }

    /// The constraint clause: empty, or the constraints after ` where `.
    pub open spec fn where_text(self) -> Seq<char> {
        if self.constraints.len() == 0 {
            Seq::empty()
        } else {
            " where "@ + join(self.constraints, ", "@)
        }
    }
}

/// The candidates that are taken are no more than the names.
proof fn lemma_taken_bound(names: Seq<Seq<char>>, d: Seq<char>, m: nat)
    requires
        forall|j: nat| j < m ==> names.contains(#[trigger] candidate(d, j)),
    ensures
        m <= names.len(),
{
    let x = set_int_range(0, m as int);
    let f = |j: int| choose|k: int| 0 <= k < names.len() && names[k] == candidate(d, j as nat);
    let y = x.map(f);
    lemma_int_range(0, m as int);
    lemma_int_range(0, names.len() as int);
    assert forall|j: int| x.contains(j) implies 0 <= f(j) < names.len() && names[f(j)] == candidate(
        d,
        j as nat,
    ) by {
        assert(names.contains(candidate(d, j as nat)));
    }
    assert forall|a: int, b: int| x.contains(a) && x.contains(b) && #[trigger] f(a) == #[trigger] f(b)
        implies a == b by {
        let ca = candidate(d, a as nat);
        let cb = candidate(d, b as nat);
        assert(ca == cb);
        assert(decimal(a as nat) =~= ca.skip(d.len() as int));
        assert(decimal(b as nat) =~= cb.skip(d.len() as int));
        lemma_decimal_injective(a as nat, b as nat);
    }
    assert(injective_on(f, x));
    lemma_map_size(x, y, f);
    assert(y.subset_of(set_int_range(0, names.len() as int)));
    lemma_len_subset(y, set_int_range(0, names.len() as int));
}

/// Some candidate is free, and the first free one is unique.
pub proof fn lemma_first_free(names: Seq<Seq<char>>, d: Seq<char>, i: nat)
    requires
        is_first_free(names, d, i),
    ensures
        first_free(names, d) == i,
{
    let k = first_free(names, d);
    assert(is_first_free(names, d, k));
    if k < i {
        assert(names.contains(candidate(d, k)));
    } else if i < k {
        assert(names.contains(candidate(d, i)));
    }
}

/// Inserting at the first position whose text `x` precedes is `insert_sorted`.
proof fn lemma_insert_at(s: Seq<Seq<char>>, x: Seq<char>, p: int)
    requires
        0 <= p <= s.len(),
        forall|j: int| 0 <= j < p ==> !text_less(x, #[trigger] s[j]),
        p == s.len() || text_less(x, s[p]),
    ensures
        insert_sorted(s, x) == s.insert(p, x),
    decreases p,
{
    if p == 0 {
        assert(insert_sorted(s, x) =~= s.insert(p, x));
    } else {
        let t = s.drop_first();
        assert forall|j: int| 0 <= j < p - 1 implies !text_less(x, #[trigger] t[j]) by {
            assert(t[j] == s[j + 1]);
        }
        lemma_insert_at(t, x, p - 1);
        assert(seq![s[0]] + t.insert(p - 1, x) =~= s.insert(p, x));
    }
}

/// Whether a text is among the strings.
fn contains_text(v: &Vec<String>, s: &str) -> (r: bool)
    ensures
        r == texts(v@).contains(s@),
{
    let mut i: usize = 0;
    while i < v.len()
        invariant
            i <= v@.len(),
            forall|j: int| 0 <= j < i ==> v@[j]@ != s@,
        decreases v@.len() - i,
    {
        if same_text(v[i].as_str(), s) {
            assert(texts(v@)[i as int] == s@);
            return true;
        }
        i = i + 1;
    }
    assert(!texts(v@).contains(s@)) by {
        if texts(v@).contains(s@) {
            let k = choose|k: int| 0 <= k < texts(v@).len() && texts(v@)[k] == s@;
            assert(v@[k]@ == s@);
        }
    }
    false
}

/// The type parameters and constraints of one generated member.
#[derive(Debug)]
pub struct GenericContext {
    args: Vec<String>,
    constraints: Vec<String>,
}

impl View for GenericContext {
    type V = ContextM;

    closed spec fn view(&self) -> ContextM {
        ContextM { args: texts(self.args@), constraints: texts(self.constraints@) }
    }
}

impl GenericContext {
    /// A context with no parameters and no constraints.
    pub fn new() -> (r: Self)
        ensures
            r@ == ContextM::empty(),
    {
        let r = GenericContext { args: Vec::new(), constraints: Vec::new() };
        assert(r@.args =~= Seq::empty());
        assert(r@.constraints =~= Seq::empty());
        r
    }

    /// Allocate a fresh parameter name from a preferred one, by appending the
    /// smallest numeric suffix that no earlier parameter has.
    pub fn arg(&mut self, desired_name: &str) -> (r: String)
        ensures
            (r@, final(self)@) == old(self)@.allocate(desired_name@),
    {
        let ghost names = self@.args;
        let count = self.args.len();
        let mut i: usize = 0;
        let mut name = String::from_str(desired_name).concat(decimal_text(i).as_str());
        let mut taken = contains_text(&self.args, name.as_str());
        while taken
            invariant
                self@ == old(self)@,
                names == self@.args,
                names.len() == count,
                i <= names.len(),
                name@ == candidate(desired_name@, i as nat),
                taken == names.contains(name@),
                forall|j: nat| j < i ==> names.contains(#[trigger] candidate(desired_name@, j)),
            decreases names.len() - i,
        {
            proof {
                assert forall|j: nat| j < i + 1 implies names.contains(
                    #[trigger] candidate(desired_name@, j),
                ) by {
                    if j == i {
                        assert(candidate(desired_name@, j) == name@);
                    }
                }
                lemma_taken_bound(names, desired_name@, (i + 1) as nat);
            }
            i = i + 1;
            name = String::from_str(desired_name).concat(decimal_text(i).as_str());
            taken = contains_text(&self.args, name.as_str());
        }
        proof {
            lemma_first_free(names, desired_name@, i as nat);
        }
        let mut p: usize = 0;
        while p < self.args.len() && !text_lt(name.as_str(), self.args[p].as_str())
            invariant
                self@ == old(self)@,
                names == self@.args,
                p <= self.args@.len(),
                forall|j: int| 0 <= j < p ==> !text_less(name@, #[trigger] names[j]),
            decreases self.args@.len() - p,
        {
            p = p + 1;
        }
        proof {
            lemma_insert_at(names, name@, p as int);
        }
        let ghost before = self.args@;
        self.args.insert(p, name.clone());
        assert(texts(self.args@) =~= texts(before).insert(p as int, name@));
        name
    }

    /// Add a constraint.
    pub fn constrain(&mut self, constraint: String)
        ensures
            final(self)@ == old(self)@.constrain(constraint@),
    {
        let ghost before = self.constraints@;
        self.constraints.push(constraint);
        assert(texts(self.constraints@) =~= texts(before).push(constraint@));
    }

    /// The parameter list, as it stands after a member's name.
    pub fn args(&self) -> (r: String)
        ensures
            r@ == self@.params_text(),
    {
        if self.args.len() == 0 {
            String::new()
        } else {
            let joined = join_texts(&self.args, ", ");
            String::from_str("<").concat(joined.as_str()).concat(">")
        }
    }

    /// The constraint clause, as it stands after a member's signature.
    pub fn constraints(&self) -> (r: String)
        ensures
            r@ == self@.where_text(),
    {
        if self.constraints.len() == 0 {
            String::new()
        } else {
            let joined = join_texts(&self.constraints, ", ");
            String::from_str(" where ").concat(joined.as_str())
        }
    }
}

} // verus!

//! The data model: identifier records, environments, and the composed
//! registry (`Context`), together with the canonical ordering of identifier
//! tables and its uniqueness proof.
//!
//! An environment's identifier table is modelled as a finite map from the
//! identifier name (a character sequence) to its writeable flag.  An emitted
//! environment holds its records sorted strictly by name, and a strictly
//! sorted record sequence is the unique representation of its map, which is
//! what makes emission reproducible.

use vstd::prelude::*;
use crate::order::name_lt;
use crate::order::str_lt;
use crate::order::str_eq;
use crate::order::lemma_name_lt_connected;
use crate::order::lemma_name_lt_asymmetric;
use crate::order::lemma_name_lt_transitive;

verus! {

/// One global identifier and whether user code may reassign it.
pub struct EnvVar {
    pub name: String,
    pub writeable: bool,
}

impl View for EnvVar {
    type V = (Seq<char>, bool);

    open spec fn view(&self) -> (Seq<char>, bool) {
        (self.name@, self.writeable)
    }
}

/// The record sequence of a variable vector, by name and flag.
pub open spec fn var_pairs(s: Seq<EnvVar>) -> Seq<(Seq<char>, bool)> {
    s.map_values(|v: EnvVar| v@)
}

/// The records are strictly ascending by name (so names are unique).
pub open spec fn strictly_sorted_names(s: Seq<(Seq<char>, bool)>) -> bool {
    forall|i: int, j: int|
        #![trigger s[i], s[j]]
        0 <= i < j < s.len() ==> name_lt(s[i].0, s[j].0)
}

/// No two records share a name.
pub open spec fn distinct_names(s: Seq<(Seq<char>, bool)>) -> bool {
    forall|i: int, j: int|
        #![trigger s[i], s[j]]
        0 <= i < j < s.len() ==> s[i].0 != s[j].0
}

/// The map a record sequence denotes; a later record for the same name wins.
pub open spec fn pairs_to_map(s: Seq<(Seq<char>, bool)>) -> Map<Seq<char>, bool>
    decreases s.len(),
{
    if s.len() == 0 {
        Map::empty()
    } else {
        pairs_to_map(s.drop_last()).insert(s.last().0, s.last().1)
    }
}

pub proof fn lemma_sorted_implies_distinct(s: Seq<(Seq<char>, bool)>)
    requires
        strictly_sorted_names(s),
    ensures
        distinct_names(s),
{
    assert forall|i: int, j: int| #![trigger s[i], s[j]] 0 <= i < j < s.len() implies s[i].0
        != s[j].0 by {
        lemma_name_lt_asymmetric(s[i].0, s[j].0);
    }
}

/// A name is in the denoted map exactly when some record carries it.
pub proof fn lemma_pairs_to_map_dom(s: Seq<(Seq<char>, bool)>)
    ensures
        forall|k: Seq<char>|
            #[trigger] pairs_to_map(s).dom().contains(k) <==> (exists|i: int|
                0 <= i < s.len() && (#[trigger] s[i]).0 == k),
    decreases s.len(),
{
    if s.len() > 0 {
        lemma_pairs_to_map_dom(s.drop_last());
        assert forall|k: Seq<char>| #[trigger] pairs_to_map(s).dom().contains(k) implies (
        exists|i: int| 0 <= i < s.len() && (#[trigger] s[i]).0 == k) by {
            if k == s.last().0 {
                assert(s[s.len() - 1].0 == k);
            } else {
                assert(pairs_to_map(s.drop_last()).dom().contains(k));
                let i = choose|i: int| 0 <= i < s.drop_last().len() && (#[trigger] s.drop_last()[i]).0 == k;
                assert(s.drop_last()[i] == s[i]);
                assert(s[i].0 == k);
            }
        }
        assert forall|k: Seq<char>| (exists|i: int|
            0 <= i < s.len() && (#[trigger] s[i]).0 == k) implies #[trigger] pairs_to_map(
            s,
        ).dom().contains(k) by {
            let i = choose|i: int| 0 <= i < s.len() && (#[trigger] s[i]).0 == k;
            if i < s.len() - 1 {
                assert(s.drop_last()[i].0 == k);
                assert(pairs_to_map(s.drop_last()).dom().contains(k));
            }
        }
    }
}

/// With unique names, each record gives its name's value in the denoted map.
pub proof fn lemma_pairs_to_map_index(s: Seq<(Seq<char>, bool)>)
    requires
        distinct_names(s),
    ensures
        forall|i: int|
            0 <= i < s.len() ==> pairs_to_map(s).dom().contains((#[trigger] s[i]).0)
                && pairs_to_map(s)[s[i].0] == s[i].1,
    decreases s.len(),
{
    if s.len() > 0 {
        lemma_pairs_to_map_index(s.drop_last());
        assert forall|i: int| 0 <= i < s.len() implies pairs_to_map(s).dom().contains(
            (#[trigger] s[i]).0,
        ) && pairs_to_map(s)[s[i].0] == s[i].1 by {
            if i < s.len() - 1 {
                assert(s.drop_last()[i] == s[i]);
                assert(s[i].0 != s.last().0);
            }
        }
    }
}

/// A record sequence with unique names that agrees with a map pointwise and
/// covers its domain denotes exactly that map.
pub proof fn lemma_pairs_match_map(s: Seq<(Seq<char>, bool)>, m: Map<Seq<char>, bool>)
    requires
        distinct_names(s),
        forall|i: int|
            0 <= i < s.len() ==> m.dom().contains((#[trigger] s[i]).0) && m[s[i].0] == s[i].1,
        forall|k: Seq<char>|
            #[trigger] m.dom().contains(k) ==> exists|i: int|
                0 <= i < s.len() && (#[trigger] s[i]).0 == k,
    ensures
        pairs_to_map(s) == m,
{
    lemma_pairs_to_map_dom(s);
    lemma_pairs_to_map_index(s);
    assert(pairs_to_map(s) =~= m);
}

/// A map has at most one strictly sorted record sequence denoting it: the
/// backbone of reproducible emission.
pub proof fn lemma_sorted_pairs_unique(s1: Seq<(Seq<char>, bool)>, s2: Seq<(Seq<char>, bool)>)
    requires
        strictly_sorted_names(s1),
        strictly_sorted_names(s2),
        pairs_to_map(s1) == pairs_to_map(s2),
    ensures
        s1 == s2,
    decreases s1.len(),
{
    lemma_pairs_to_map_dom(s1);
    lemma_pairs_to_map_dom(s2);
    lemma_sorted_implies_distinct(s1);
    lemma_sorted_implies_distinct(s2);
    if s1.len() == 0 {
        if s2.len() > 0 {
            assert(pairs_to_map(s2).dom().contains(s2[s2.len() - 1].0));
        }
        assert(s1 =~= s2);
    } else if s2.len() == 0 {
        assert(pairs_to_map(s1).dom().contains(s1[s1.len() - 1].0));
        assert(s1 =~= s2);
    } else {
        let l1 = s1.last();
        let l2 = s2.last();
        // The last record of each carries the maximal name of the shared
        // domain, so the two last names coincide.
        assert(l1.0 == l2.0) by {
            lemma_name_lt_connected(l1.0, l2.0);
            if name_lt(l1.0, l2.0) {
                assert(pairs_to_map(s1).dom().contains(l2.0));
                let i = choose|i: int| 0 <= i < s1.len() && (#[trigger] s1[i]).0 == l2.0;
                if i < s1.len() - 1 {
                    lemma_name_lt_asymmetric(l2.0, l1.0);
                } else {
                    lemma_name_lt_asymmetric(l1.0, l2.0);
                }
            } else if name_lt(l2.0, l1.0) {
                assert(pairs_to_map(s2).dom().contains(l1.0));
                let i = choose|i: int| 0 <= i < s2.len() && (#[trigger] s2[i]).0 == l1.0;
                if i < s2.len() - 1 {
                    lemma_name_lt_asymmetric(l1.0, l2.0);
                } else {
                    lemma_name_lt_asymmetric(l2.0, l1.0);
                }
            }
        }
        lemma_pairs_to_map_index(s1);
        lemma_pairs_to_map_index(s2);
        assert(l1.1 == l2.1) by {
            assert(pairs_to_map(s1)[l1.0] == l1.1);
            assert(pairs_to_map(s2)[l2.0] == l2.1);
        }
        lemma_pairs_to_map_dom(s1.drop_last());
        lemma_pairs_to_map_dom(s2.drop_last());
        assert(pairs_to_map(s1.drop_last()) =~= pairs_to_map(s1).remove(l1.0)) by {
            assert(!pairs_to_map(s1.drop_last()).dom().contains(l1.0)) by {
                if exists|i: int| 0 <= i < s1.drop_last().len() && (#[trigger] s1.drop_last()[i]).0
                    == l1.0 {
                    let i = choose|i: int|
                        0 <= i < s1.drop_last().len() && (#[trigger] s1.drop_last()[i]).0 == l1.0;
                    lemma_name_lt_asymmetric(s1[i].0, l1.0);
                }
            }
        }
        assert(pairs_to_map(s2.drop_last()) =~= pairs_to_map(s2).remove(l2.0)) by {
            assert(!pairs_to_map(s2.drop_last()).dom().contains(l2.0)) by {
                if exists|i: int| 0 <= i < s2.drop_last().len() && (#[trigger] s2.drop_last()[i]).0
                    == l2.0 {
                    let i = choose|i: int|
                        0 <= i < s2.drop_last().len() && (#[trigger] s2.drop_last()[i]).0 == l2.0;
                    lemma_name_lt_asymmetric(s2[i].0, l2.0);
                }
            }
        }
        lemma_sorted_pairs_unique(s1.drop_last(), s2.drop_last());
        assert(l1 == l2);
        assert(s1 =~= s2) by {
            assert forall|i: int| 0 <= i < s1.len() implies s1[i] == s2[i] by {
                if i < s1.len() - 1 {
                    assert(s1.drop_last()[i] == s2.drop_last()[i]);
                }
            }
        }
    }
}

/// Sorts identifier records strictly ascending by name.  The input must not
/// repeat a name (a composed table never does); the result holds exactly the
/// input records.
/// Inserts one record into a name-sorted vector, keeping it sorted.  The
/// record's name must be new.
#[verifier::rlimit(50)]
fn insert_sorted(out: &mut Vec<EnvVar>, x: EnvVar)
    requires
        strictly_sorted_names(var_pairs(old(out)@)),
        forall|k: int| 0 <= k < old(out)@.len() ==> (#[trigger] old(out)@[k]).name@ != x.name@,
    ensures
        strictly_sorted_names(var_pairs(final(out)@)),
        exists|j: int|
            0 <= j <= old(out)@.len() && final(out)@ == #[trigger] old(out)@.insert(j, x),
{
    let mut j: usize = 0;
    loop
        invariant_except_break
            j <= out@.len(),
            out@ == old(out)@,
            forall|k: int| 0 <= k < j ==> name_lt((#[trigger] out@[k]).name@, x.name@),
        ensures
            j <= out@.len(),
            out@ == old(out)@,
            forall|k: int| 0 <= k < j ==> name_lt((#[trigger] out@[k]).name@, x.name@),
            j == out@.len() || !name_lt(out@[j as int].name@, x.name@),
        decreases out@.len() - j,
    {
        if j == out.len() {
            break;
        }
        if !str_lt(out[j].name.as_str(), x.name.as_str()) {
            break;
        }
        j = j + 1;
    }
    proof {
        assert forall|k: int| j <= k < out@.len() implies name_lt(
            x.name@,
            (#[trigger] out@[k]).name@,
        ) by {
            assert(out@[k].name@ != x.name@);
            assert(out@[j as int].name@ != x.name@);
            lemma_name_lt_connected(x.name@, out@[j as int].name@);
            assert(name_lt(x.name@, out@[j as int].name@));
            if k > j {
                assert(var_pairs(out@)[j as int] == out@[j as int]@);
                assert(var_pairs(out@)[k] == out@[k]@);
                assert(name_lt(out@[j as int].name@, out@[k].name@));
                lemma_name_lt_transitive(x.name@, out@[j as int].name@, out@[k].name@);
            }
        }
    }
    let ghost old_out = out@;
    out.insert(j, x);
    proof {
        assert forall|i1: int, i2: int|
            #![trigger var_pairs(out@)[i1], var_pairs(out@)[i2]]
            0 <= i1 < i2 < out@.len() implies name_lt(
            var_pairs(out@)[i1].0,
            var_pairs(out@)[i2].0,
        ) by {
            assert(out@ == old_out.insert(j as int, x));
            assert(var_pairs(out@)[i1] == out@[i1]@);
            assert(var_pairs(out@)[i2] == out@[i2]@);
            if i1 == j {
                assert(out@[i2] == old_out[i2 - 1]);
                assert(name_lt(x.name@, old_out[i2 - 1].name@));
            } else if i2 == j {
                assert(out@[i1] == old_out[i1]);
                assert(name_lt(old_out[i1].name@, x.name@));
            } else {
                let o1: int = if i1 < j { i1 } else { i1 - 1 };
                let o2: int = if i2 < j { i2 } else { i2 - 1 };
                assert(out@[i1] == old_out[o1]);
                assert(out@[i2] == old_out[o2]);
                assert(var_pairs(old_out)[o1] == old_out[o1]@);
                assert(var_pairs(old_out)[o2] == old_out[o2]@);
                assert(name_lt(var_pairs(old_out)[o1].0, var_pairs(old_out)[o2].0));
            }
        }
        assert(out@ == old_out.insert(j as int, x));
    }
}

/// Sorts identifier records strictly ascending by name.  The input must not
/// repeat a name (a composed table never does); the result holds exactly the
/// input records.
#[verifier::rlimit(50)]
pub fn sort_env_vars(input: Vec<EnvVar>) -> (r: Vec<EnvVar>)
    requires
        distinct_names(var_pairs(input@)),
    ensures
        strictly_sorted_names(var_pairs(r@)),
        forall|p: (Seq<char>, bool)| var_pairs(r@).contains(p) <==> var_pairs(input@).contains(p),
{
    let mut out: Vec<EnvVar> = Vec::new();
    let mut i: usize = 0;
    while i < input.len()
        invariant
            i <= input@.len(),
            distinct_names(var_pairs(input@)),
            strictly_sorted_names(var_pairs(out@)),
            forall|k: int|
                0 <= k < out@.len() ==> exists|t: int|
                    0 <= t < i && (#[trigger] out@[k])@ == input@[t]@,
            forall|t: int|
                0 <= t < i ==> exists|k: int|
                    0 <= k < out@.len() && (#[trigger] input@[t])@ == out@[k]@,
            forall|k: int, t: int|
                0 <= k < out@.len() && i <= t < input@.len() ==> (#[trigger] out@[k]).name@ != (
                #[trigger] input@[t]).name@,
        decreases input@.len() - i,
    {
        let x = vec_take_at(&input, i);
        let ghost old_out = out@;
        proof {
            assert forall|k: int| 0 <= k < out@.len() implies (#[trigger] out@[k]).name@
                != x.name@ by {
                assert(out@[k].name@ != input@[i as int].name@);
            }
        }
        insert_sorted(&mut out, x);
        let ghost j = choose|j: int| 0 <= j <= old_out.len() && out@ == #[trigger] old_out.insert(j, x);
        proof {
            assert forall|k: int, t: int|
                0 <= k < out@.len() && i + 1 <= t < input@.len() implies (#[trigger] out@[k]).name@
                != (#[trigger] input@[t]).name@ by {
                assert(var_pairs(input@)[t] == input@[t]@);
                if k == j {
                    assert(var_pairs(input@)[i as int] == input@[i as int]@);
                    assert(out@[k]@ == input@[i as int]@);
                } else if k < j {
                    assert(out@[k] == old_out[k]);
                } else {
                    assert(out@[k] == old_out[k - 1]);
                }
            }
            assert forall|k: int| 0 <= k < out@.len() implies exists|t: int|
                0 <= t < i + 1 && (#[trigger] out@[k])@ == input@[t]@ by {
                if k == j {
                    assert(out@[k]@ == input@[i as int]@);
                } else if k < j {
                    assert(out@[k] == old_out[k]);
                } else {
                    assert(out@[k] == old_out[k - 1]);
                }
            }
            assert forall|t: int| 0 <= t < i + 1 implies exists|k: int|
                0 <= k < out@.len() && (#[trigger] input@[t])@ == out@[k]@ by {
                if t == i {
                    assert(input@[t]@ == out@[j]@);
                } else {
                    let k = choose|k: int|
                        0 <= k < old_out.len() && (#[trigger] input@[t])@ == old_out[k]@;
                    if k < j {
                        assert(input@[t]@ == out@[k]@);
                    } else {
                        assert(input@[t]@ == out@[k + 1]@);
                    }
                }
            }
        }
        i = i + 1;
    }
    proof {
        assert forall|p: (Seq<char>, bool)| var_pairs(out@).contains(p) implies var_pairs(
            input@,
        ).contains(p) by {
            let k = choose|k: int| 0 <= k < var_pairs(out@).len() && var_pairs(out@)[k] == p;
            let t = choose|t: int| 0 <= t < i && (#[trigger] out@[k])@ == input@[t]@;
            assert(var_pairs(input@)[t] == p);
        }
        assert forall|p: (Seq<char>, bool)| var_pairs(input@).contains(p) implies var_pairs(
            out@,
        ).contains(p) by {
            let t = choose|t: int| 0 <= t < var_pairs(input@).len() && var_pairs(input@)[t] == p;
            let k = choose|k: int| 0 <= k < out@.len() && (#[trigger] input@[t])@ == out@[k]@;
            assert(var_pairs(out@)[k] == p);
        }
    }
    out
}

/// Reads the record at an index out of a vector, cloning its fields.
fn vec_take_at(v: &Vec<EnvVar>, i: usize) -> (r: EnvVar)
    requires
        i < v@.len(),
    ensures
        r@ == v@[i as int]@,
{
    let entry = &v[i];
    let name = entry.name.clone();
    EnvVar { name, writeable: entry.writeable }
}

/// A named environment: its identifier records, sorted by name once emitted.
pub struct Env {
    pub name: String,
    pub vars: Vec<EnvVar>,
}

impl Env {
    /// The record sequence of this environment.
    pub open spec fn records(self) -> Seq<(Seq<char>, bool)> {
        var_pairs(self.vars@)
    }

    /// The identifier table this environment denotes.
    pub open spec fn table(self) -> Map<Seq<char>, bool> {
        pairs_to_map(self.records())
    }

    /// An emitted environment holds its records strictly sorted by name.
    pub open spec fn wf(self) -> bool {
        strictly_sorted_names(self.records())
    }

    /// Looks an identifier up: its writeable flag, or absent.
    pub fn get(&self, id: &str) -> (r: Option<bool>)
        requires
            self.wf(),
        ensures
            match r {
                Some(w) => self.table().dom().contains(id@) && self.table()[id@] == w,
                None => !self.table().dom().contains(id@),
            },
    {
        proof {
            lemma_sorted_implies_distinct(self.records());
            lemma_pairs_to_map_dom(self.records());
            lemma_pairs_to_map_index(self.records());
        }
        let mut i: usize = 0;
        while i < self.vars.len()
            invariant
                i <= self.vars@.len(),
                distinct_names(self.records()),
                forall|k: Seq<char>|
                    #[trigger] self.table().dom().contains(k) <==> (exists|t: int|
                        0 <= t < self.records().len() && (#[trigger] self.records()[t]).0 == k),
                forall|t: int|
                    0 <= t < self.records().len() ==> self.table().dom().contains(
                        (#[trigger] self.records()[t]).0,
                    ) && self.table()[self.records()[t].0] == self.records()[t].1,
                forall|t: int| 0 <= t < i ==> (#[trigger] self.records()[t]).0 != id@,
            decreases self.vars@.len() - i,
        {
            if str_eq(self.vars[i].name.as_str(), id) {
                proof {
                    assert(self.records()[i as int].0 == id@);
                }
                return Some(self.vars[i].writeable);
            }
            proof {
                assert(self.records()[i as int].0 == self.vars@[i as int].name@);
            }
            i = i + 1;
        }
        None
    }
}

/// First environment of a sequence carrying a name, if any.
pub open spec fn find_env(s: Seq<Env>, name: Seq<char>) -> Option<Env>
    decreases s.len(),
{
    if s.len() == 0 {
        None
    } else if s[0].name@ == name {
        Some(s[0])
    } else {
        find_env(s.drop_first(), name)
    }
}

/// The composed registry: the environments, in their emitted order.  This is
/// the immutable lookup surface; it is only ever built, queried, and
/// serialized, never mutated.
pub struct Context {
    envs: Vec<Env>,
}

impl Context {
    /// The environments in emitted order.
    pub closed spec fn envs_seq(self) -> Seq<Env> {
        self.envs@
    }

    /// Every environment's record list is strictly sorted by name.
    pub open spec fn wf(self) -> bool {
        forall|i: int| 0 <= i < self.envs_seq().len() ==> (#[trigger] self.envs_seq()[i]).wf()
    }

    /// What a two-level query returns: the flag of `id` in environment
    /// `name`, or absent when either level misses.
    pub open spec fn spec_lookup(self, name: Seq<char>, id: Seq<char>) -> Option<bool> {
        match find_env(self.envs_seq(), name) {
            Some(e) => if e.table().dom().contains(id) {
                Some(e.table()[id])
            } else {
                None
            },
            None => None,
        }
    }

    pub fn new(envs: Vec<Env>) -> (r: Self)
        ensures
            r.envs_seq() == envs@,
    {
        Context { envs }
    }

    /// The environments, for serialization by a consumer.
    pub fn envs(&self) -> (r: &Vec<Env>)
        ensures
            r@ == self.envs_seq(),
    {
        &self.envs
    }

    /// Finds the environment with the given name; absent when the name is
    /// unrecognized, never a default.
    pub fn lookup_env(&self, name: &str) -> (r: Option<&Env>)
        ensures
            match r {
                Some(e) => find_env(self.envs_seq(), name@) == Some(*e),
                None => find_env(self.envs_seq(), name@) is None,
            },
    {
        let mut i: usize = 0;
        proof {
            assert(self.envs@.skip(0) =~= self.envs@);
        }
        while i < self.envs.len()
            invariant
                i <= self.envs@.len(),
                find_env(self.envs@, name@) == find_env(self.envs@.skip(i as int), name@),
            decreases self.envs@.len() - i,
        {
            proof {
                assert(self.envs@.skip(i as int)[0] == self.envs@[i as int]);
            }
            if str_eq(self.envs[i].name.as_str(), name) {
                return Some(&self.envs[i]);
            }
            proof {
                assert(self.envs@.skip(i as int).drop_first() =~= self.envs@.skip(i as int + 1));
            }
            i = i + 1;
        }
        None
    }

    /// The two-level query of the lookup surface.
    pub fn lookup(&self, name: &str, id: &str) -> (r: Option<bool>)
        requires
            self.wf(),
        ensures
            r == self.spec_lookup(name@, id@),
    {
        proof {
            lemma_find_env_wf(self.envs_seq(), name@);
        }
        match self.lookup_env(name) {
            Some(e) => e.get(id),
            None => None,
        }
    }
}


/// `find_env` returns the entry at the first index carrying the name.
pub proof fn lemma_find_env_at_index(s: Seq<Env>, name: Seq<char>, i: int)
    requires
        0 <= i < s.len(),
        s[i].name@ == name,
        forall|j: int| 0 <= j < i ==> (#[trigger] s[j]).name@ != name,
    ensures
        find_env(s, name) == Some(s[i]),
    decreases i,
{
    if s[0].name@ == name {
        assert(i == 0);
    } else {
        assert forall|j: int| 0 <= j < i - 1 implies (#[trigger] s.drop_first()[j]).name@
            != name by {
            assert(s.drop_first()[j] == s[j + 1]);
        }
        assert(s.drop_first()[i - 1] == s[i]);
        lemma_find_env_at_index(s.drop_first(), name, i - 1);
    }
}

/// A found environment inherits well-formedness from its sequence.
proof fn lemma_find_env_wf(s: Seq<Env>, name: Seq<char>)
    requires
        forall|i: int| 0 <= i < s.len() ==> (#[trigger] s[i]).wf(),
    ensures
        match find_env(s, name) {
            Some(e) => e.wf(),
            None => true,
        },
    decreases s.len(),
{
    if s.len() > 0 && s[0].name@ != name {
        assert forall|i: int| 0 <= i < s.drop_first().len() implies (#[trigger] s.drop_first()[i]).wf() by {
            assert(s.drop_first()[i] == s[i + 1]);
        }
        lemma_find_env_wf(s.drop_first(), name);
    }
}

} // verus!

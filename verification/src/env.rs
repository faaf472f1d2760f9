//! A snapshot of environment variables for the environment layer.

use vstd::prelude::*;
use crate::text::str_eq;

verus! {

/// The map that a list of `(name, value)` pairs describes: a later pair for a
/// name replaces an earlier one.
pub open spec fn pairs_map(s: Seq<(Seq<char>, Seq<char>)>) -> Map<Seq<char>, Seq<char>>
    decreases s.len(),
{
    if s.len() == 0 {
        Map::empty()
    } else {
        pairs_map(s.drop_last()).insert(s.last().0, s.last().1)
    }
}

/// A name is set exactly when some pair names it.
pub proof fn lemma_pairs_map_dom(s: Seq<(Seq<char>, Seq<char>)>, k: Seq<char>)
    ensures
        pairs_map(s).contains_key(k) <==> exists|j: int| 0 <= j < s.len() && (#[trigger] s[j]).0 == k,
    decreases s.len(),
{
    if s.len() > 0 {
        lemma_pairs_map_dom(s.drop_last(), k);
        if pairs_map(s.drop_last()).contains_key(k) {
            let j = choose|j: int| 0 <= j < s.drop_last().len() && (#[trigger] s.drop_last()[j]).0 == k;
            assert(s[j] == s.drop_last()[j]);
        }
        if exists|j: int| 0 <= j < s.len() && (#[trigger] s[j]).0 == k {
            let j = choose|j: int| 0 <= j < s.len() && (#[trigger] s[j]).0 == k;
            if j < s.len() - 1 {
                assert(s.drop_last()[j] == s[j]);
            }
        }
    }
}

/// Pairs after position `i` that do not name `k` leave its entry as the first
/// `i` pairs set it.
pub proof fn lemma_pairs_map_suffix_free(s: Seq<(Seq<char>, Seq<char>)>, i: int, k: Seq<char>)
    requires
        0 <= i <= s.len(),
        forall|j: int| i <= j < s.len() ==> (#[trigger] s[j]).0 != k,
    ensures
        pairs_map(s).contains_key(k) == pairs_map(s.take(i)).contains_key(k),
        pairs_map(s).contains_key(k) ==> pairs_map(s)[k] == pairs_map(s.take(i))[k],
    decreases s.len() - i,
{
    if i == s.len() {
        assert(s.take(i) =~= s);
    } else {
        let t = s.drop_last();
        assert(forall|j: int| i <= j < t.len() ==> t[j] == s[j]);
        lemma_pairs_map_suffix_free(t, i, k);
        assert(t.take(i) =~= s.take(i));
    }
}

/// A variable is set to the value of the last pair that names it.
pub proof fn law_last_pair_wins(s: Seq<(Seq<char>, Seq<char>)>, i: int, k: Seq<char>)
    requires
        0 <= i < s.len(),
        s[i].0 == k,
        forall|j: int| i < j < s.len() ==> (#[trigger] s[j]).0 != k,
    ensures
        pairs_map(s).contains_key(k),
        pairs_map(s)[k] == s[i].1,
{
    lemma_pairs_map_suffix_free(s, i + 1, k);
    assert(s.take(i + 1).drop_last() =~= s.take(i));
}

/// A name that no pair names is unset.
pub proof fn law_unnamed_is_unset(s: Seq<(Seq<char>, Seq<char>)>, k: Seq<char>)
    requires
        forall|j: int| 0 <= j < s.len() ==> (#[trigger] s[j]).0 != k,
    ensures
        !pairs_map(s).contains_key(k),
{
    lemma_pairs_map_dom(s, k);
}

/// A snapshot of environment variables.
///
/// Taking the environment as an explicit value, rather than reading the process
/// environment deep inside the merge, is what makes loading testable.
#[derive(Debug, Clone)]
pub struct Env {
    vars: Vec<(String, String)>,
}

impl Env {
    /// The pairs held, as plain character sequences, in the order given.
    pub closed spec fn entries(&self) -> Seq<(Seq<char>, Seq<char>)> {
        self.vars@.map_values(|p: (String, String)| (p.0@, p.1@))
    }
}

impl View for Env {
    type V = Map<Seq<char>, Seq<char>>;

    /// Variable names mapped to their values.
    closed spec fn view(&self) -> Map<Seq<char>, Seq<char>> {
        pairs_map(self.entries())
    }
}

impl Env {
    /// An environment with no variables set.
    pub fn empty() -> (r: Self)
        ensures
            r@ == Map::<Seq<char>, Seq<char>>::empty(),
    {
        let r = Env { vars: Vec::new() };
        proof {
            assert(r.entries().len() == 0);
        }
        r
    }

    /// An environment holding `pairs`; a later pair for a name replaces an
    /// earlier one.
    pub fn from_pairs(pairs: Vec<(String, String)>) -> (r: Self)
        ensures
            r@ == pairs_map(pairs@.map_values(|p: (String, String)| (p.0@, p.1@))),
    {
        Env { vars: pairs }
    }

    /// Look up a variable by name.
    pub fn get(&self, key: &str) -> (r: Option<&str>)
        ensures
            match r {
                Some(v) => self@.contains_key(key@) && v@ == self@[key@],
                None => !self@.contains_key(key@),
            },
    {
        let ghost s = self.entries();
        let mut i = self.vars.len();
        while i > 0
            invariant
                s == self.entries(),
                s.len() == self.vars.len(),
                0 <= i <= s.len(),
                forall|j: int| i <= j < s.len() ==> (#[trigger] s[j]).0 != key@,
            decreases i,
        {
            i = i - 1;
            assert(s[i as int] == (self.vars[i as int].0@, self.vars[i as int].1@));
            if str_eq(self.vars[i].0.as_str(), key) {
                proof {
                    law_last_pair_wins(s, i as int, key@);
                }
                return Some(self.vars[i].1.as_str());
            }
        }
        proof {
            lemma_pairs_map_suffix_free(s, 0, key@);
            assert(s.take(0) =~= Seq::<(Seq<char>, Seq<char>)>::empty());
        }
        None
    }

    /// Whether every variable of `self` is set in `other`, to the same value.
    fn agrees_into(&self, other: &Env) -> (r: bool)
        ensures
            r == forall|k: Seq<char>| #[trigger] self@.contains_key(k) ==> other@.contains_key(k)
                && other@[k] == self@[k],
    {
        let ghost s = self.entries();
        let mut i: usize = 0;
        while i < self.vars.len()
            invariant
                s == self.entries(),
                s.len() == self.vars.len(),
                0 <= i <= s.len(),
                forall|j: int| 0 <= j < i ==> other@.contains_key(#[trigger] s[j].0)
                    && other@[s[j].0] == self@[s[j].0],
            decreases s.len() - i,
        {
            assert(s[i as int] == (self.vars[i as int].0@, self.vars[i as int].1@));
            let key = self.vars[i].0.as_str();
            let mine = self.get(key);
            let theirs = other.get(key);
            proof {
                lemma_pairs_map_dom(s, key@);
            }
            match (mine, theirs) {
                (Some(a), Some(b)) => {
                    if !str_eq(a, b) {
                        return false;
                    }
                },
                _ => {
                    return false;
                },
            }
            i = i + 1;
        }
        assert forall|k: Seq<char>| #[trigger] self@.contains_key(k) implies other@.contains_key(k)
            && other@[k] == self@[k] by {
            lemma_pairs_map_dom(s, k);
            let j = choose|j: int| 0 <= j < s.len() && (#[trigger] s[j]).0 == k;
        }
        true
    }
}

impl Default for Env {
    /// An environment with no variables set.
    fn default() -> (r: Self)
        ensures
            r@ == Map::<Seq<char>, Seq<char>>::empty(),
    {
        Env::empty()
    }
}

impl PartialEq for Env {
    /// Two environments are equal when they set the same variables to the same values.
    fn eq(&self, other: &Self) -> (r: bool) {
        let r = self.agrees_into(other) && other.agrees_into(self);
        proof {
            if r {
                assert(self@ =~= other@);
            }
        }
        r
    }
}

impl Eq for Env {}

impl vstd::std_specs::cmp::PartialEqSpecImpl for Env {
    open spec fn obeys_eq_spec() -> bool {
        true
    }

    open spec fn eq_spec(&self, other: &Self) -> bool {
        self@ == other@
    }
}

/// Collects `(name, value)` pairs, as [`Env::from_pairs`] does: a later pair
/// for a name replaces an earlier one.
impl<K: Into<String>, V: Into<String>> FromIterator<(K, V)> for Env {
    #[verifier::external_body]
    fn from_iter<I: IntoIterator<Item = (K, V)>>(iter: I) -> Self {
        Env { vars: iter.into_iter().map(|(key, value)| (key.into(), value.into())).collect() }
    }
}

} // verus!

//! The configuration store: an immutable snapshot of flag and bandit
//! definitions, together with a derived index from `(flag key, variation
//! value)` to the bandit variation that controls it.
//!
//! The index is built once, by folding over every bandit's variation list;
//! its contract states that looking a pair up in the index agrees with the
//! *last* bandit variation listed for that pair, exactly as the fold
//! leaves it.  A configuration is never mutated: refresh replaces the whole
//! snapshot.

use crate::strings::str_eq;
use crate::ufc::{
    BanditConfiguration, BanditResponse, BanditVariation, TryParse, UniversalFlagConfig,
};
use vstd::prelude::*;

verus! {

/// Bandit associations of one flag, keyed by variation value.
#[derive(Debug)]
pub struct FlagAssociations {
    pub flag_key: String,
    pub variations: Vec<BanditVariation>,
}

/// All bandit variations of a server payload, flattened in payload order.
pub open spec fn flatten_bandit_variations(b: Seq<(String, Vec<BanditVariation>)>) -> Seq<
    BanditVariation,
>
    decreases b.len(),
{
    if b.len() == 0 {
        Seq::empty()
    } else {
        flatten_bandit_variations(b.drop_last()) + b.last().1@
    }
}

/// The last bandit variation of `s` recorded for `(flag_key,
/// variation_value)`: the binding the index fold leaves in place.
pub open spec fn assoc_map_lookup(
    s: Seq<BanditVariation>,
    flag_key: Seq<char>,
    variation_value: Seq<char>,
) -> Option<BanditVariation>
    decreases s.len(),
{
    if s.len() == 0 {
        None
    } else if s.last().flag_key@ == flag_key && s.last().variation_value@ == variation_value {
        Some(s.last())
    } else {
        assoc_map_lookup(s.drop_last(), flag_key, variation_value)
    }
}

/// Index of the first entry of `s` for `flag_key`, or `-1`.
pub open spec fn outer_index(s: Seq<FlagAssociations>, flag_key: Seq<char>) -> int
    decreases s.len(),
{
    if s.len() == 0 {
        -1
    } else if s.first().flag_key@ == flag_key {
        0
    } else if outer_index(s.drop_first(), flag_key) < 0 {
        -1
    } else {
        outer_index(s.drop_first(), flag_key) + 1
    }
}

/// The last entry of `s` for `variation_value`, if any.
pub open spec fn inner_lookup(s: Seq<BanditVariation>, variation_value: Seq<char>) -> Option<
    BanditVariation,
>
    decreases s.len(),
{
    if s.len() == 0 {
        None
    } else if s.last().variation_value@ == variation_value {
        Some(s.last())
    } else {
        inner_lookup(s.drop_last(), variation_value)
    }
}

/// What the two-level index binds to `(flag_key, variation_value)`.
pub open spec fn spec_assoc_lookup(
    assoc: Seq<FlagAssociations>,
    flag_key: Seq<char>,
    variation_value: Seq<char>,
) -> Option<BanditVariation> {
    let i = outer_index(assoc, flag_key);
    if i < 0 {
        None
    } else {
        inner_lookup(assoc[i].variations@, variation_value)
    }
}

/// `outer_index` finds the first entry for a key, and `-1` means there is
/// none.
pub proof fn lemma_outer_index_props(s: Seq<FlagAssociations>, flag_key: Seq<char>)
    ensures
        outer_index(s, flag_key) < 0 ==> forall|j: int|
            0 <= j < s.len() ==> (#[trigger] s[j]).flag_key@ != flag_key,
        outer_index(s, flag_key) >= 0 ==> {
            &&& outer_index(s, flag_key) < s.len()
            &&& s[outer_index(s, flag_key)].flag_key@ == flag_key
            &&& forall|j: int|
                0 <= j < outer_index(s, flag_key) ==> (#[trigger] s[j]).flag_key@ != flag_key
        },
    decreases s.len(),
{
    if s.len() > 0 && s.first().flag_key@ != flag_key {
        lemma_outer_index_props(s.drop_first(), flag_key);
        assert(forall|j: int| 1 <= j < s.len() ==> s[j] == s.drop_first()[j - 1]);
    }
}

/// The first index whose entry carries `flag_key` is `outer_index`.
pub proof fn lemma_outer_index_of_first_match(s: Seq<FlagAssociations>, flag_key: Seq<char>, i: int)
    requires
        0 <= i < s.len(),
        s[i].flag_key@ == flag_key,
        forall|j: int| 0 <= j < i ==> (#[trigger] s[j]).flag_key@ != flag_key,
    ensures
        outer_index(s, flag_key) == i,
    decreases s.len(),
{
    if i > 0 {
        assert(s.first().flag_key@ != flag_key);
        assert(s.drop_first()[i - 1] == s[i]);
        assert(forall|j: int| 0 <= j < i - 1 ==> s.drop_first()[j] == s[j + 1]);
        lemma_outer_index_of_first_match(s.drop_first(), flag_key, i - 1);
    }
}

/// Replacing an entry with one that carries the same flag key moves no
/// `outer_index`.
pub proof fn lemma_outer_index_update(
    s: Seq<FlagAssociations>,
    i: int,
    e: FlagAssociations,
    flag_key: Seq<char>,
)
    requires
        0 <= i < s.len(),
        e.flag_key@ == s[i].flag_key@,
    ensures
        outer_index(s.update(i, e), flag_key) == outer_index(s, flag_key),
    decreases s.len(),
{
    let s2 = s.update(i, e);
    if i == 0 {
        assert(s2.first().flag_key@ == s.first().flag_key@);
        assert(s2.drop_first() =~= s.drop_first());
    } else {
        assert(s2.first() == s.first());
        assert(s2.drop_first() =~= s.drop_first().update(i - 1, e));
        lemma_outer_index_update(s.drop_first(), i - 1, e, flag_key);
    }
}

/// Appending an entry leaves every present key where it was and files a new
/// key at the end.
pub proof fn lemma_outer_index_push(
    s: Seq<FlagAssociations>,
    e: FlagAssociations,
    flag_key: Seq<char>,
)
    ensures
        outer_index(s.push(e), flag_key) == if outer_index(s, flag_key) >= 0 {
            outer_index(s, flag_key)
        } else if e.flag_key@ == flag_key {
            s.len() as int
        } else {
            -1
        },
    decreases s.len(),
{
    let s2 = s.push(e);
    if s.len() == 0 {
        assert(s2.first() == e);
        assert(s2.drop_first() =~= Seq::<FlagAssociations>::empty());
        assert(outer_index(Seq::<FlagAssociations>::empty(), flag_key) == -1);
        assert(outer_index(s, flag_key) == -1);
    } else {
        assert(s2.first() == s.first());
        assert(s2.drop_first() =~= s.drop_first().push(e));
        lemma_outer_index_push(s.drop_first(), e, flag_key);
    }
}

/// Records `v` in the index: appends it to the variation list of its flag,
/// creating the flag's entry if it is not there yet.  Every other binding
/// of the index is untouched.
fn assoc_insert(acc: &mut Vec<FlagAssociations>, v: BanditVariation)
    ensures
        forall|f: Seq<char>, vv: Seq<char>|
            #[trigger] spec_assoc_lookup(final(acc)@, f, vv) == if f == v.flag_key@ && vv
                == v.variation_value@ {
                Some(v)
            } else {
                spec_assoc_lookup(old(acc)@, f, vv)
            },
{
    let ghost s1 = acc@;
    let n = acc.len();
    let mut idx: Option<usize> = None;
    for i in 0..n
        invariant
            n == acc@.len(),
            acc@ == s1,
            match idx {
                Some(i0) => {
                    &&& 0 <= i0 < i
                    &&& acc@[i0 as int].flag_key@ == v.flag_key@
                    &&& forall|j: int|
                        0 <= j < i0 ==> (#[trigger] acc@[j]).flag_key@ != v.flag_key@
                },
                None => forall|j: int|
                    0 <= j < i ==> (#[trigger] acc@[j]).flag_key@ != v.flag_key@,
            },
    {
        if idx.is_none() && str_eq(acc[i].flag_key.as_str(), v.flag_key.as_str()) {
            idx = Some(i);
        }
    }
    match idx {
        Some(i) => {
            let mut entry = acc.remove(i);
            let ghost old_inner = entry.variations@;
            entry.variations.push(v);
            let ghost e2 = entry;
            acc.insert(i, entry);
            proof {
                let s2 = acc@;
                assert(s2 =~= s1.update(i as int, e2));
                lemma_outer_index_of_first_match(s1, v.flag_key@, i as int);
                assert(e2.variations@ =~= old_inner.push(v));
                assert forall|f: Seq<char>, vv: Seq<char>|
                    #[trigger] spec_assoc_lookup(s2, f, vv) == if f == v.flag_key@ && vv
                        == v.variation_value@ {
                        Some(v)
                    } else {
                        spec_assoc_lookup(s1, f, vv)
                    } by {
                    lemma_outer_index_update(s1, i as int, e2, f);
                    lemma_outer_index_props(s1, f);
                    if f == v.flag_key@ {
                        assert(outer_index(s1, f) == i);
                        assert(e2.variations@.drop_last() =~= old_inner);
                    } else {
                        if outer_index(s1, f) >= 0 {
                            assert(outer_index(s1, f) != i);
                            assert(s2[outer_index(s1, f)] == s1[outer_index(s1, f)]);
                        }
                    }
                }
            }
        },
        None => {
            let flag_key = v.flag_key.clone();
            let ghost vg = v;
            let mut variations = Vec::new();
            variations.push(v);
            let entry = FlagAssociations { flag_key, variations };
            let ghost e2 = entry;
            acc.push(entry);
            proof {
                let s2 = acc@;
                assert(s2 =~= s1.push(e2));
                assert(e2.variations@ =~= seq![vg]);
                assert forall|f: Seq<char>, vv: Seq<char>|
                    #[trigger] spec_assoc_lookup(s2, f, vv) == if f == vg.flag_key@ && vv
                        == vg.variation_value@ {
                        Some(vg)
                    } else {
                        spec_assoc_lookup(s1, f, vv)
                    } by {
                    lemma_outer_index_push(s1, e2, f);
                    lemma_outer_index_props(s1, f);
                    assert(e2.flag_key@ == vg.flag_key@);
                    if f == vg.flag_key@ {
                        assert(outer_index(s1, f) < 0);
                        assert(outer_index(s2, f) == s1.len() as int);
                        assert(s2[s1.len() as int] == e2);
                        assert(e2.variations@.last() == vg);
                        assert(e2.variations@.drop_last() =~= Seq::<BanditVariation>::empty());
                        assert(inner_lookup(Seq::<BanditVariation>::empty(), vv) is None);
                        assert(inner_lookup(e2.variations@, vv) == if vv == vg.variation_value@ {
                            Some(vg)
                        } else {
                            Option::<BanditVariation>::None
                        });
                        assert(spec_assoc_lookup(s1, f, vv) is None);
                    } else {
                        if outer_index(s1, f) >= 0 {
                            assert(s2[outer_index(s1, f)] == s1[outer_index(s1, f)]);
                        }
                    }
                }
            }
        },
    }
}

/// Builds the two-level flag-to-bandit index by folding over all bandit
/// variation lists in payload order.  For every pair of keys, the index
/// holds exactly the last bandit variation recorded for that pair.
pub fn get_flag_to_bandit_associations(config: &UniversalFlagConfig) -> (r: Vec<FlagAssociations>)
    ensures
        forall|f: Seq<char>, vv: Seq<char>|
            #[trigger] spec_assoc_lookup(r@, f, vv) == assoc_map_lookup(
                flatten_bandit_variations(config.bandits@),
                f,
                vv,
            ),
{
    let mut acc: Vec<FlagAssociations> = Vec::new();
    let ghost mut processed = Seq::<BanditVariation>::empty();
    let n = config.bandits.len();
    for j in 0..n
        invariant
            n == config.bandits@.len(),
            processed == flatten_bandit_variations(config.bandits@.subrange(0, j as int)),
            forall|f: Seq<char>, vv: Seq<char>|
                #[trigger] spec_assoc_lookup(acc@, f, vv) == assoc_map_lookup(processed, f, vv),
    {
        let inner = &config.bandits[j].1;
        let m = inner.len();
        for k in 0..m
            invariant
                n == config.bandits@.len(),
                j < n,
                m == inner@.len(),
                inner@ == config.bandits@[j as int].1@,
                processed == flatten_bandit_variations(config.bandits@.subrange(0, j as int))
                    + inner@.subrange(0, k as int),
                forall|f: Seq<char>, vv: Seq<char>|
                    #[trigger] spec_assoc_lookup(acc@, f, vv) == assoc_map_lookup(processed, f, vv),
        {
            let v = inner[k].duplicate();
            let ghost before = processed;
            assoc_insert(&mut acc, v);
            proof {
                processed = before.push(inner@[k as int]);
                assert(processed.drop_last() =~= before);
                assert(flatten_bandit_variations(config.bandits@.subrange(0, j as int))
                    + inner@.subrange(0, k + 1) =~= processed);
            }
        }
        proof {
            let pre = config.bandits@.subrange(0, j + 1);
            assert(pre.drop_last() =~= config.bandits@.subrange(0, j as int));
            assert(pre.last() == config.bandits@[j as int]);
            assert(inner@.subrange(0, m as int) =~= inner@);
            assert(processed == flatten_bandit_variations(pre));
        }
    }
    proof {
        assert(config.bandits@.subrange(0, n as int) =~= config.bandits@);
    }
    acc
}

/// The flag entry of `s` under `key`, if any; a later entry shadows an
/// earlier one.
pub open spec fn spec_flag_lookup(s: Seq<(String, TryParse)>, key: Seq<char>) -> Option<TryParse>
    decreases s.len(),
{
    if s.len() == 0 {
        None
    } else if s.last().0@ == key {
        Some(s.last().1)
    } else {
        spec_flag_lookup(s.drop_last(), key)
    }
}

/// The bandit configuration of `s` under `key`, if any; a later entry
/// shadows an earlier one.
pub open spec fn spec_bandit_lookup(
    s: Seq<(String, BanditConfiguration)>,
    key: Seq<char>,
) -> Option<BanditConfiguration>
    decreases s.len(),
{
    if s.len() == 0 {
        None
    } else if s.last().0@ == key {
        Some(s.last().1)
    } else {
        spec_bandit_lookup(s.drop_last(), key)
    }
}

/// Remote configuration: the central immutable snapshot that drives
/// evaluation.
#[derive(Debug)]
pub struct Configuration {
    /// When this snapshot was received, in milliseconds since the Unix
    /// epoch.
    pub fetched_at_unix_ms: i64,
    /// Flags configuration.
    pub flags: UniversalFlagConfig,
    /// Bandits configuration.
    pub bandits: Option<BanditResponse>,
    /// Mapping from flag key to flag variation value to bandit variation,
    /// derived from `flags.bandits` at construction time.
    pub flag_to_bandit_associations: Vec<FlagAssociations>,
}

/// Relies on `chrono::Utc::now`: the moment this snapshot was received.
/// Nothing is promised of the clock's value.
#[verifier::external_body]
fn now_unix_millis() -> i64 {
    chrono::Utc::now().timestamp_millis()
}

impl Configuration {
    /// What the snapshot's derived index binds to `(flag_key,
    /// variation_value)`.
    pub open spec fn spec_bandit_association(
        &self,
        flag_key: Seq<char>,
        variation_value: Seq<char>,
    ) -> Option<BanditVariation> {
        spec_assoc_lookup(self.flag_to_bandit_associations@, flag_key, variation_value)
    }

    /// The bandit configuration the snapshot holds under `bandit_key`.
    pub open spec fn spec_get_bandit(&self, bandit_key: Seq<char>) -> Option<BanditConfiguration> {
        match self.bandits {
            None => None,
            Some(ref resp) => spec_bandit_lookup(resp.bandits@, bandit_key),
        }
    }

    /// The flag entry the snapshot holds under `flag_key`.
    pub open spec fn spec_get_flag(&self, flag_key: Seq<char>) -> Option<TryParse> {
        spec_flag_lookup(self.flags.flags@, flag_key)
    }

    /// Creates a configuration from server responses.  Never fails: flags
    /// that failed to parse are kept in their failed state, and the
    /// flag-to-bandit index is derived by folding over all bandit
    /// variation lists.
    pub fn from_server_response(config: UniversalFlagConfig, bandits: Option<BanditResponse>) -> (r:
        Configuration)
        ensures
            r.flags == config,
            r.bandits == bandits,
            forall|f: Seq<char>, vv: Seq<char>|
                #[trigger] r.spec_bandit_association(f, vv) == assoc_map_lookup(
                    flatten_bandit_variations(config.bandits@),
                    f,
                    vv,
                ),
    {
        let fetched_at_unix_ms = now_unix_millis();
        let flag_to_bandit_associations = get_flag_to_bandit_associations(&config);
        Configuration { fetched_at_unix_ms, flags: config, bandits, flag_to_bandit_associations }
    }

    /// Looks the flag entry under `flag_key` up.
    pub fn get_flag(&self, flag_key: &str) -> (r: Option<&TryParse>)
        ensures
            match r {
                Some(t) => self.spec_get_flag(flag_key@) == Some(*t),
                None => self.spec_get_flag(flag_key@) is None,
            },
    {
        let entries = &self.flags.flags;
        let n = entries.len();
        let mut found: Option<&TryParse> = None;
        proof {
            assert(entries@.subrange(0, 0) =~= Seq::<(String, TryParse)>::empty());
        }
        for i in 0..n
            invariant
                n == entries@.len(),
                ({
                    let so_far = spec_flag_lookup(entries@.subrange(0, i as int), flag_key@);
                    match found {
                        Some(t) => so_far == Some(*t),
                        None => so_far is None,
                    }
                }),
        {
            let ghost prefix = entries@.subrange(0, i as int);
            let entry = &entries[i];
            if str_eq(entry.0.as_str(), flag_key) {
                found = Some(&entry.1);
            }
            proof {
                let ext = entries@.subrange(0, i + 1);
                assert(ext.drop_last() =~= prefix);
                assert(ext.last() == entries@[i as int]);
            }
        }
        proof {
            assert(entries@.subrange(0, n as int) =~= entries@);
        }
        found
    }

    /// The bandit key associated with `(flag_key, variation_value)` by the
    /// derived index, if any.
    pub fn get_bandit_key(&self, flag_key: &str, variation_value: &str) -> (r: Option<&String>)
        ensures
            match r {
                Some(k) => self.spec_bandit_association(flag_key@, variation_value@) matches Some(
                    bv,
                ) && bv.key@ == k@,
                None => self.spec_bandit_association(flag_key@, variation_value@) is None,
            },
    {
        let assoc = &self.flag_to_bandit_associations;
        let n = assoc.len();
        let mut idx: Option<usize> = None;
        for i in 0..n
            invariant
                n == assoc@.len(),
                match idx {
                    Some(i0) => {
                        &&& 0 <= i0 < i
                        &&& assoc@[i0 as int].flag_key@ == flag_key@
                        &&& forall|j: int|
                            0 <= j < i0 ==> (#[trigger] assoc@[j]).flag_key@ != flag_key@
                    },
                    None => forall|j: int|
                        0 <= j < i ==> (#[trigger] assoc@[j]).flag_key@ != flag_key@,
                },
        {
            if idx.is_none() && str_eq(assoc[i].flag_key.as_str(), flag_key) {
                idx = Some(i);
            }
        }
        match idx {
            None => {
                proof {
                    lemma_outer_index_props(assoc@, flag_key@);
                }
                None
            },
            Some(i) => {
                proof {
                    lemma_outer_index_of_first_match(assoc@, flag_key@, i as int);
                }
                let inner = &assoc[i].variations;
                let m = inner.len();
                let mut found: Option<&BanditVariation> = None;
                proof {
                    assert(inner@.subrange(0, 0) =~= Seq::<BanditVariation>::empty());
                }
                for k in 0..m
                    invariant
                        m == inner@.len(),
                        ({
                            let so_far = inner_lookup(
                                inner@.subrange(0, k as int),
                                variation_value@,
                            );
                            match found {
                                Some(bv) => so_far == Some(*bv),
                                None => so_far is None,
                            }
                        }),
                {
                    let ghost prefix = inner@.subrange(0, k as int);
                    let bv = &inner[k];
                    if str_eq(bv.variation_value.as_str(), variation_value) {
                        found = Some(bv);
                    }
                    proof {
                        let ext = inner@.subrange(0, k + 1);
                        assert(ext.drop_last() =~= prefix);
                        assert(ext.last() == inner@[k as int]);
                    }
                }
                proof {
                    assert(inner@.subrange(0, m as int) =~= inner@);
                }
                match found {
                    Some(bv) => Some(&bv.key),
                    None => None,
                }
            },
        }
    }

    /// The bandit configuration for `bandit_key`, if the snapshot holds
    /// bandits and knows that key.
    pub fn get_bandit(&self, bandit_key: &str) -> (r: Option<&BanditConfiguration>)
        ensures
            match r {
                Some(b) => self.spec_get_bandit(bandit_key@) == Some(*b),
                None => self.spec_get_bandit(bandit_key@) is None,
            },
    {
        match &self.bandits {
            None => None,
            Some(resp) => {
                let entries = &resp.bandits;
                let n = entries.len();
                let mut found: Option<&BanditConfiguration> = None;
                proof {
                    assert(entries@.subrange(0, 0) =~= Seq::<(String, BanditConfiguration)>::empty());
                }
                for i in 0..n
                    invariant
                        n == entries@.len(),
                        ({
                            let so_far = spec_bandit_lookup(
                                entries@.subrange(0, i as int),
                                bandit_key@,
                            );
                            match found {
                                Some(b) => so_far == Some(*b),
                                None => so_far is None,
                            }
                        }),
                {
                    let ghost prefix = entries@.subrange(0, i as int);
                    let entry = &entries[i];
                    if str_eq(entry.0.as_str(), bandit_key) {
                        found = Some(&entry.1);
                    }
                    proof {
                        let ext = entries@.subrange(0, i + 1);
                        assert(ext.drop_last() =~= prefix);
                        assert(ext.last() == entries@[i as int]);
                    }
                }
                proof {
                    assert(entries@.subrange(0, n as int) =~= entries@);
                }
                found
            },
        }
    }
}

} // verus!

//! Merging the topology's tiers into a pre-existing static cluster
//! configuration: for every topology tier the merged configuration carries
//! that tier's `replication_factor` — the topology always wins for that key —
//! while every other static key passes through untouched.

use vstd::prelude::*;
use vstd::string::StringExecFns;
use crate::text::{dec_rep, str_eq, u64_to_dec};
use crate::topology::{names_unique, NamedTier};

verus! {

/// One key of a static tier mapping; the value is carried as opaque text,
/// rendered by the caller.
#[derive(Debug)]
pub struct ConfigField {
    pub key: String,
    pub value_text: String,
}

/// The static configuration of one tier: a mapping the merge can write
/// into, or any other value, which passes through untouched.
#[derive(Debug)]
pub enum TierValue {
    Mapping(Vec<ConfigField>),
    Opaque(String),
}

/// One tier of the static cluster configuration, under its name.
#[derive(Debug)]
pub struct StaticTier {
    pub name: String,
    pub value: TierValue,
}

/// Whether some field carries this key.
pub open spec fn spec_has_key(fields: Seq<ConfigField>, key: Seq<char>) -> bool {
    exists|j: int| 0 <= j < fields.len() && (#[trigger] fields[j]).key@ == key
}

/// How setting one key changes a field list: the first field of that key
/// gets the new value and every other field is untouched; without one, the
/// new field is appended.
pub open spec fn fields_updated(
    old_fields: Seq<ConfigField>,
    new_fields: Seq<ConfigField>,
    key: Seq<char>,
    value: Seq<char>,
) -> bool {
    if spec_has_key(old_fields, key) {
        &&& new_fields.len() == old_fields.len()
        &&& exists|j: int|
            {
                &&& 0 <= j < old_fields.len()
                &&& (#[trigger] old_fields[j]).key@ == key
                &&& (forall|m: int| 0 <= m < j ==> (#[trigger] old_fields[m]).key@ != key)
                &&& (forall|m: int|
                    0 <= m < old_fields.len() && m != j ==> #[trigger] new_fields[m]
                        == old_fields[m])
                &&& new_fields[j].key@ == key
                &&& new_fields[j].value_text@ == value
            }
    } else {
        &&& new_fields.len() == old_fields.len() + 1
        &&& (forall|m: int|
            0 <= m < old_fields.len() ==> #[trigger] new_fields[m] == old_fields[m])
        &&& new_fields.last().key@ == key
        &&& new_fields.last().value_text@ == value
    }
}

/// Whether a tier name is declared by the static configuration.
pub open spec fn spec_has_tier(s: Seq<StaticTier>, name: Seq<char>) -> bool {
    exists|k: int| 0 <= k < s.len() && (#[trigger] s[k]).name@ == name
}

/// How the merge changes one static tier value: a mapping gets the
/// replication factor written, anything else passes through.
pub open spec fn spec_value_updated(oldv: TierValue, newv: TierValue, value: Seq<char>) -> bool {
    match oldv {
        TierValue::Opaque(_) => newv == oldv,
        TierValue::Mapping(f) => newv matches TierValue::Mapping(f2) && fields_updated(
            f@,
            f2@,
            "replication_factor"@,
            value,
        ),
    }
}

/// A tier entry created by the merge: the name, and a mapping holding the
/// replication factor alone.
pub open spec fn spec_fresh_tier(e: StaticTier, name: Seq<char>, rf: u8) -> bool {
    &&& e.name@ == name
    &&& e.value matches TierValue::Mapping(fields) && fields@.len() == 1
        && fields@[0].key@ == "replication_factor"@
        && fields@[0].value_text@ == dec_rep(rf as nat)
}

fn set_replication_factor(fields: &mut Vec<ConfigField>, value_text: String)
    ensures
        fields_updated(old(fields)@, final(fields)@, "replication_factor"@, value_text@),
{
    let n = fields.len();
    let mut j: usize = 0;
    while j < n
        invariant
            0 <= j <= n,
            n == fields@.len(),
            fields@ == old(fields)@,
            forall|m: int|
                0 <= m < j ==> (#[trigger] fields@[m]).key@ != "replication_factor"@,
        decreases n - j,
    {
        if str_eq(fields[j].key.as_str(), "replication_factor") {
            let e = &mut fields[j];
            e.value_text = value_text;
            proof {
                assert(final(fields)@[j as int].key@ == "replication_factor"@);
            }
            return;
        }
        j += 1;
    }
    fields.push(ConfigField { key: "replication_factor".to_owned(), value_text });
}

fn find_static_index(merged: &Vec<StaticTier>, upto: usize, name: &String) -> (r: Option<usize>)
    requires
        upto <= merged@.len(),
    ensures
        r matches Some(k) ==> k < upto && merged@[k as int].name@ == name@,
        r is None ==> forall|m: int| 0 <= m < upto ==> (#[trigger] merged@[m]).name@ != name@,
{
    let mut k: usize = 0;
    while k < upto
        invariant
            0 <= k <= upto,
            upto <= merged@.len(),
            forall|m: int| 0 <= m < k ==> (#[trigger] merged@[m]).name@ != name@,
        decreases upto - k,
    {
        if str_eq(merged[k].name.as_str(), name.as_str()) {
            return Some(k);
        }
        k += 1;
    }
    None
}

/// Overlays the topology's tiers onto the static tier configuration, as the
/// node receives it: every topology tier's `replication_factor` is written
/// into its static mapping — the topology wins for that key — other static
/// keys and tiers pass through untouched, and topology tiers the static
/// configuration does not know are appended, in declaration order.
pub fn merge_tier_config(merged: &mut Vec<StaticTier>, tiers: &Vec<NamedTier>)
    requires
        names_unique(old(merged)@.map(|i: int, t: StaticTier| t.name@)),
        names_unique(tiers@.map(|i: int, t: NamedTier| t.name@)),
    ensures
        ({
            let orig = old(merged)@;
            let out = final(merged)@;
            let missing = tiers@.filter(|t: NamedTier| !spec_has_tier(orig, t.name@));
            &&& out.len() == orig.len() + missing.len()
            &&& (forall|k: int| 0 <= k < orig.len() ==> (#[trigger] out[k]).name == orig[k].name)
            &&& (forall|k: int|
                0 <= k < orig.len() && (forall|i: int|
                    0 <= i < tiers@.len() ==> (#[trigger] tiers@[i]).name@ != orig[k].name@)
                    ==> #[trigger] out[k] == orig[k])
            &&& (forall|k: int, i: int|
                0 <= k < orig.len() && 0 <= i < tiers@.len() && (#[trigger] tiers@[i]).name@
                    == (#[trigger] orig[k]).name@ ==> spec_value_updated(
                    orig[k].value,
                    out[k].value,
                    dec_rep(tiers@[i].tier.replication_factor as nat),
                ))
            &&& (forall|m: int|
                0 <= m < missing.len() ==> spec_fresh_tier(
                    #[trigger] out[orig.len() + m],
                    missing[m].name@,
                    missing[m].tier.replication_factor,
                ))
        }),
{
    let orig_len = merged.len();
    let ghost orig = merged@;
    let ghost pred = |t: NamedTier| !spec_has_tier(orig, t.name@);
    let n = tiers.len();
    let mut i: usize = 0;
    proof {
        assert(tiers@.take(0) =~= Seq::<NamedTier>::empty());
        assert(tiers@.take(0).filter(pred) =~= Seq::<NamedTier>::empty());
    }
    while i < n
        invariant
            0 <= i <= n,
            n == tiers@.len(),
            orig_len == orig.len(),
            names_unique(orig.map(|q: int, t: StaticTier| t.name@)),
            names_unique(tiers@.map(|q: int, t: NamedTier| t.name@)),
            pred == (|t: NamedTier| !spec_has_tier(orig, t.name@)),
            merged@.len() == orig.len() + tiers@.take(i as int).filter(pred).len(),
            forall|k: int| 0 <= k < orig.len() ==> (#[trigger] merged@[k]).name == orig[k].name,
            forall|k: int|
                0 <= k < orig.len() && (forall|q: int|
                    0 <= q < i ==> (#[trigger] tiers@[q]).name@ != orig[k].name@)
                    ==> #[trigger] merged@[k] == orig[k],
            forall|k: int, q: int|
                0 <= k < orig.len() && 0 <= q < i && (#[trigger] tiers@[q]).name@
                    == (#[trigger] orig[k]).name@ ==> spec_value_updated(
                    orig[k].value,
                    merged@[k].value,
                    dec_rep(tiers@[q].tier.replication_factor as nat),
                ),
            forall|m: int|
                0 <= m < tiers@.take(i as int).filter(pred).len() ==> spec_fresh_tier(
                    #[trigger] merged@[orig.len() + m],
                    tiers@.take(i as int).filter(pred)[m].name@,
                    tiers@.take(i as int).filter(pred)[m].tier.replication_factor,
                ),
        decreases n - i,
    {
        let ghost done = tiers@.take(i as int).filter(pred);
        let t = &tiers[i];
        let value_text = u64_to_dec(t.tier.replication_factor as u64);
        proof {
            assert(tiers@.take(i as int + 1).drop_last() =~= tiers@.take(i as int));
            assert(tiers@.take(i as int + 1).last() == tiers@[i as int]);
        }
        match find_static_index(merged, orig_len, &t.name) {
            Some(k) => {
                proof {
                    assert(spec_has_tier(orig, tiers@[i as int].name@)) by {
                        assert(merged@[k as int].name == orig[k as int].name);
                    }
                    assert(tiers@.take(i as int + 1).filter(pred) =~= done) by {
                        reveal_with_fuel(Seq::filter, 2);
                    }
                    // this entry was untouched so far: no earlier tier names it
                    assert forall|q: int| 0 <= q < i implies (#[trigger] tiers@[q]).name@
                        != orig[k as int].name@ by {
                        let tnames = tiers@.map(|w: int, x: NamedTier| x.name@);
                        assert(tnames[q] == tiers@[q].name@);
                        assert(tnames[i as int] == tiers@[i as int].name@);
                        assert(merged@[k as int].name == orig[k as int].name);
                    }
                    assert(merged@[k as int] == orig[k as int]);
                }
                let ghost before = merged@;
                let entry = &mut merged[k];
                match &mut entry.value {
                    TierValue::Mapping(fields) => {
                        set_replication_factor(fields, value_text);
                    },
                    TierValue::Opaque(_) => {},
                }
                proof {
                    assert(merged@.len() == before.len());
                    assert(forall|k2: int|
                        0 <= k2 < before.len() && k2 != k ==> #[trigger] merged@[k2]
                            == before[k2]);
                    assert(spec_value_updated(
                        orig[k as int].value,
                        merged@[k as int].value,
                        dec_rep(tiers@[i as int].tier.replication_factor as nat),
                    ));
                    // entries other than k keep their values; uniqueness keeps
                    // every other clause intact
                    assert forall|k2: int, q: int|
                        0 <= k2 < orig.len() && 0 <= q < i + 1 && (#[trigger] tiers@[q]).name@
                            == (#[trigger] orig[k2]).name@ implies spec_value_updated(
                        orig[k2].value,
                        merged@[k2].value,
                        dec_rep(tiers@[q].tier.replication_factor as nat),
                    ) by {
                        let snames = orig.map(|w: int, x: StaticTier| x.name@);
                        assert(snames[k2] == orig[k2].name@);
                        assert(snames[k as int] == orig[k as int].name@);
                        if k2 != k as int {
                            assert(merged@[k2] == before[k2]);
                        }
                    }
                }
            },
            None => {
                proof {
                    assert(!spec_has_tier(orig, tiers@[i as int].name@)) by {
                        if spec_has_tier(orig, tiers@[i as int].name@) {
                            let w = choose|w: int|
                                0 <= w < orig.len() && (#[trigger] orig[w]).name@
                                    == tiers@[i as int].name@;
                            assert(merged@[w].name == orig[w].name);
                        }
                    }
                    assert(tiers@.take(i as int + 1).filter(pred) =~= done.push(
                        tiers@[i as int],
                    )) by {
                        reveal_with_fuel(Seq::filter, 2);
                    }
                }
                merged.push(
                    StaticTier {
                        name: t.name.clone(),
                        value: TierValue::Mapping(
                            vec![
                                ConfigField {
                                    key: "replication_factor".to_owned(),
                                    value_text,
                                },
                            ],
                        ),
                    },
                );
            },
        }
        i += 1;
    }
    proof {
        assert(tiers@.take(n as int) =~= tiers@);
    }
}

} // verus!

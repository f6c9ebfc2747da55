//! Instance planning: one plan entry per tier slot, with identifier and
//! port assignment. Ports are fixed offsets from their base, so the whole
//! assignment is a function of the topology and the two base ports.

use vstd::prelude::*;
use crate::topology::{NamedTier, Topology, tier_count, total_count};

verus! {

/// The base of the iproto port range; instance `i` listens on `BIN_PORT_BASE + i`.
pub const BIN_PORT_BASE: u16 = 3000;

/// One planned instance: its 1-based identifier, its three ports, and the
/// tier it belongs to.
#[derive(Clone, Debug)]
pub struct InstancePlan {
    pub instance_id: u16,
    pub bin_port: u16,
    pub http_port: u16,
    pub pg_port: u16,
    pub tier: String,
}

/// Why no plan exists for a topology.
#[derive(Clone, Copy, Debug, PartialEq, Eq, Structural)]
pub enum PlanError {
    /// A port offset would leave the 16-bit port space.
    PortRangeExhausted,
}

/// The tier name of the instance in slot `k` (0-based), walking the tiers in
/// declaration order, each contributing `tier_count` slots.
pub open spec fn slot_tier(tiers: Seq<NamedTier>, k: int) -> Seq<char>
    decreases tiers.len(),
{
    if tiers.len() == 0 {
        Seq::<char>::empty()
    } else if k < tier_count(tiers[0].tier) {
        tiers[0].name@
    } else {
        slot_tier(tiers.drop_first(), k - tier_count(tiers[0].tier))
    }
}

proof fn lemma_total_count_take_succ(tiers: Seq<NamedTier>, i: int)
    requires
        0 <= i < tiers.len(),
    ensures
        total_count(tiers.take(i + 1)) == total_count(tiers.take(i)) + tier_count(tiers[i].tier),
    decreases i,
{
    if i == 0 {
        assert(tiers.take(0) =~= Seq::<NamedTier>::empty());
        assert(tiers.take(1)[0] == tiers[0]);
        assert(tiers.take(1).drop_first() =~= Seq::<NamedTier>::empty());
    } else {
        lemma_total_count_take_succ(tiers.drop_first(), i - 1);
        assert(tiers.take(i + 1)[0] == tiers[0]);
        assert(tiers.take(i)[0] == tiers[0]);
        assert(tiers.take(i + 1).drop_first() =~= tiers.drop_first().take(i));
        assert(tiers.take(i).drop_first() =~= tiers.drop_first().take(i - 1));
        assert(tiers.drop_first()[i - 1] == tiers[i]);
    }
}

proof fn lemma_total_count_take_le(tiers: Seq<NamedTier>, i: int)
    requires
        0 <= i <= tiers.len(),
    ensures
        total_count(tiers.take(i)) <= total_count(tiers),
    decreases tiers.len() - i,
{
    if i == tiers.len() {
        assert(tiers.take(i) =~= tiers);
    } else {
        lemma_total_count_take_le(tiers, i + 1);
        lemma_total_count_take_succ(tiers, i);
    }
}

proof fn lemma_slot_tier_at(tiers: Seq<NamedTier>, i: int, k: int)
    requires
        0 <= i < tiers.len(),
        total_count(tiers.take(i)) <= k < total_count(tiers.take(i)) + tier_count(tiers[i].tier),
    ensures
        slot_tier(tiers, k) == tiers[i].name@,
    decreases i,
{
    if i == 0 {
        assert(tiers.take(0) =~= Seq::<NamedTier>::empty());
    } else {
        assert(tiers.take(i)[0] == tiers[0]);
        assert(tiers.take(i).drop_first() =~= tiers.drop_first().take(i - 1));
        assert(tiers.drop_first()[i - 1] == tiers[i]);
        lemma_slot_tier_at(tiers.drop_first(), i - 1, k - tier_count(tiers[0].tier));
    }
}

/// Plans one instance per tier slot, in tier declaration order. Succeeds
/// exactly when all three port ranges fit in the 16-bit port space; every
/// entry's identifier and ports are fixed functions of its slot index.
pub fn plan_instances(topology: &Topology, base_http_port: u16, base_pg_port: u16) -> (r: Result<
    Vec<InstancePlan>,
    PlanError,
>)
    ensures
        r is Ok <==> {
            &&& topology.spec_instance_total() + BIN_PORT_BASE <= u16::MAX
            &&& topology.spec_instance_total() + base_http_port <= u16::MAX
            &&& topology.spec_instance_total() + base_pg_port <= u16::MAX
        },
        r matches Ok(plan) ==> {
            &&& plan@.len() == topology.spec_instance_total()
            &&& (forall|k: int|
                0 <= k < plan@.len() ==> {
                    &&& (#[trigger] plan@[k]).instance_id == k + 1
                    &&& plan@[k].bin_port == BIN_PORT_BASE + k + 1
                    &&& plan@[k].http_port == base_http_port + k + 1
                    &&& plan@[k].pg_port == base_pg_port + k + 1
                    &&& plan@[k].tier@ == slot_tier(topology.tiers@, k)
                })
        },
{
    let total64: u64 = match topology.instance_total() {
        Some(t) => t,
        None => {
            return Err(PlanError::PortRangeExhausted);
        },
    };
    if total64 > (u16::MAX - BIN_PORT_BASE) as u64 {
        return Err(PlanError::PortRangeExhausted);
    }
    if total64 > (u16::MAX - base_http_port) as u64 {
        return Err(PlanError::PortRangeExhausted);
    }
    if total64 > (u16::MAX - base_pg_port) as u64 {
        return Err(PlanError::PortRangeExhausted);
    }
    let total: u16 = total64 as u16;

    let tier_count_n = topology.tiers.len();
    let mut plan: Vec<InstancePlan> = Vec::new();
    let mut i: usize = 0;
    proof {
        assert(topology.tiers@.take(0) =~= Seq::<NamedTier>::empty());
    }
    while i < tier_count_n
        invariant
            0 <= i <= tier_count_n,
            tier_count_n == topology.tiers@.len(),
            total as nat == topology.spec_instance_total(),
            total + BIN_PORT_BASE <= u16::MAX,
            total + base_http_port <= u16::MAX,
            total + base_pg_port <= u16::MAX,
            plan@.len() == total_count(topology.tiers@.take(i as int)),
            forall|k: int|
                0 <= k < plan@.len() ==> {
                    &&& (#[trigger] plan@[k]).instance_id == k + 1
                    &&& plan@[k].bin_port == BIN_PORT_BASE + k + 1
                    &&& plan@[k].http_port == base_http_port + k + 1
                    &&& plan@[k].pg_port == base_pg_port + k + 1
                    &&& plan@[k].tier@ == slot_tier(topology.tiers@, k)
                },
        decreases tier_count_n - i,
    {
        let t = topology.tiers[i].tier;
        proof {
            assert((t.replicasets as int) * (t.replication_factor as int) <= 65025)
                by (nonlinear_arith)
                requires
                    (t.replicasets as int) <= 255,
                    (t.replication_factor as int) <= 255,
                    (t.replicasets as int) >= 0,
                    (t.replication_factor as int) >= 0,
            ;
        }
        let cnt: u16 = (t.replicasets as u16) * (t.replication_factor as u16);
        proof {
            assert(cnt as nat == tier_count(t));
            lemma_total_count_take_succ(topology.tiers@, i as int);
            lemma_total_count_take_le(topology.tiers@, i as int + 1);
        }
        let mut j: u16 = 0;
        while j < cnt
            invariant
                0 <= j <= cnt,
                i < tier_count_n,
                tier_count_n == topology.tiers@.len(),
                cnt as nat == tier_count(topology.tiers@[i as int].tier),
                total as nat == topology.spec_instance_total(),
                total + BIN_PORT_BASE <= u16::MAX,
                total + base_http_port <= u16::MAX,
                total + base_pg_port <= u16::MAX,
                total_count(topology.tiers@.take(i as int)) + cnt <= total,
                plan@.len() == total_count(topology.tiers@.take(i as int)) + j,
                forall|k: int|
                    0 <= k < plan@.len() ==> {
                        &&& (#[trigger] plan@[k]).instance_id == k + 1
                        &&& plan@[k].bin_port == BIN_PORT_BASE + k + 1
                        &&& plan@[k].http_port == base_http_port + k + 1
                        &&& plan@[k].pg_port == base_pg_port + k + 1
                        &&& plan@[k].tier@ == slot_tier(topology.tiers@, k)
                    },
            decreases cnt - j,
        {
            let id: u16 = (plan.len() as u16) + 1;
            let entry = InstancePlan {
                instance_id: id,
                bin_port: BIN_PORT_BASE + id,
                http_port: base_http_port + id,
                pg_port: base_pg_port + id,
                tier: topology.tiers[i].name.clone(),
            };
            proof {
                lemma_slot_tier_at(topology.tiers@, i as int, plan@.len() as int);
            }
            plan.push(entry);
            j += 1;
        }
        i += 1;
    }
    proof {
        assert(topology.tiers@.take(tier_count_n as int) =~= topology.tiers@);
    }
    Ok(plan)
}

/// The three port ranges of one run never collide: within a plan whose entry
/// `k` holds ports `base + k + 1`, ports of one kind are pairwise distinct,
/// and ports of different kinds are distinct whenever the three base ranges
/// do not overlap.
pub proof fn lemma_plan_ports_pairwise_distinct(
    plan: Seq<InstancePlan>,
    base_http_port: u16,
    base_pg_port: u16,
)
    requires
        forall|k: int|
            0 <= k < plan.len() ==> {
                &&& (#[trigger] plan[k]).bin_port == BIN_PORT_BASE + k + 1
                &&& plan[k].http_port == base_http_port + k + 1
                &&& plan[k].pg_port == base_pg_port + k + 1
            },
        BIN_PORT_BASE + plan.len() <= base_http_port || base_http_port + plan.len()
            <= BIN_PORT_BASE,
        BIN_PORT_BASE + plan.len() <= base_pg_port || base_pg_port + plan.len() <= BIN_PORT_BASE,
        base_http_port + plan.len() <= base_pg_port || base_pg_port + plan.len()
            <= base_http_port,
    ensures
        forall|a: int, b: int|
            0 <= a < plan.len() && 0 <= b < plan.len() && a != b ==> (#[trigger] plan[a]).bin_port
                != (#[trigger] plan[b]).bin_port && plan[a].http_port != plan[b].http_port
                && plan[a].pg_port != plan[b].pg_port,
        forall|a: int, b: int|
            0 <= a < plan.len() && 0 <= b < plan.len() ==> (#[trigger] plan[a]).bin_port
                != (#[trigger] plan[b]).http_port && plan[a].bin_port != plan[b].pg_port
                && plan[a].http_port != plan[b].pg_port,
{
}

} // verus!

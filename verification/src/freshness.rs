//! Freshness and staleness policy.

use vstd::prelude::*;

use crate::battery::{BatteryComponent, ComponentType};
use crate::device::ConnectionState;
use crate::timestamp::{elapsed_exceeds, Duration, Timestamp};

verus! {

/// Time-to-stale policy for battery components.
#[derive(Debug, Clone, Copy, PartialEq, Eq, Structural)]
pub struct FreshnessPolicy {
    /// Case values are short-lived because the case advertises intermittently.
    pub case_ttl: Duration,
    /// Earbud component freshness.
    pub earbud_ttl: Duration,
    /// Aggregate and headset freshness.
    pub aggregate_ttl: Duration,
}

impl Default for FreshnessPolicy {
    fn default() -> (r: FreshnessPolicy)
        ensures
            r.case_ttl.nanos == 90_000_000_000,
            r.earbud_ttl.nanos == 300_000_000_000,
            r.aggregate_ttl.nanos == 300_000_000_000,
    {
        FreshnessPolicy {
            case_ttl: Duration::seconds(90),
            earbud_ttl: Duration::minutes(5),
            aggregate_ttl: Duration::minutes(5),
        }
    }
}

impl FreshnessPolicy {
    /// The time-to-stale of a component type.
    pub open spec fn spec_ttl_for(self, component_type: ComponentType) -> Duration {
        match component_type {
            ComponentType::Case => self.case_ttl,
            ComponentType::Left | ComponentType::Right => self.earbud_ttl,
            ComponentType::Headset | ComponentType::Aggregate | ComponentType::Unknown => {
                self.aggregate_ttl
            },
        }
    }

    fn ttl_for(self, component_type: ComponentType) -> (r: Duration)
        ensures
            r == self.spec_ttl_for(component_type),
    {
        match component_type {
            ComponentType::Case => self.case_ttl,
            ComponentType::Left | ComponentType::Right => self.earbud_ttl,
            ComponentType::Headset | ComponentType::Aggregate | ComponentType::Unknown => {
                self.aggregate_ttl
            },
        }
    }
}

/// Whether a component counts as stale at `now`: it already was, it is older
/// than its time-to-stale, or its device is disconnected.
pub open spec fn is_expired(
    c: BatteryComponent,
    now: Timestamp,
    connection_state: ConnectionState,
    policy: FreshnessPolicy,
) -> bool {
    c.stale || now.unix_nanos - c.updated_at.unix_nanos > policy.spec_ttl_for(
        c.component_type,
    ).nanos || connection_state == ConnectionState::Disconnected
}

/// `c` with its staleness evaluated at `now`; nothing else changes.
pub open spec fn expire_one(
    c: BatteryComponent,
    now: Timestamp,
    connection_state: ConnectionState,
    policy: FreshnessPolicy,
) -> BatteryComponent {
    BatteryComponent { stale: is_expired(c, now, connection_state, policy), ..c }
}

/// Every component of `cs` with its staleness evaluated at `now`.
pub open spec fn expire_all(
    cs: Seq<BatteryComponent>,
    now: Timestamp,
    connection_state: ConnectionState,
    policy: FreshnessPolicy,
) -> Seq<BatteryComponent> {
    cs.map_values(|c: BatteryComponent| expire_one(c, now, connection_state, policy))
}

/// Applies staleness rules without deleting the last known value.
pub fn expire_components(
    components: &[BatteryComponent],
    now: Timestamp,
    connection_state: ConnectionState,
    policy: FreshnessPolicy,
) -> (r: Vec<BatteryComponent>)
    ensures
        r@ == expire_all(components@, now, connection_state, policy),
{
    let mut out: Vec<BatteryComponent> = Vec::new();
    let mut i: usize = 0;
    while i < components.len()
        invariant
            i <= components@.len(),
            out@ == expire_all(components@.take(i as int), now, connection_state, policy),
        decreases components@.len() - i,
    {
        let mut c = components[i];
        let expired = elapsed_exceeds(now, c.updated_at, policy.ttl_for(c.component_type));
        c.stale = c.stale || expired || connection_state == ConnectionState::Disconnected;
        out.push(c);
        assert(expire_all(components@.take(i + 1), now, connection_state, policy) =~= expire_all(
            components@.take(i as int),
            now,
            connection_state,
            policy,
        ).push(expire_one(components@[i as int], now, connection_state, policy)));
        i = i + 1;
    }
    assert(components@.take(components@.len() as int) =~= components@);
    out
}

/// Evaluating staleness twice at the same moment gives what evaluating it once gives.
pub proof fn lemma_expire_idempotent(
    c: BatteryComponent,
    now: Timestamp,
    connection_state: ConnectionState,
    policy: FreshnessPolicy,
)
    ensures
        expire_one(expire_one(c, now, connection_state, policy), now, connection_state, policy)
            == expire_one(c, now, connection_state, policy),
{
}

/// Staleness is only ever added: a stale component stays stale at any later
/// evaluation, and the value, timestamp, source and confidence never change.
pub proof fn lemma_expire_keeps_last_value(
    c: BatteryComponent,
    now: Timestamp,
    connection_state: ConnectionState,
    policy: FreshnessPolicy,
)
    ensures
        c.stale ==> expire_one(c, now, connection_state, policy).stale,
        expire_one(c, now, connection_state, policy).percentage == c.percentage,
        expire_one(c, now, connection_state, policy).updated_at == c.updated_at,
        expire_one(c, now, connection_state, policy).component_type == c.component_type,
        expire_one(c, now, connection_state, policy).source == c.source,
        expire_one(c, now, connection_state, policy).confidence == c.confidence,
        connection_state == ConnectionState::Disconnected ==> expire_one(
            c,
            now,
            connection_state,
            policy,
        ).stale,
{
}


/// A component evaluated at `now` keeps every value and is stale exactly when
/// it already was, its device is disconnected, or it is older than the
/// time-to-stale of its type: the case time for a case, the earbud time for
/// a left or right earbud, and the aggregate time for a headset, aggregate or
/// unknown component.
pub proof fn lemma_time_to_stale(
    c: BatteryComponent,
    now: Timestamp,
    connection_state: ConnectionState,
    policy: FreshnessPolicy,
)
    ensures
        expire_one(c, now, connection_state, policy).stale == (c.stale || connection_state
            == ConnectionState::Disconnected || now.unix_nanos - c.updated_at.unix_nanos > match c.component_type {
            ComponentType::Case => policy.case_ttl.nanos,
            ComponentType::Left => policy.earbud_ttl.nanos,
            ComponentType::Right => policy.earbud_ttl.nanos,
            ComponentType::Headset => policy.aggregate_ttl.nanos,
            ComponentType::Aggregate => policy.aggregate_ttl.nanos,
            ComponentType::Unknown => policy.aggregate_ttl.nanos,
        }),
        expire_one(c, now, connection_state, policy) == (BatteryComponent {
            stale: expire_one(c, now, connection_state, policy).stale,
            ..c
        }),
{
}
} // verus!

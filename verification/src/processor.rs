//! Routes raw backend observations through protocol providers and the registry.

use vstd::prelude::*;

use crate::freshness::FreshnessPolicy;
use crate::provider::{ProviderError, RawObservation, ReportView};
use crate::providers::DeviceProvider;
use crate::registry::{
    device_after, device_or_empty, id_set, snapshot_matches, DeviceRegistry,
    DeviceSnapshot, DeviceView,
};
use crate::text::text_order;
use crate::timestamp::Timestamp;

verus! {

/// Error raised while normalizing one raw backend observation.
#[derive(Debug, Clone, PartialEq, Eq)]
pub enum ProcessingError {
    /// A provider recognized the observation but could not parse it safely.
    Provider {
        /// Stable provider identifier.
        provider_id: &'static str,
        /// Provider-specific parsing failure.
        source: ProviderError,
    },
    /// A registry snapshot could not be produced after applying an observation.
    MissingSnapshot {
        /// Backend device identifier.
        device_id: String,
    },
}

/// The registry after applying `reports` in order.
pub open spec fn apply_reports(m: Map<Seq<char>, DeviceView>, reports: Seq<ReportView>) -> Map<
    Seq<char>,
    DeviceView,
>
    decreases reports.len(),
{
    if reports.len() == 0 {
        m
    } else {
        let prev = apply_reports(m, reports.drop_last());
        let r = reports.last();
        prev.insert(r.device_id, device_after(device_or_empty(prev, r.device_id), r).0)
    }
}

/// The reports among provider outcomes.
pub open spec fn produced_reports(outcomes: Seq<Result<Option<ReportView>, ProviderError>>) -> Seq<
    ReportView,
>
    decreases outcomes.len(),
{
    if outcomes.len() == 0 {
        Seq::empty()
    } else {
        produced_reports(outcomes.drop_last()) + match outcomes.last() {
            Ok(Some(r)) => seq![r],
            _ => Seq::empty(),
        }
    }
}

/// Whether `outcomes` is what the first `outcomes.len()` providers make of
/// `observation`: a provider that does not recognize it yields nothing, and
/// only the last outcome may be an error.
pub open spec fn provider_trace<P: DeviceProvider>(
    providers: Seq<P>,
    observation: RawObservation,
    outcomes: Seq<Result<Option<ReportView>, ProviderError>>,
) -> bool {
    &&& outcomes.len() <= providers.len()
    &&& forall|i: int|
        0 <= i < outcomes.len() ==> if providers[i].spec_supports(observation) {
            providers[i].spec_parses(observation, #[trigger] outcomes[i])
        } else {
            outcomes[i] == Ok::<Option<ReportView>, ProviderError>(None)
        }
    &&& forall|i: int| 0 <= i < outcomes.len() - 1 ==> (#[trigger] outcomes[i]) is Ok
}

/// Whether a processing result and the registry after it are what one
/// observation leads to from registry `before`.
pub open spec fn processed<P: DeviceProvider>(
    providers: Seq<P>,
    policy: FreshnessPolicy,
    before: Map<Seq<char>, DeviceView>,
    observation: RawObservation,
    after: Map<Seq<char>, DeviceView>,
    result: Result<DeviceSnapshot, ProcessingError>,
) -> bool {
    let id = observation.spec_device_id();
    let at = observation.spec_observed_at();
    let settled = match result {
        Ok(s) => after.contains_key(id) && snapshot_matches(s, after[id], id, at, policy),
        Err(ProcessingError::MissingSnapshot { device_id }) => !after.contains_key(id)
            && device_id@ == id,
        Err(ProcessingError::Provider { .. }) => false,
    };
    match observation {
        RawObservation::Connection { state, .. } => after == before.insert(
            id,
            DeviceView { connection_state: state, ..device_or_empty(before, id) },
        ) && settled,
        _ => exists|outcomes: Seq<Result<Option<ReportView>, ProviderError>>|
            provider_trace(providers, observation, outcomes) && after == apply_reports(
                before,
                produced_reports(outcomes),
            ) && if outcomes.len() > 0 && outcomes.last() is Err {
                result matches Err(ProcessingError::Provider { provider_id, source }) && Err::<
                    Option<ReportView>,
                    ProviderError,
                >(source) == outcomes.last() && provider_id@ == providers[outcomes.len()
                    - 1].spec_id()
            } else {
                outcomes.len() == providers.len() && settled
            },
    }
}

/// Event-driven protocol orchestration for one application process.
pub struct ObservationProcessor<P: DeviceProvider> {
    providers: Vec<P>,
    registry: DeviceRegistry,
}

impl<P: DeviceProvider> ObservationProcessor<P> {
    /// Providers in evaluation order.
    pub closed spec fn spec_providers(&self) -> Seq<P> {
        self.providers@
    }

    /// Freshness policy applied to snapshots.
    pub closed spec fn spec_policy(&self) -> FreshnessPolicy {
        self.registry.spec_policy()
    }

    /// Known devices by backend identifier.
    pub closed spec fn view(&self) -> Map<Seq<char>, DeviceView> {
        self.registry.view()
    }

    /// Creates a processor with providers evaluated in insertion order.
    pub fn new(policy: FreshnessPolicy, providers: Vec<P>) -> (r: ObservationProcessor<P>)
        ensures
            r.spec_providers() == providers@,
            r.spec_policy() == policy,
            r.view() == Map::<Seq<char>, DeviceView>::empty(),
    {
        ObservationProcessor { providers, registry: DeviceRegistry::new(policy) }
    }

    /// Applies one raw observation and returns the current normalized device snapshot.
    pub fn process(&mut self, observation: &RawObservation) -> (r: Result<
        DeviceSnapshot,
        ProcessingError,
    >)
        ensures
            final(self).spec_providers() == old(self).spec_providers(),
            final(self).spec_policy() == old(self).spec_policy(),
            processed(
                old(self).spec_providers(),
                old(self).spec_policy(),
                old(self).view(),
                *observation,
                final(self).view(),
                r,
            ),
    {
        let (device_id, observed_at) = observation.identity();
        let ghost before = self.registry.view();
        assert(before == old(self).view());
        let ghost mut outcomes: Seq<Result<Option<ReportView>, ProviderError>> = Seq::empty();
        match observation {
            RawObservation::Connection { state, .. } => {
                self.registry.set_connection_state(device_id.as_str(), *state);
            },
            _ => {
                let n = self.providers.len();
                let mut i: usize = 0;
                while i < n
                    invariant
                        !(*observation is Connection),
                        n == self.providers@.len(),
                        i <= n,
                        self.providers@ == old(self).providers@,
                        before == old(self).view(),
                        self.registry.spec_policy() == old(self).registry.spec_policy(),
                        outcomes.len() == i,
                        provider_trace(self.providers@, *observation, outcomes),
                        forall|j: int| 0 <= j < outcomes.len() ==> (#[trigger] outcomes[j]) is Ok,
                        self.registry.view() == apply_reports(before, produced_reports(outcomes)),
                    decreases n - i,
                {
                    let provider = &self.providers[i];
                    let ghost prev = outcomes;
                    if provider.supports(observation) {
                        match provider.parse(observation) {
                            Err(source) => {
                                proof {
                                    outcomes = outcomes.push(Err(source));
                                    assert(outcomes.drop_last() =~= prev);
                                    assert(produced_reports(outcomes) =~= produced_reports(prev));
                                }
                                let pid = provider.id();
                                let r = Err(ProcessingError::Provider { provider_id: pid, source });
                                return r;
                            },
                            Ok(Some(report)) => {
                                self.registry.apply_report(&report);
                                proof {
                                    outcomes = outcomes.push(Ok(Some(report@)));
                                    assert(outcomes.drop_last() =~= prev);
                                    assert(produced_reports(outcomes) =~= produced_reports(prev).push(report@));
                                    assert(produced_reports(prev).push(report@).drop_last() =~= produced_reports(prev));
                                }
                            },
                            Ok(None) => {
                                proof {
                                    outcomes = outcomes.push(Ok(None));
                                    assert(outcomes.drop_last() =~= prev);
                                    assert(produced_reports(outcomes) =~= produced_reports(prev));
                                }
                            },
                        }
                    } else {
                        proof {
                            outcomes = outcomes.push(Ok(None));
                            assert(outcomes.drop_last() =~= prev);
                            assert(produced_reports(outcomes) =~= produced_reports(prev));
                        }
                    }
                    i = i + 1;
                }
            },
        }
        let r = match self.registry.snapshot(device_id.as_str(), observed_at) {
            Some(s) => Ok(s),
            None => Err(ProcessingError::MissingSnapshot { device_id: device_id.clone() }),
        };
        r
    }

    /// Removes provider state for devices no longer reported by the platform catalog.
    pub fn retain_devices(&mut self, device_ids: &[String])
        ensures
            final(self).spec_providers() == old(self).spec_providers(),
            final(self).spec_policy() == old(self).spec_policy(),
            final(self).view() == old(self).view().restrict(id_set(device_ids@)),
    {
        self.registry.retain_devices(device_ids);
    }

    /// Returns the current read-only snapshots, in identifier order.
    pub fn snapshots(&self, now: Timestamp) -> (r: Vec<DeviceSnapshot>)
        ensures
            forall|i: int, j: int|
                0 <= i < j < r@.len() ==> text_order(
                    (#[trigger] r@[i]).device_id@,
                    (#[trigger] r@[j]).device_id@,
                ) < 0,
            forall|id: Seq<char>|
                self.view().contains_key(id) <==> exists|i: int|
                    0 <= i < r@.len() && (#[trigger] r@[i]).device_id@ == id,
            forall|i: int|
                0 <= i < r@.len() ==> snapshot_matches(
                    #[trigger] r@[i],
                    self.view()[r@[i].device_id@],
                    r@[i].device_id@,
                    now,
                    self.spec_policy(),
                ),
    {
        self.registry.snapshots(now)
    }
}

} // verus!

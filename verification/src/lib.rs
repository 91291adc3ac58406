//! Background manager for short-range wireless device onboarding.
//!
//! The manager repeatedly scans for advertising devices, filters them by an
//! optional name pattern, and asks an external connection primitive to
//! establish an IPv6-over-radio bearer with each eligible device that is not
//! yet connected, recording each success. This crate holds the decision core:
//! the name filter, the per-round candidate selection, the record bookkeeping
//! and the stop/lifecycle state. The radio session, the sysfs writes and the
//! loop that drives the rounds live with the embedding application, which
//! feeds plain values in and carries the decided actions out.

pub mod config;
pub mod device;
pub mod filter;

use vstd::prelude::*;

use crate::device::{Device, DeviceView, DiscoveredDevice, DiscoveredDeviceView};
use crate::device::{make_record, record_of};
use crate::filter::{eligible, opt_str_view, spec_eligible};

verus! {

/// One advertisement is a connection candidate under pattern `pat`: it
/// passes the name filter and the adapter does not report it as already
/// connected.
pub open spec fn is_candidate(pat: Option<Seq<char>>, d: DiscoveredDeviceView) -> bool {
    spec_eligible(pat, d.name) && !d.connected
}

/// The advertisements of `devs` that pass the name filter, in enumeration
/// order.
pub open spec fn eligible_of(
    pat: Option<Seq<char>>,
    devs: Seq<DiscoveredDeviceView>,
) -> Seq<DiscoveredDeviceView>
    decreases devs.len(),
{
    if devs.len() == 0 {
        Seq::empty()
    } else {
        let rest = eligible_of(pat, devs.drop_last());
        if spec_eligible(pat, devs.last().name) {
            rest.push(devs.last())
        } else {
            rest
        }
    }
}

/// The connection candidates among `devs`: the advertisements that pass the
/// name filter and are not already connected, in enumeration order.
pub open spec fn candidates_of(
    pat: Option<Seq<char>>,
    devs: Seq<DiscoveredDeviceView>,
) -> Seq<DiscoveredDeviceView>
    decreases devs.len(),
{
    if devs.len() == 0 {
        Seq::empty()
    } else {
        let rest = candidates_of(pat, devs.drop_last());
        if is_candidate(pat, devs.last()) {
            rest.push(devs.last())
        } else {
            rest
        }
    }
}

/// The records one round appends: for the candidates attempted in order,
/// with `outcomes[i]` telling whether the connection procedure succeeded on
/// `attempted[i]`, exactly the records of the successes, in attempt order.
pub open spec fn records_of(
    attempted: Seq<DiscoveredDeviceView>,
    outcomes: Seq<bool>,
) -> Seq<DeviceView>
    decreases attempted.len(),
{
    if attempted.len() == 0 || outcomes.len() == 0 {
        Seq::empty()
    } else {
        let rest = records_of(attempted.drop_last(), outcomes.drop_last());
        if outcomes.last() {
            rest.push(record_of(attempted.last()))
        } else {
            rest
        }
    }
}

/// Abstract state of an [`IpspManager`]: the configured pattern, the record
/// list and the liveness flag, all as mathematical values.
#[verifier::ext_equal]
pub struct ManagerView {
    pub name_filter: Option<Seq<char>>,
    pub devices: Seq<DeviceView>,
    pub running: bool,
}

/// The onboarding manager: owns the name filter, the records of connected
/// devices (in connection order) and the liveness flag that the control loop
/// reads at each round boundary.
#[derive(Clone, Debug)]
pub struct IpspManager {
    pub name_filter: Option<String>,
    pub devices: Vec<Device>,
    pub running: bool,
}

impl View for IpspManager {
    type V = ManagerView;

    open spec fn view(&self) -> ManagerView {
        ManagerView {
            name_filter: match self.name_filter {
                Some(p) => Some(p@),
                None => None,
            },
            devices: self.devices@.map_values(|d: Device| d@),
            running: self.running,
        }
    }
}

impl IpspManager {
    /// Pure construction: no records yet, liveness flag enabled.
    pub fn new(filter: Option<String>) -> (r: Self)
        ensures
            r@.name_filter == opt_str_view(filter),
            r@.devices == Seq::<DeviceView>::empty(),
            r@.running,
    {
        let r = Self { name_filter: filter, devices: Vec::new(), running: true };
        proof {
            assert(r@.devices =~= Seq::<DeviceView>::empty());
        }
        r
    }

    /// Reads the liveness flag: the control loop continues exactly while this
    /// returns true, and checks it at every round boundary.
    pub fn is_running(&self) -> (r: bool)
        ensures
            r == self@.running,
    {
        self.running
    }

    /// Requests termination: clears the liveness flag and touches nothing
    /// else. Never fails, and never re-enables a stopped manager: once the
    /// flag is false no method of the manager sets it true again.
    pub fn stop(&mut self)
        ensures
            !final(self)@.running,
            final(self)@.name_filter == old(self)@.name_filter,
            final(self)@.devices == old(self)@.devices,
    {
        self.running = false;
    }

    /// Applies the name filter to one advertisement.
    pub fn eligible(&self, name: &Option<String>) -> (r: bool)
        ensures
            r == spec_eligible(self@.name_filter, opt_str_view(*name)),
    {
        eligible(&self.name_filter, name)
    }

    /// Prunes the enumerated set down to the advertisements that pass the
    /// name filter, keeping enumeration order.
    pub fn filter_devices_by_name(&self, devices: Vec<DiscoveredDevice>) -> (r: Vec<
        DiscoveredDevice,
    >)
        ensures
            r@.map_values(|d: DiscoveredDevice| d@) == eligible_of(
                self@.name_filter,
                devices@.map_values(|d: DiscoveredDevice| d@),
            ),
    {
        let ghost all = devices@.map_values(|d: DiscoveredDevice| d@);
        let mut out: Vec<DiscoveredDevice> = Vec::new();
        let mut idx: usize = 0;
        while idx < devices.len()
            invariant
                all == devices@.map_values(|d: DiscoveredDevice| d@),
                0 <= idx <= devices@.len(),
                out@.map_values(|d: DiscoveredDevice| d@) == eligible_of(
                    self@.name_filter,
                    all.take(idx as int),
                ),
            decreases devices@.len() - idx,
        {
            let d = &devices[idx];
            proof {
                assert(all.take(idx + 1).drop_last() =~= all.take(idx as int));
                assert(all.take(idx + 1).last() == d@);
            }
            if eligible(&self.name_filter, &d.name) {
                out.push(d.duplicate());
                proof {
                    assert(out@.map_values(|d: DiscoveredDevice| d@) =~= eligible_of(
                        self@.name_filter,
                        all.take(idx + 1),
                    ));
                }
            }
            idx += 1;
        }
        proof {
            assert(all.take(devices@.len() as int) =~= all);
        }
        out
    }

    /// Decides which of the enumerated devices this round should try to
    /// connect: those that pass the name filter and are not already
    /// connected, in enumeration order.
    pub fn connection_candidates(&self, devices: &Vec<DiscoveredDevice>) -> (r: Vec<
        DiscoveredDevice,
    >)
        ensures
            r@.map_values(|d: DiscoveredDevice| d@) == candidates_of(
                self@.name_filter,
                devices@.map_values(|d: DiscoveredDevice| d@),
            ),
    {
        let ghost all = devices@.map_values(|d: DiscoveredDevice| d@);
        let mut out: Vec<DiscoveredDevice> = Vec::new();
        let mut idx: usize = 0;
        while idx < devices.len()
            invariant
                all == devices@.map_values(|d: DiscoveredDevice| d@),
                0 <= idx <= devices@.len(),
                out@.map_values(|d: DiscoveredDevice| d@) == candidates_of(
                    self@.name_filter,
                    all.take(idx as int),
                ),
            decreases devices@.len() - idx,
        {
            let d = &devices[idx];
            proof {
                assert(all.take(idx + 1).drop_last() =~= all.take(idx as int));
                assert(all.take(idx + 1).last() == d@);
            }
            if eligible(&self.name_filter, &d.name) && !d.connected {
                out.push(d.duplicate());
                proof {
                    assert(out@.map_values(|d: DiscoveredDevice| d@) =~= candidates_of(
                        self@.name_filter,
                        all.take(idx + 1),
                    ));
                }
            }
            idx += 1;
        }
        proof {
            assert(all.take(devices@.len() as int) =~= all);
        }
        out
    }

    /// Appends the record for a device the connection procedure just
    /// succeeded on. Everything already recorded is left untouched; the
    /// filter and the liveness flag are unchanged.
    pub fn record_connection(&mut self, device: &DiscoveredDevice)
        ensures
            final(self)@.devices == old(self)@.devices.push(record_of(device@)),
            final(self)@.name_filter == old(self)@.name_filter,
            final(self)@.running == old(self)@.running,
    {
        let rec = make_record(device);
        self.devices.push(rec);
        proof {
            assert(self@.devices =~= old(self)@.devices.push(record_of(device@)));
        }
    }

    /// Applies one round's outcomes to the record list: for the devices
    /// attempted in order, appends exactly the records of the successes, in
    /// attempt order. A failure on one device never loses the success of
    /// another, and never touches the records of earlier rounds.
    pub fn apply_round(&mut self, attempted: &Vec<DiscoveredDevice>, outcomes: &Vec<bool>)
        requires
            attempted@.len() == outcomes@.len(),
        ensures
            final(self)@.devices == old(self)@.devices + records_of(
                attempted@.map_values(|d: DiscoveredDevice| d@),
                outcomes@,
            ),
            final(self)@.name_filter == old(self)@.name_filter,
            final(self)@.running == old(self)@.running,
    {
        let ghost all = attempted@.map_values(|d: DiscoveredDevice| d@);
        proof {
            assert(old(self)@.devices + records_of(all.take(0), outcomes@.take(0)) =~= old(
                self,
            )@.devices);
        }
        let mut idx: usize = 0;
        while idx < attempted.len()
            invariant
                all == attempted@.map_values(|d: DiscoveredDevice| d@),
                all.len() == outcomes@.len(),
                0 <= idx <= attempted@.len(),
                self@.devices == old(self)@.devices + records_of(
                    all.take(idx as int),
                    outcomes@.take(idx as int),
                ),
                self@.name_filter == old(self)@.name_filter,
                self@.running == old(self)@.running,
            decreases attempted@.len() - idx,
        {
            proof {
                assert(all.take(idx + 1).drop_last() =~= all.take(idx as int));
                assert(outcomes@.take(idx + 1).drop_last() =~= outcomes@.take(idx as int));
                assert(all.take(idx + 1).last() == attempted@[idx as int]@);
            }
            if outcomes[idx] {
                self.record_connection(&attempted[idx]);
                proof {
                    assert(self@.devices =~= old(self)@.devices + records_of(
                        all.take(idx + 1),
                        outcomes@.take(idx + 1),
                    ));
                }
            } else {
                proof {
                    assert(self@.devices =~= old(self)@.devices + records_of(
                        all.take(idx + 1),
                        outcomes@.take(idx + 1),
                    ));
                }
            }
            idx += 1;
        }
        proof {
            assert(all.take(attempted@.len() as int) =~= all);
            assert(outcomes@.take(outcomes@.len() as int) =~= outcomes@);
        }
    }
}

/// Per-device failure isolation: in a round that attempts device `a` and
/// then device `b`, where the connection procedure fails on `a` and succeeds
/// on `b`, the round still appends the record for `b` — and nothing else.
pub proof fn lemma_failure_isolation(a: DiscoveredDeviceView, b: DiscoveredDeviceView)
    ensures
        records_of(seq![a, b], seq![false, true]) == seq![record_of(b)],
{
    let s = seq![a, b];
    let o = seq![false, true];
    let e_d = Seq::<DiscoveredDeviceView>::empty();
    let e_b = Seq::<bool>::empty();
    let e_r = Seq::<DeviceView>::empty();
    assert(records_of(e_d, e_b) =~= e_r);
    assert(seq![a].drop_last() =~= e_d);
    assert(seq![false].drop_last() =~= e_b);
    assert(records_of(seq![a], seq![false]) =~= e_r);
    assert(s.drop_last() =~= seq![a]);
    assert(o.drop_last() =~= seq![false]);
    assert(records_of(s, o) =~= seq![record_of(b)]);
}

/// Duplicate suppression: every connection candidate of a round passes the
/// name filter, is drawn from the enumerated set, and is not already
/// connected — so an identity connected in an earlier round, which the
/// adapter reports as connected, is never attempted again.
pub proof fn lemma_duplicate_suppression(
    pat: Option<Seq<char>>,
    devs: Seq<DiscoveredDeviceView>,
    i: int,
)
    requires
        0 <= i < candidates_of(pat, devs).len(),
    ensures
        is_candidate(pat, candidates_of(pat, devs)[i]),
        !candidates_of(pat, devs)[i].connected,
        devs.contains(candidates_of(pat, devs)[i]),
    decreases devs.len(),
{
    let rest = candidates_of(pat, devs.drop_last());
    if is_candidate(pat, devs.last()) && i == rest.len() {
        assert(devs[devs.len() - 1] == devs.last());
    } else {
        lemma_duplicate_suppression(pat, devs.drop_last(), i);
        let c = candidates_of(pat, devs.drop_last())[i];
        let j = choose|j: int| 0 <= j < devs.drop_last().len() && devs.drop_last()[j] == c;
        assert(devs[j] == c);
    }
}

/// Record immutability: whenever the record list grows by appending, each
/// record already held keeps exactly its fields; nothing is rewritten or
/// reordered.
pub proof fn lemma_records_immutable(
    before: Seq<DeviceView>,
    after: Seq<DeviceView>,
    appended: Seq<DeviceView>,
)
    requires
        after == before + appended,
    ensures
        after.len() == before.len() + appended.len(),
        forall|i: int| 0 <= i < before.len() ==> after[i] == before[i],
{
}

impl Default for IpspManager {
    /// The onboarding default: the filter preset to the fixed onboarding
    /// profile name, no records yet, liveness flag enabled.
    fn default() -> (r: Self)
        ensures
            r@.name_filter == Some("GTI IPSP"@),
            r@.devices == Seq::<DeviceView>::empty(),
            r@.running,
    {
        Self::new(Some(String::from_str("GTI IPSP")))
    }
}

} // verus!

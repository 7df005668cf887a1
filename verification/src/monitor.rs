//! One tick of the status monitor: derive the ground-truth state from
//! a probe sample and emit the edge-triggered tray and notification
//! updates.

use vstd::prelude::*;
use vstd::string::StringExecFns;
use crate::status::{ProbeSample, spec_connected, connection_state};
use crate::config::{VpnConfig, spec_notifications_on, spec_portal_of, notifications_on};

verus! {

/// Which image the tray should show.
#[derive(Clone, Copy, PartialEq, Eq, Structural, Debug)]
pub enum IconTarget {
    /// The distinguished connected icon.
    Connected,
    /// The application's default icon.
    Default,
}

/// One OS notification to dispatch.
pub struct Notice {
    pub title: String,
    pub body: String,
}

/// Everything one tick asks the shell to do. The status text is set on
/// every tick; icon and notice only on a state transition.
pub struct TickEffects {
    pub status_text: String,
    pub icon: Option<IconTarget>,
    pub notice: Option<Notice>,
    pub connected: bool,
}

/// The monitor's invariant cadence: the milliseconds between two
/// ticks.
pub open spec fn spec_tick_period_millis() -> u64 {
    2000
}

/// The milliseconds the monitor worker sleeps between ticks.
pub fn tick_period_millis() -> (r: u64)
    ensures
        r == spec_tick_period_millis(),
{
    2000
}

/// The tray menu text shown for a state.
pub open spec fn spec_status_text(connected: bool) -> Seq<char> {
    if connected {
        "Status: Connected ✅"@
    } else {
        "Status: Disconnected ❌"@
    }
}

/// The notification title for a transition into a state.
pub open spec fn spec_notice_title(connected: bool) -> Seq<char> {
    if connected {
        "VPN Connected"@
    } else {
        "VPN Disconnected"@
    }
}

/// The notification body for a transition into a state; the portal
/// name falls back to the literal `portal` when no record exists.
pub open spec fn spec_notice_body(connected: bool, portal: Option<Seq<char>>) -> Seq<char> {
    if connected {
        "Successfully connected to "@ + match portal {
            Some(p) => p,
            None => "portal"@,
        }
    } else {
        "The VPN connection has been closed."@
    }
}

/// The icon change a tick requests: only on a transition, the
/// connected image on the way up, the default image on the way down.
pub open spec fn spec_tick_icon(last: bool, probe: ProbeSample) -> Option<IconTarget> {
    if spec_connected(probe) == last {
        None
    } else if spec_connected(probe) {
        Some(IconTarget::Connected)
    } else {
        Some(IconTarget::Default)
    }
}

/// Whether a tick dispatches a notification: only on a transition and
/// only with the switch on.
pub open spec fn spec_tick_notifies(last: bool, probe: ProbeSample, config: Option<VpnConfig>) -> bool {
    spec_connected(probe) != last && spec_notifications_on(config)
}

/// Computes one monitor tick. The monitor only observes: it never
/// touches the supervisor, and it re-reads the configuration record on
/// each transition rather than caching a belief.
pub fn monitor_tick(last: bool, probe: &ProbeSample, config: &Option<VpnConfig>) -> (r: TickEffects)
    ensures
        r.connected == spec_connected(*probe),
        r.status_text@ == spec_status_text(spec_connected(*probe)),
        r.icon == spec_tick_icon(last, *probe),
        r.notice is Some <==> spec_tick_notifies(last, *probe, *config),
        r.notice is Some ==> r.notice->0.title@ == spec_notice_title(spec_connected(*probe)),
        r.notice is Some ==> r.notice->0.body@ == spec_notice_body(
            spec_connected(*probe),
            spec_portal_of(*config),
        ),
{
    let connected = connection_state(probe);
    let status_text = if connected {
        String::from_str("Status: Connected ✅")
    } else {
        String::from_str("Status: Disconnected ❌")
    };
    if connected == last {
        TickEffects { status_text, icon: None, notice: None, connected }
    } else {
        let icon = if connected {
            Some(IconTarget::Connected)
        } else {
            Some(IconTarget::Default)
        };
        let notice = if notifications_on(config) {
            let title = if connected {
                String::from_str("VPN Connected")
            } else {
                String::from_str("VPN Disconnected")
            };
            let body = if connected {
                let mut b = String::from_str("Successfully connected to ");
                match config {
                    Some(cfg) => b.append(cfg.portal.as_str()),
                    None => b.append("portal"),
                }
                b
            } else {
                String::from_str("The VPN connection has been closed.")
            };
            Some(Notice { title, body })
        } else {
            None
        };
        TickEffects { status_text, icon, notice, connected }
    }
}

/// The state the monitor carries across a run of ticks, each tick
/// committing the state its sample derives.
pub open spec fn spec_monitor_last(init: bool, probes: Seq<ProbeSample>) -> bool
    decreases probes.len(),
{
    if probes.len() == 0 {
        init
    } else {
        spec_monitor_last(spec_connected(probes[0]), probes.drop_first())
    }
}

/// The monitor's carried state is a pure function of the probe
/// sequence: after any run of ticks it is the state the last sample
/// derives, whatever state the monitor started in. Together with the
/// tick contract, every icon change and notification is therefore
/// determined by the probe sequence and the record on disk alone.
pub proof fn lemma_monitor_state_pure(init: bool, probes: Seq<ProbeSample>)
    requires
        probes.len() > 0,
    ensures
        spec_monitor_last(init, probes) == spec_connected(probes.last()),
    decreases probes.len(),
{
    if probes.len() == 1 {
        assert(probes.drop_first().len() == 0);
        assert(spec_monitor_last(spec_connected(probes[0]), probes.drop_first())
            == spec_connected(probes[0]));
    } else {
        lemma_monitor_state_pure(spec_connected(probes[0]), probes.drop_first());
        assert(probes.drop_first().last() == probes.last());
    }
}

/// Edge-triggering: once a tick has committed the observed state, a
/// further tick whose probe derives the same state changes no icon and
/// dispatches no notification, whatever the probe's components or the
/// configuration record.
pub proof fn lemma_repeated_probe_is_quiet(probe: ProbeSample, again: ProbeSample, config: Option<VpnConfig>)
    requires
        spec_connected(again) == spec_connected(probe),
    ensures
        spec_tick_icon(spec_connected(probe), again) is None,
        !spec_tick_notifies(spec_connected(probe), again, config),
{
}

} // verus!

//! Ground-truth connection state, derived from two out-of-band probes:
//! process-table presence of the VPN client and presence of a `tun`
//! network interface.

use vstd::prelude::*;

verus! {

/// One sample of the two liveness signals: whether an `openconnect`
/// process is present, and whether a `tun` network interface exists.
#[derive(Clone, Copy, PartialEq, Eq, Structural, Debug)]
pub struct ProbeSample {
    pub proc_present: bool,
    pub tun_present: bool,
}

/// The displayed connection state is the conjunction of the two probe
/// signals; the supervisor's owned handle is never consulted.
pub open spec fn spec_connected(probe: ProbeSample) -> bool {
    probe.proc_present && probe.tun_present
}

/// Derives the ground-truth connection state from one probe sample.
pub fn connection_state(probe: &ProbeSample) -> (r: bool)
    ensures
        r == spec_connected(*probe),
{
    probe.proc_present && probe.tun_present
}

/// Once a kill has taken effect the process probe reads false, and
/// every later sample then reports disconnected, whatever the
/// interface probe still shows. The kill itself is the privileged
/// runner's work; this is the step the monitor adds.
pub proof fn lemma_dead_process_reads_disconnected(probe: ProbeSample)
    requires
        !probe.proc_present,
    ensures
        !spec_connected(probe),
{
}

/// The letters of the interface-name fragment that marks a tunnel.
pub open spec fn tun_marker() -> Seq<char> {
    seq!['t', 'u', 'n']
}

/// True iff `tun` occurs as a substring of `s`.
pub open spec fn spec_contains_tun(s: Seq<char>) -> bool {
    exists|i: int| 0 <= i && i + 3 <= s.len() && #[trigger] s.subrange(i, i + 3) == tun_marker()
}

/// Scans interface-listing output for a `tun` interface name.
pub fn contains_tun(s: &str) -> (r: bool)
    ensures
        r == spec_contains_tun(s@),
{
    let n = s.unicode_len();
    if n < 3 {
        assert(!spec_contains_tun(s@));
        return false;
    }
    let mut i: usize = 0;
    while i <= n - 3
        invariant
            s@.len() == n,
            3 <= n,
            0 <= i <= n,
            forall|j: int| 0 <= j < i ==> #[trigger] s@.subrange(j, j + 3) != tun_marker(),
        decreases n - i,
    {
        let c0 = s.get_char(i);
        let c1 = s.get_char(i + 1);
        let c2 = s.get_char(i + 2);
        if c0 == 't' && c1 == 'u' && c2 == 'n' {
            assert(s@.subrange(i as int, i as int + 3) =~= tun_marker());
            return true;
        }
        assert(s@.subrange(i as int, i as int + 3) != tun_marker()) by {
            if s@.subrange(i as int, i as int + 3) == tun_marker() {
                assert(s@.subrange(i as int, i as int + 3)[0] == 't');
            }
        }
        i += 1;
    }
    false
}

} // verus!

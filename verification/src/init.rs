//! The init process's rules: the services it starts and in what order, how
//! it names them, when it restarts a service or the login manager.
use vstd::prelude::*;

use crate::strs::{owned, str_eq};

verus! {

/// The service table used when `/etc/ayux_services.toml` cannot be read.
pub const DEFAULT_SERVICES_TOML: &'static str = "
        [services.log_service]
        path = \"/bin/log_service\"
        dependencies = []
        restart_policy = \"always\"
        priority = 1
        health_check_socket = \"/run/log.sock\"

        [services.auth_service]
        path = \"/bin/auth_service\"
        dependencies = [\"log_service\"]
        restart_policy = \"always\"
        priority = 2
        health_check_socket = \"/run/auth.sock\"

        [services.session_manager]
        path = \"/bin/session_manager\"
        dependencies = [\"log_service\"]
        restart_policy = \"always\"
        priority = 2
        health_check_socket = \"/run/session.sock\"

        [services.security_manager]
        path = \"/bin/security_manager\"
        dependencies = [\"session_manager\", \"log_service\"]
        restart_policy = \"always\"
        priority = 3
        health_check_socket = \"/run/security.sock\"

        [services.network_manager]
        path = \"/bin/network_manager\"
        dependencies = [\"log_service\"]
        restart_policy = \"always\"
        priority = 3
        health_check_socket = \"/run/network.sock\"

        [services.window_server]
        path = \"/bin/window_server\"
        dependencies = [\"log_service\"]
        restart_policy = \"always\"
        priority = 4
        health_check_socket = \"/run/window_server.sock\"
        ";

/// Where the service table is read from.
pub const SERVICES_CONFIG_PATH: &'static str = "/etc/ayux_services.toml";

/// How many failed health checks in a row make a service be restarted.
pub const MAX_HEALTH_FAILURES: u32 = 5;

/// One service of the table.
pub struct ServiceConfig {
    pub path: String,
    pub dependencies: Vec<String>,
    pub restart_policy: String,
    pub priority: u32,
    pub health_check_socket: Option<String>,
}

/// The order in which services start: `order` lists each index of
/// `priorities` once, by nondecreasing priority.
pub open spec fn is_start_order(priorities: Seq<u32>, order: Seq<usize>) -> bool {
    &&& order.len() == priorities.len()
    &&& forall|i: int| 0 <= i < order.len() ==> #[trigger] order[i] < priorities.len()
    &&& forall|i: int, j: int| 0 <= i < j < order.len() ==> order[i] != order[j]
    &&& forall|i: int, j: int| 0 <= i < j < order.len() ==> before(priorities, order[i] as int, order[j] as int)
}

/// Service `a` starts before service `b`: lower priority, or equal
/// priority and earlier in the table.
pub open spec fn before(priorities: Seq<u32>, a: int, b: int) -> bool {
    priorities[a] < priorities[b] || (priorities[a] == priorities[b] && a < b)
}

/// The start order of services with the given priorities (listed in table
/// order): lowest priority first, and among equal priorities the earlier
/// in the table first.
pub fn start_order(priorities: &Vec<u32>) -> (order: Vec<usize>)
    ensures
        is_start_order(priorities@, order@),
{
    let n = priorities.len();
    let mut taken: Vec<bool> = Vec::new();
    let mut k: usize = 0;
    while k < n
        invariant
            n == priorities@.len(),
            k <= n,
            taken@.len() == k,
            forall|i: int| 0 <= i < k ==> !#[trigger] taken@[i],
        decreases n - k,
    {
        taken.push(false);
        k = k + 1;
    }
    let mut order: Vec<usize> = Vec::new();
    while order.len() < n
        invariant
            n == priorities@.len(),
            taken@.len() == n,
            order@.len() <= n,
            forall|i: int| 0 <= i < order@.len() ==> #[trigger] order@[i] < n,
            forall|i: int| 0 <= i < order@.len() ==> taken@[#[trigger] order@[i] as int],
            forall|t: int| 0 <= t < n && #[trigger] taken@[t] ==> listed(order@, t),
            forall|i: int, j: int| 0 <= i < j < order@.len() ==> order@[i] != order@[j],
            forall|i: int, j: int| 0 <= i < j < order@.len() ==> before(priorities@, order@[i] as int, order@[j] as int),
            forall|i: int, t: int| 0 <= i < order@.len() && 0 <= t < n && !#[trigger] taken@[t] ==>
                before(priorities@, #[trigger] order@[i] as int, t),
        decreases n - order@.len(),
    {
        let mut best: usize = n;
        let mut i: usize = 0;
        while i < n
            invariant
                n == priorities@.len(),
                taken@.len() == n,
                i <= n,
                best == n || (best < i && !taken@[best as int]),
                best == n ==> forall|t: int| 0 <= t < i ==> #[trigger] taken@[t],
                best < n ==> forall|t: int| 0 <= t < i && !#[trigger] taken@[t] && t != best ==> before(priorities@, best as int, t),
            decreases n - i,
        {
            if !taken[i] && (best == n || priorities[i] < priorities[best]) {
                best = i;
            }
            i = i + 1;
        }
        proof {
            // The order lists every taken index; while it is short of `n`,
            // some index is still free.
            if best == n {
                lemma_all_listed(order@, n as int);
                let t = choose|t: int| 0 <= t < n && !#[trigger] listed(order@, t);
                assert(taken@[t]);
                assert(false);
            }
        }
        let ghost old_order = order@;
        let ghost old_taken = taken@;
        order.push(best);
        taken.set(best, true);
        proof {
            assert forall|t: int| 0 <= t < n && #[trigger] taken@[t] implies listed(order@, t) by {
                if t == best as int {
                    assert(order@[old_order.len() as int] == t);
                } else {
                    assert(old_taken[t]);
                    let i0 = choose|i: int| 0 <= i < old_order.len() && old_order[i] == t;
                    assert(order@[i0] == t);
                }
            }
            assert forall|i: int| 0 <= i < order@.len() implies taken@[#[trigger] order@[i] as int] by {
                if i < old_order.len() {
                    assert(old_taken[old_order[i] as int]);
                }
            }
        }
    }
    order
}

/// Index `t` occurs in `order`.
pub open spec fn listed(order: Seq<usize>, t: int) -> bool {
    exists|i: int| 0 <= i < order.len() && order[i] == t
}

/// Fewer than `n` indices cannot cover every index below `n`.
proof fn lemma_all_listed(order: Seq<usize>, n: int)
    requires
        0 <= n,
        order.len() < n,
    ensures
        exists|t: int| 0 <= t < n && !#[trigger] listed(order, t),
{
    let m = order.map_values(|v: usize| v as int);
    let s = m.to_set();
    let range = vstd::set_lib::set_int_range(0, n);
    m.lemma_cardinality_of_set();
    vstd::seq_lib::seq_to_set_is_finite(m);
    vstd::set_lib::lemma_int_range(0, n);
    if forall|t: int| 0 <= t < n ==> #[trigger] listed(order, t) {
        assert forall|t: int| range.contains(t) implies s.contains(t) by {
            assert(listed(order, t));
            let i = choose|i: int| 0 <= i < order.len() && order[i] == t;
            assert(m[i] == t);
            assert(m.contains(t));
        }
        assert(range.subset_of(s));
        vstd::set_lib::lemma_len_subset(range, s);
        assert(false);
    }
}

/// The name shown while a service starts.
pub open spec fn service_title(name: Seq<char>) -> Seq<char> {
    if name == "log_service"@ {
        "Log Service"@
    } else if name == "auth_service"@ {
        "Authentication Service"@
    } else if name == "session_manager"@ {
        "Session Manager"@
    } else if name == "security_manager"@ {
        "Security Manager"@
    } else if name == "network_manager"@ {
        "Network Manager"@
    } else if name == "window_server"@ {
        "Window Server & Compositor"@
    } else {
        name
    }
}

pub fn service_display_name(name: &str) -> (t: String)
    ensures
        t@ == service_title(name@),
{
    if str_eq(name, "log_service") {
        owned("Log Service")
    } else if str_eq(name, "auth_service") {
        owned("Authentication Service")
    } else if str_eq(name, "session_manager") {
        owned("Session Manager")
    } else if str_eq(name, "security_manager") {
        owned("Security Manager")
    } else if str_eq(name, "network_manager") {
        owned("Network Manager")
    } else if str_eq(name, "window_server") {
        owned("Window Server & Compositor")
    } else {
        owned(name)
    }
}

/// What is known of a supervised process.
#[derive(Clone, Copy, Debug, PartialEq, Eq, Structural)]
pub enum ChildStatus {
    /// No process was started, or starting it failed.
    NotStarted,
    /// The process has exited.
    Exited,
    /// The process is running.
    Running,
    /// Its state could not be read.
    Unknown,
}

/// What to do about a service after one look at it.
#[derive(Clone, Copy, Debug, PartialEq, Eq, Structural)]
pub struct Supervision {
    /// Kill the running process first.
    pub kill: bool,
    /// Start the service again.
    pub restart: bool,
    /// Failed health checks in a row, after this look.
    pub failures: u32,
}

/// One look at a service: a missing, exited or unreadable process needs a
/// restart; a running one with a health socket that is missing fails a
/// check, and the fifth failure in a row kills it and needs a restart; a
/// present socket clears the count. A restart happens only under the
/// "always" policy.
pub open spec fn supervision(status: ChildStatus, socket_present: Option<bool>, failures: u32, always: bool) -> Supervision {
    match status {
        ChildStatus::Running => match socket_present {
            Some(false) =>
                if failures + 1 >= MAX_HEALTH_FAILURES {
                    Supervision { kill: true, restart: always, failures: 0 }
                } else {
                    Supervision { kill: false, restart: false, failures: (failures + 1) as u32 }
                },
            Some(true) => Supervision { kill: false, restart: false, failures: 0 },
            None => Supervision { kill: false, restart: false, failures },
        },
        _ => Supervision { kill: false, restart: always, failures },
    }
}

/// Decides what to do about a service. `socket_present` tells whether its
/// health socket exists, if it has one; `policy` is its restart policy.
pub fn supervise(status: ChildStatus, socket_present: Option<bool>, failures: u32, policy: &str) -> (s: Supervision)
    requires
        failures < MAX_HEALTH_FAILURES,
    ensures
        s == supervision(status, socket_present, failures, policy@ == "always"@),
        s.failures < MAX_HEALTH_FAILURES,
{
    let always = str_eq(policy, "always");
    match status {
        ChildStatus::Running => match socket_present {
            Some(false) => {
                let f = failures + 1;
                if f >= MAX_HEALTH_FAILURES {
                    Supervision { kill: true, restart: always, failures: 0 }
                } else {
                    Supervision { kill: false, restart: false, failures: f }
                }
            },
            Some(true) => Supervision { kill: false, restart: false, failures: 0 },
            None => Supervision { kill: false, restart: false, failures },
        },
        _ => Supervision { kill: false, restart: always, failures },
    }
}

/// A running service whose health socket stays missing is killed and
/// restarted at the fifth look, and not before.
pub proof fn lemma_unhealthy_restart_at_fifth_check(always: bool)
    ensures
        ({
            let s1 = supervision(ChildStatus::Running, Some(false), 0, always);
            let s2 = supervision(ChildStatus::Running, Some(false), s1.failures, always);
            let s3 = supervision(ChildStatus::Running, Some(false), s2.failures, always);
            let s4 = supervision(ChildStatus::Running, Some(false), s3.failures, always);
            let s5 = supervision(ChildStatus::Running, Some(false), s4.failures, always);
            &&& !s1.kill && !s2.kill && !s3.kill && !s4.kill
            &&& s5.kill && s5.restart == always && s5.failures == 0
        }),
{
}

/// Whether the graphical login manager is to be started: while no desktop
/// has been seen, whenever it is not running.
pub fn login_needs_start(status: ChildStatus, desktop_started: bool) -> (b: bool)
    ensures
        b == (!desktop_started && status != ChildStatus::Running),
{
    match status {
        ChildStatus::Running => false,
        _ => !desktop_started,
    }
}

} // verus!

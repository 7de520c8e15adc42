//! The network manager's decisions: which system query or command a
//! request needs, and how its outcome becomes the reply.
use vstd::prelude::*;

use crate::hal::{Device, HalResult, hal_error_text};
use crate::ipc::{HalRequest, HalResponse, NetworkRequest, NetworkResponse};
use crate::strs::{concat2, concat3, owned, str_eq};
use crate::text::{trim, trim_str};

verus! {

/// What the system must be asked or told to answer a network request.
pub enum NetworkStep {
    /// List the interface names (the entries of `/sys/class/net`).
    ListInterfaces,
    /// Read the interface's `operstate` and `address` attributes.
    ReadInterface { name: String },
    /// Set the link up or down, then maybe start a DHCP client.
    Configure { name: String, up: bool, dhcp: bool },
}

/// What the system must do to answer a HAL request.
pub enum HalStep {
    /// Scan the device classes.
    Scan,
    /// Answer at once.
    Reply(HalResponse),
}

/// The sysfs directory of interface `name`.
pub open spec fn interface_dir(name: Seq<char>) -> Seq<char> {
    "/sys/class/net/"@ + name
}

/// Whether an `operstate` text means the link is up (loopback reports
/// "unknown").
pub open spec fn link_is_up(operstate: Seq<char>) -> bool {
    trim(operstate) == "up"@ || trim(operstate) == "unknown"@
}

/// How a scanned device is listed: "name [class] at path".
pub open spec fn device_line(d: Device) -> Seq<char> {
    d.name@ + " ["@ + d.class@ + "] at "@ + d.path@
}

/// The network manager (it keeps no state).
pub struct NetworkManager {}

impl NetworkManager {
    pub fn new() -> (m: NetworkManager) {
        NetworkManager {}
    }

    /// What answering `request` needs.
    pub fn handle_request(&self, request: NetworkRequest) -> (s: NetworkStep)
        ensures
            match request {
                NetworkRequest::ListInterfaces => s is ListInterfaces,
                NetworkRequest::GetInterfaceConfig { name } => s matches NetworkStep::ReadInterface { name: n } && n@ == name@,
                NetworkRequest::ConfigureInterface { name, up, dhcp } =>
                    s matches NetworkStep::Configure { name: n, up: u, dhcp: d } && n@ == name@ && u == up && d == dhcp,
            },
    {
        match request {
            NetworkRequest::ListInterfaces => NetworkStep::ListInterfaces,
            NetworkRequest::GetInterfaceConfig { name } => NetworkStep::ReadInterface { name },
            NetworkRequest::ConfigureInterface { name, up, dhcp } => NetworkStep::Configure { name, up, dhcp },
        }
    }

    /// What answering a HAL request needs: a device scan, or, for anything
    /// else, a refusal.
    pub fn handle_hal_request(&self, request: HalRequest) -> (s: HalStep)
        ensures
            match request {
                HalRequest::DiscoveryScan => s is Scan,
                _ => s matches HalStep::Reply(HalResponse::Error(m)) && m@ == "Not implemented in Network Manager"@,
            },
    {
        match request {
            HalRequest::DiscoveryScan => HalStep::Scan,
            _ => HalStep::Reply(HalResponse::Error(owned("Not implemented in Network Manager"))),
        }
    }

    /// The reply listing the interfaces found.
    pub fn interfaces_reply(&self, names: Vec<String>) -> (r: NetworkResponse)
        ensures
            r matches NetworkResponse::Interfaces(v) && v@ == names@,
    {
        NetworkResponse::Interfaces(names)
    }

    /// The sysfs directory of an interface.
    pub fn interface_path(&self, name: &str) -> (p: String)
        ensures
            p@ == interface_dir(name@),
    {
        concat2("/sys/class/net/", name)
    }

    /// The configuration of interface `name`, from whether its directory
    /// exists and the texts of its `operstate` and `address` attributes
    /// (empty where unreadable).
    pub fn interface_config(&self, name: &str, exists: bool, operstate: &str, address: &str) -> (r: NetworkResponse)
        ensures
            !exists ==> (r matches NetworkResponse::Error(m) && m@ == "Interface "@ + name@ + " not found"@),
            exists ==> (r matches NetworkResponse::InterfaceConfig { name: n, up, ip, mac }
                && n@ == name@ && up == link_is_up(operstate@) && ip is None && mac@ == trim(address@)),
    {
        if !exists {
            return NetworkResponse::Error(concat3("Interface ", name, " not found"));
        }
        let state = trim_str(operstate);
        let up = str_eq(state.as_str(), "up") || str_eq(state.as_str(), "unknown");
        let mac = trim_str(address);
        NetworkResponse::InterfaceConfig { name: owned(name), up, ip: None, mac }
    }

    /// The `ip` arguments that set the link of `name` up or down.
    pub fn link_command(&self, name: &str, up: bool) -> (args: Vec<String>)
        ensures
            args@.len() == 4,
            args@[0]@ == "link"@,
            args@[1]@ == "set"@,
            args@[2]@ == name@,
            args@[3]@ == (if up { "up"@ } else { "down"@ }),
    {
        let mut args: Vec<String> = Vec::new();
        args.push(owned("link"));
        args.push(owned("set"));
        args.push(owned(name));
        args.push(owned(if up { "up" } else { "down" }));
        args
    }

    /// The reply to a configuration request once `ip` has run: success, or
    /// its error output, or the reason it could not run; and whether a DHCP
    /// client is to be started (a successful bring-up with DHCP asked for).
    pub fn configure_outcome(&self, up: bool, dhcp: bool, outcome: Result<(bool, String), String>) -> (r: (NetworkResponse, bool))
        ensures
            match outcome {
                Ok((true, _)) => r.0 is Success && r.1 == (up && dhcp),
                Ok((false, stderr)) => r.0 matches NetworkResponse::Error(m) && m@ == stderr@ && !r.1,
                Err(e) => r.0 matches NetworkResponse::Error(m) && m@ == e@ && !r.1,
            },
    {
        match outcome {
            Ok((true, _)) => (NetworkResponse::Success, up && dhcp),
            Ok((false, stderr)) => (NetworkResponse::Error(stderr), false),
            Err(e) => (NetworkResponse::Error(e), false),
        }
    }

    /// The reply to a device scan: one line per device, or the error.
    pub fn discovery_reply(&self, scan: HalResult<Vec<Device>>) -> (r: HalResponse)
        ensures
            match scan {
                Ok(ds) => r matches HalResponse::DiscoveryResult(lines) && lines@.len() == ds@.len()
                    && forall|i: int| 0 <= i < ds@.len() ==> (#[trigger] lines@[i])@ == device_line(ds@[i]),
                Err(e) => r matches HalResponse::Error(m) && m@ == hal_error_text(e),
            },
    {
        match scan {
            Ok(ds) => {
                let mut lines: Vec<String> = Vec::new();
                let mut i: usize = 0;
                while i < ds.len()
                    invariant
                        i <= ds@.len(),
                        lines@.len() == i,
                        forall|k: int| 0 <= k < i ==> (#[trigger] lines@[k])@ == device_line(ds@[k]),
                    decreases ds.len() - i,
                {
                    let d = &ds[i];
                    let a = concat3(d.name.as_str(), " [", d.class.as_str());
                    let b = concat3(a.as_str(), "] at ", d.path.as_str());
                    proof {
                        assert(b@ =~= device_line(ds@[i as int]));
                    }
                    lines.push(b);
                    i = i + 1;
                }
                HalResponse::DiscoveryResult(lines)
            },
            Err(e) => HalResponse::Error(e.message()),
        }
    }
}

} // verus!

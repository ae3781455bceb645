//! The two wire message families and their mathematical models.
//!
//! A control invocation sends exactly one request and awaits exactly one
//! response on the same connection.  The requests carry no fields; the
//! responses carry the session's identity, a human-readable state label and,
//! when one was obtainable, a point-in-time network snapshot.

use vstd::prelude::*;
use vstd::string::StringExecFns;

verus! {

/// Session state as reported by the external session engine.  The supervisor
/// only ever reads this value; transitions are driven by the engine.
#[derive(Clone, Copy, Debug, PartialEq, Eq, Structural)]
pub enum ConnectionStatus {
    Initialized,
    Connecting,
    Connected,
    Disconnecting,
    Disconnected,
    Error,
}

/// A point-in-time copy of the negotiated network parameters.  Absence of a
/// field means "not negotiated", never an error; the three DNS and NBNS
/// entries are positionally meaningful.
pub struct IpInfo {
    pub addr: Option<String>,
    pub netmask: Option<String>,
    pub addr6: Option<String>,
    pub netmask6: Option<String>,
    pub dns1: Option<String>,
    pub dns2: Option<String>,
    pub dns3: Option<String>,
    pub nbns1: Option<String>,
    pub nbns2: Option<String>,
    pub nbns3: Option<String>,
    pub domain: Option<String>,
    pub proxy_pac: Option<String>,
    pub mtu: u32,
    pub gateway_addr: Option<String>,
}

/// A request from a control invocation to the daemon.
#[derive(Clone, Copy, Debug, PartialEq, Eq, Structural)]
pub enum JsonRequest {
    Stop,
    Info,
}

/// The daemon's answer: exactly one per request, on the same connection.
pub enum JsonResponse {
    StopResult {
        server_name: String,
    },
    InfoResult {
        server_name: String,
        server_url: String,
        hostname: String,
        status: String,
        info: Option<IpInfo>,
    },
}

/// The view of an optional string: its characters, or empty when absent.
pub open spec fn opt_str_view(o: Option<String>) -> Seq<char> {
    match o {
        Option::Some(s) => s@,
        Option::None => Seq::empty(),
    }
}

/// Mathematical model of an optional string field: present characters or
/// absent, with no sentinel value standing in for absence.
pub open spec fn opt_str_model(o: Option<String>) -> Option<Seq<char>> {
    match o {
        Option::Some(s) => Option::Some(s@),
        Option::None => Option::None,
    }
}

/// Mathematical model of a network snapshot.
pub ghost struct IpInfoModel {
    pub addr: Option<Seq<char>>,
    pub netmask: Option<Seq<char>>,
    pub addr6: Option<Seq<char>>,
    pub netmask6: Option<Seq<char>>,
    pub dns1: Option<Seq<char>>,
    pub dns2: Option<Seq<char>>,
    pub dns3: Option<Seq<char>>,
    pub nbns1: Option<Seq<char>>,
    pub nbns2: Option<Seq<char>>,
    pub nbns3: Option<Seq<char>>,
    pub domain: Option<Seq<char>>,
    pub proxy_pac: Option<Seq<char>>,
    pub mtu: u32,
    pub gateway_addr: Option<Seq<char>>,
}

impl IpInfo {
    /// The snapshot's mathematical model.
    pub open spec fn model(&self) -> IpInfoModel {
        IpInfoModel {
            addr: opt_str_model(self.addr),
            netmask: opt_str_model(self.netmask),
            addr6: opt_str_model(self.addr6),
            netmask6: opt_str_model(self.netmask6),
            dns1: opt_str_model(self.dns1),
            dns2: opt_str_model(self.dns2),
            dns3: opt_str_model(self.dns3),
            nbns1: opt_str_model(self.nbns1),
            nbns2: opt_str_model(self.nbns2),
            nbns3: opt_str_model(self.nbns3),
            domain: opt_str_model(self.domain),
            proxy_pac: opt_str_model(self.proxy_pac),
            mtu: self.mtu,
            gateway_addr: opt_str_model(self.gateway_addr),
        }
    }
}

/// Model of an optional snapshot.
pub open spec fn opt_info_model(o: Option<IpInfo>) -> Option<IpInfoModel> {
    match o {
        Option::Some(i) => Option::Some(i.model()),
        Option::None => Option::None,
    }
}

/// Mathematical model of a response.
pub ghost enum ResponseModel {
    Stop {
        server_name: Seq<char>,
    },
    Info {
        server_name: Seq<char>,
        server_url: Seq<char>,
        hostname: Seq<char>,
        status: Seq<char>,
        info: Option<IpInfoModel>,
    },
}

impl JsonResponse {
    /// The response's mathematical model.
    pub open spec fn model(&self) -> ResponseModel {
        match *self {
            JsonResponse::StopResult { server_name } => ResponseModel::Stop {
                server_name: server_name@,
            },
            JsonResponse::InfoResult { server_name, server_url, hostname, status, info } => {
                ResponseModel::Info {
                    server_name: server_name@,
                    server_url: server_url@,
                    hostname: hostname@,
                    status: status@,
                    info: opt_info_model(info),
                }
            },
        }
    }
}

/// The human-readable rendering of each session state.
pub open spec fn spec_status_label(s: ConnectionStatus) -> Seq<char> {
    match s {
        ConnectionStatus::Initialized => "Initialized"@,
        ConnectionStatus::Connecting => "Connecting"@,
        ConnectionStatus::Connected => "Connected"@,
        ConnectionStatus::Disconnecting => "Disconnecting"@,
        ConnectionStatus::Disconnected => "Disconnected"@,
        ConnectionStatus::Error => "Error"@,
    }
}

/// Renders a session state as its human-readable label.
pub fn status_label(s: ConnectionStatus) -> (r: String)
    ensures
        r@ == spec_status_label(s),
{
    match s {
        ConnectionStatus::Initialized => String::from_str("Initialized"),
        ConnectionStatus::Connecting => String::from_str("Connecting"),
        ConnectionStatus::Connected => String::from_str("Connected"),
        ConnectionStatus::Disconnecting => String::from_str("Disconnecting"),
        ConnectionStatus::Disconnected => String::from_str("Disconnected"),
        ConnectionStatus::Error => String::from_str("Error"),
    }
}

/// Clones an optional string, preserving both presence and contents.
pub fn clone_opt_string(o: &Option<String>) -> (r: Option<String>)
    ensures
        opt_str_model(r) == opt_str_model(*o),
{
    match o {
        Option::Some(s) => Option::Some(s.clone()),
        Option::None => Option::None,
    }
}

impl Clone for IpInfo {
    /// Cloning a snapshot preserves its model.
    fn clone(&self) -> (r: Self)
        ensures
            r.model() == self.model(),
    {
        IpInfo {
            addr: clone_opt_string(&self.addr),
            netmask: clone_opt_string(&self.netmask),
            addr6: clone_opt_string(&self.addr6),
            netmask6: clone_opt_string(&self.netmask6),
            dns1: clone_opt_string(&self.dns1),
            dns2: clone_opt_string(&self.dns2),
            dns3: clone_opt_string(&self.dns3),
            nbns1: clone_opt_string(&self.nbns1),
            nbns2: clone_opt_string(&self.nbns2),
            nbns3: clone_opt_string(&self.nbns3),
            domain: clone_opt_string(&self.domain),
            proxy_pac: clone_opt_string(&self.proxy_pac),
            mtu: self.mtu,
            gateway_addr: clone_opt_string(&self.gateway_addr),
        }
    }
}

/// Clones an optional snapshot, preserving its model.
pub fn clone_opt_info(o: &Option<IpInfo>) -> (r: Option<IpInfo>)
    ensures
        opt_info_model(r) == opt_info_model(*o),
{
    match o {
        Option::Some(i) => Option::Some(i.clone()),
        Option::None => Option::None,
    }
}

} // verus!

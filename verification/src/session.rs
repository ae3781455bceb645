//! The session owned by the supervisor and the handling of control requests.
//!
//! The supervisor owns a single session for the whole daemon process.  The
//! session's identity (display name, profile address, host) is fixed when the
//! session is created; its state and network snapshot are read fresh from the
//! session engine on every query, and the engine's readings are handed in as a
//! [`StatusReport`].  Every per-field accessor is best-effort: an unavailable
//! name, address or host collapses to an empty string in the response, since
//! partial status is more useful to an operator than an error.

use crate::protocol::{
    clone_opt_info, opt_info_model, opt_str_view, spec_status_label, status_label,
    ConnectionStatus, IpInfo, IpInfoModel, JsonRequest, JsonResponse, ResponseModel,
};
use vstd::prelude::*;

verus! {

/// The single active session: its identity as captured from the originating
/// profile when the daemon started.  Any of the three parts may be
/// unavailable; an absent part is reported as an empty string, never as a
/// placeholder value.
pub struct Session {
    pub server_name: Option<String>,
    pub server_url: Option<String>,
    pub hostname: Option<String>,
}

/// What the session engine reports at the moment a query is served: the
/// session state, and the network snapshot when one was obtainable.
pub struct StatusReport {
    pub status: ConnectionStatus,
    pub info: Option<IpInfo>,
}

impl StatusReport {
    /// Model of the engine's reading.
    pub open spec fn info_model(&self) -> Option<IpInfoModel> {
        opt_info_model(self.info)
    }
}

/// The outcome of handling one request: the response owed to the client, and
/// whether the daemon must begin its termination path once the response has
/// been sent.
pub struct Reply {
    pub response: JsonResponse,
    pub shutdown: bool,
}

impl Session {
    /// The reported display name: the session's, or empty when unavailable.
    pub open spec fn name_view(&self) -> Seq<char> {
        opt_str_view(self.server_name)
    }

    /// The reported profile address, or empty when unavailable.
    pub open spec fn url_view(&self) -> Seq<char> {
        opt_str_view(self.server_url)
    }

    /// The reported host, or empty when unavailable.
    pub open spec fn host_view(&self) -> Seq<char> {
        opt_str_view(self.hostname)
    }

    /// The one response a `Stop` request is owed.
    pub open spec fn stop_response_model(&self) -> ResponseModel {
        ResponseModel::Stop { server_name: self.name_view() }
    }

    /// The one response an `Info` request is owed, given the engine's reading.
    pub open spec fn info_response_model(&self, report: StatusReport) -> ResponseModel {
        ResponseModel::Info {
            server_name: self.name_view(),
            server_url: self.url_view(),
            hostname: self.host_view(),
            status: spec_status_label(report.status),
            info: report.info_model(),
        }
    }

    /// Returns the identity part as a string, or an empty string when absent.
    fn field_or_empty(o: &Option<String>) -> (r: String)
        ensures
            r@ == opt_str_view(*o),
    {
        match o {
            Option::Some(s) => s.clone(),
            Option::None => String::new(),
        }
    }

    /// Serves one request against this session.  The response is a pure
    /// function of the session's identity, the request, and the engine's
    /// reading; a `Stop` request additionally instructs the caller to begin
    /// the termination path, whatever state the engine reports.
    pub fn handle_request(&self, req: JsonRequest, report: &StatusReport) -> (r: Reply)
        ensures
            r.shutdown == (req is Stop),
            req is Stop ==> r.response.model() == self.stop_response_model(),
            req is Info ==> r.response.model() == self.info_response_model(*report),
    {
        match req {
            JsonRequest::Stop => Reply {
                response: JsonResponse::StopResult {
                    server_name: Self::field_or_empty(&self.server_name),
                },
                shutdown: true,
            },
            JsonRequest::Info => Reply {
                response: JsonResponse::InfoResult {
                    server_name: Self::field_or_empty(&self.server_name),
                    server_url: Self::field_or_empty(&self.server_url),
                    hostname: Self::field_or_empty(&self.hostname),
                    status: status_label(report.status),
                    info: clone_opt_info(&report.info),
                },
                shutdown: false,
            },
        }
    }
}

/// A stored connection profile, as the profile store resolves it: the
/// password and the insecure-certificate flag may be absent.
pub struct Profile {
    pub name: String,
    pub server: String,
    pub username: String,
    pub password: Option<String>,
    pub allow_insecure: Option<bool>,
}

/// The parameters handed to the session engine's connect call, every field
/// settled.
pub struct ConnectParams {
    pub name: String,
    pub server: String,
    pub username: String,
    pub password: String,
    pub accept_insecure_cert: bool,
    pub enable_udp: bool,
}

/// Settles the engine's connect parameters from a profile: an absent
/// password becomes the empty password, an absent insecure flag means
/// certificates are checked, and transport over datagrams is always on.
pub fn connect_params(p: &Profile) -> (r: ConnectParams)
    ensures
        r.name@ == p.name@,
        r.server@ == p.server@,
        r.username@ == p.username@,
        r.password@ == opt_str_view(p.password),
        r.accept_insecure_cert == (p.allow_insecure == Option::<bool>::Some(true)),
        r.enable_udp,
{
    ConnectParams {
        name: p.name.clone(),
        server: p.server.clone(),
        username: p.username.clone(),
        password: match &p.password {
            Option::Some(s) => s.clone(),
            Option::None => String::new(),
        },
        accept_insecure_cert: match p.allow_insecure {
            Option::Some(b) => b,
            Option::None => false,
        },
        enable_udp: true,
    }
}

/// Law: identity reads are idempotent.  Any two `Info` responses served from
/// the same session with no intervening change to it report the same
/// `server_name`, `server_url` and `hostname`, whatever the engine reported
/// at each of the two moments.
pub proof fn lemma_info_identity_stable(s: Session, rep1: StatusReport, rep2: StatusReport)
    ensures
        ({
            let m1 = s.info_response_model(rep1);
            let m2 = s.info_response_model(rep2);
            &&& m1->Info_server_name == m2->Info_server_name
            &&& m1->Info_server_url == m2->Info_server_url
            &&& m1->Info_hostname == m2->Info_hostname
        }),
{
}

/// Law: concurrent reads are safe.  Two `Info` requests served against the
/// same session state and the same engine reading produce identical
/// responses, down to every snapshot field.
pub proof fn lemma_concurrent_info_identical(s: Session, rep1: StatusReport, rep2: StatusReport)
    requires
        rep1.status == rep2.status,
        rep1.info_model() == rep2.info_model(),
    ensures
        s.info_response_model(rep1) == s.info_response_model(rep2),
{
}

/// Law: absent fields stay absent.  When an identity part is unavailable the
/// response carries an empty string for it, and when no snapshot was
/// obtainable the response carries no snapshot at all: absence is never
/// conflated with a placeholder value.
pub proof fn lemma_absent_fields_empty(s: Session, rep: StatusReport)
    requires
        s.server_name is None,
        s.server_url is None,
        s.hostname is None,
        rep.info is None,
    ensures
        ({
            let m = s.info_response_model(rep);
            &&& m->Info_server_name == Seq::<char>::empty()
            &&& m->Info_server_url == Seq::<char>::empty()
            &&& m->Info_hostname == Seq::<char>::empty()
            &&& m->Info_info is None
        }),
{
}

} // verus!

//! The production integration adapters and how far each is set up.

use crate::text::{chars_of, string_from_chars};
use vstd::prelude::*;

verus! {

/// One integration adapter's status.
pub struct IntegrationStatus {
    pub id: String,
    pub label: String,
    pub state: String,
    pub available: bool,
    pub endpoint_ready: bool,
    pub setup_action: String,
    pub detail: String,
}

pub struct StatusView {
    pub id: Seq<char>,
    pub label: Seq<char>,
    pub state: Seq<char>,
    pub available: bool,
    pub endpoint_ready: bool,
    pub setup_action: Seq<char>,
    pub detail: Seq<char>,
}

impl View for IntegrationStatus {
    type V = StatusView;

    open spec fn view(&self) -> StatusView {
        StatusView {
            id: self.id@,
            label: self.label@,
            state: self.state@,
            available: self.available,
            endpoint_ready: self.endpoint_ready,
            setup_action: self.setup_action@,
            detail: self.detail@,
        }
    }
}

pub open spec fn status_view(
    id: Seq<char>,
    label: Seq<char>,
    state: Seq<char>,
    available: bool,
    endpoint_ready: bool,
    setup_action: Seq<char>,
    detail: Seq<char>,
) -> StatusView {
    StatusView { id, label, state, available, endpoint_ready, setup_action, detail }
}

pub open spec fn statuses_view(v: Seq<IntegrationStatus>) -> Seq<StatusView> {
    Seq::new(v.len(), |i: int| v[i]@)
}

/// The status of the desktop MPRIS observer, which exists only on Linux.
pub open spec fn mpris_view(linux: bool) -> StatusView {
    status_view(
        "mpris"@,
        "Desktop MPRIS observer"@,
        if linux {
            "setup_required"@
        } else {
            "unsupported"@
        },
        linux,
        false,
        if linux {
            "Enable the desktop MPRIS observer."@
        } else {
            "Use a supported Linux desktop or another observation adapter."@
        },
        "MPRIS support is platform-scoped and never claimed on unsupported operating systems."@,
    )
}

/// Every adapter in listing order; the webhook adapters are mounted and
/// await setup, the MPRIS observer is claimed only on Linux.
pub open spec fn integration_status_list(linux: bool) -> Seq<StatusView> {
    seq![
        status_view("nuvio"@, "NuvioTV"@, "setup_required"@, true, true, "Create an observation client and configure the Nuvio Fasti provider."@, "Authenticated occurrence ingress is mounted. Nuvio must keep its own durable retry outbox."@),
        status_view("plex"@, "Plex"@, "setup_required"@, true, true, "Use Tautulli, or place the Plex webhook behind a trusted proxy that injects a scoped Fasti bearer header."@, "Plex webhooks do not carry a Fasti credential. Fasti never places bearer secrets in webhook URLs."@),
        status_view("tautulli"@, "Tautulli"@, "setup_required"@, true, true, "Configure the documented JSON template and Authorization header."@, "Tautulli can submit watched events through a bounded authenticated webhook."@),
        status_view("jellyfin"@, "Jellyfin"@, "setup_required"@, true, true, "Configure the Jellyfin Webhook plugin with the Fasti template and Authorization header."@, "Completed playback notifications are normalized into durable Fasti occurrences."@),
        status_view("emby"@, "Emby"@, "setup_required"@, true, true, "Configure Emby playback-stop/mark-played webhooks with a scoped Authorization header."@, "Native Emby event payloads are accepted only when completion is explicit."@),
        mpris_view(linux),
    ]
}

fn status(
    id: &str,
    label: &str,
    state: &str,
    available: bool,
    endpoint_ready: bool,
    setup_action: &str,
    detail: &str,
) -> (s: IntegrationStatus)
    ensures
        s@ == status_view(id@, label@, state@, available, endpoint_ready, setup_action@, detail@),
{
    IntegrationStatus {
        id: string_from_chars(&chars_of(id)),
        label: string_from_chars(&chars_of(label)),
        state: string_from_chars(&chars_of(state)),
        available,
        endpoint_ready,
        setup_action: string_from_chars(&chars_of(setup_action)),
        detail: string_from_chars(&chars_of(detail)),
    }
}

/// The status of every integration adapter; `linux` tells whether the
/// process runs on Linux.
pub fn integration_status(linux: bool) -> (r: Vec<IntegrationStatus>)
    ensures
        statuses_view(r@) == integration_status_list(linux),
{
    let mut out: Vec<IntegrationStatus> = Vec::new();
    out.push(status("nuvio", "NuvioTV", "setup_required", true, true, "Create an observation client and configure the Nuvio Fasti provider.", "Authenticated occurrence ingress is mounted. Nuvio must keep its own durable retry outbox."));
    out.push(status("plex", "Plex", "setup_required", true, true, "Use Tautulli, or place the Plex webhook behind a trusted proxy that injects a scoped Fasti bearer header.", "Plex webhooks do not carry a Fasti credential. Fasti never places bearer secrets in webhook URLs."));
    out.push(status("tautulli", "Tautulli", "setup_required", true, true, "Configure the documented JSON template and Authorization header.", "Tautulli can submit watched events through a bounded authenticated webhook."));
    out.push(status("jellyfin", "Jellyfin", "setup_required", true, true, "Configure the Jellyfin Webhook plugin with the Fasti template and Authorization header.", "Completed playback notifications are normalized into durable Fasti occurrences."));
    out.push(status("emby", "Emby", "setup_required", true, true, "Configure Emby playback-stop/mark-played webhooks with a scoped Authorization header.", "Native Emby event payloads are accepted only when completion is explicit."));
    let mpris = if linux {
        status(
            "mpris",
            "Desktop MPRIS observer",
            "setup_required",
            true,
            false,
            "Enable the desktop MPRIS observer.",
            "MPRIS support is platform-scoped and never claimed on unsupported operating systems.",
        )
    } else {
        status(
            "mpris",
            "Desktop MPRIS observer",
            "unsupported",
            false,
            false,
            "Use a supported Linux desktop or another observation adapter.",
            "MPRIS support is platform-scoped and never claimed on unsupported operating systems.",
        )
    };
    out.push(mpris);
    assert(statuses_view(out@) =~= integration_status_list(linux));
    out
}

} // verus!

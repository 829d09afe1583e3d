//! The library endpoints.
use crate::api::error::ApiError;
use crate::protocol::HealthResponse;
use vstd::prelude::*;

verus! {

/// Where the request for a library scan has got to.
#[derive(Debug, Clone, Copy, PartialEq, Eq, Structural)]
pub enum ScanEvent {
    /// The scan was asked for while another one was running, or not.
    Requested { running: bool },
    Scanned { ok: bool },
    ProbesListed { ok: bool },
    ThumbnailsListed { ok: bool },
}

/// What is done next for a library scan.
#[derive(Debug, Clone, Copy, PartialEq, Eq)]
pub enum ScanAction {
    Scan,
    ListProbes,
    /// Enqueue the probes that were listed, then list the thumbnails.
    EnqueueProbes,
    /// Enqueue the thumbnails that were listed, then answer with what was
    /// scanned.
    EnqueueThumbnails,
    Refuse { error: ApiError },
}

/// What is done next for a library scan: a scan runs alone, and the work that it
/// found is enqueued once it has ended, probes first.
pub fn scan_library(event: ScanEvent) -> (r: ScanAction)
    ensures
        match event {
            ScanEvent::Requested { running } => if running {
                r matches ScanAction::Refuse { error } && error@ == (
                    409u16,
                    "A library scan is already running."@,
                )
            } else {
                r is Scan
            },
            ScanEvent::Scanned { ok } => if ok {
                r is ListProbes
            } else {
                r matches ScanAction::Refuse { error } && error@ == (
                    500u16,
                    "Failed to scan library."@,
                )
            },
            ScanEvent::ProbesListed { ok } => if ok {
                r is EnqueueProbes
            } else {
                r matches ScanAction::Refuse { error } && error@ == (
                    500u16,
                    "Failed to enqueue library scan work."@,
                )
            },
            ScanEvent::ThumbnailsListed { ok } => if ok {
                r is EnqueueThumbnails
            } else {
                r matches ScanAction::Refuse { error } && error@ == (
                    500u16,
                    "Failed to enqueue library scan work."@,
                )
            },
        },
{
    match event {
        ScanEvent::Requested { running } => if running {
            ScanAction::Refuse {
                error: ApiError::with_status(409, "A library scan is already running."),
            }
        } else {
            ScanAction::Scan
        },
        ScanEvent::Scanned { ok } => if ok {
            ScanAction::ListProbes
        } else {
            ScanAction::Refuse { error: ApiError::internal("Failed to scan library.") }
        },
        ScanEvent::ProbesListed { ok } => if ok {
            ScanAction::EnqueueProbes
        } else {
            ScanAction::Refuse { error: ApiError::internal("Failed to enqueue library scan work.") }
        },
        ScanEvent::ThumbnailsListed { ok } => if ok {
            ScanAction::EnqueueThumbnails
        } else {
            ScanAction::Refuse { error: ApiError::internal("Failed to enqueue library scan work.") }
        },
    }
}

/// The refusal where the library could not be loaded.
pub fn list_library_refusal() -> (r: ApiError)
    ensures
        r@ == (500u16, "Failed to load library."@),
{
    ApiError::internal("Failed to load library.")
}

/// The refusal where the state of the library could not be loaded.
pub fn library_status_refusal() -> (r: ApiError)
    ensures
        r@ == (500u16, "Failed to load library status."@),
{
    ApiError::internal("Failed to load library status.")
}

/// The answer to a health check.
pub fn health(version: &'static str) -> (r: HealthResponse)
    ensures
        r.status@ == "ok"@,
        r.service@ == "stax-backend"@,
        r.version@ == version@,
{
    HealthResponse { status: "ok", service: "stax-backend", version }
}

/// A scan is started while none runs, and refused as a conflict otherwise. What it found is
/// enqueued once it has ended with success, the probes before the thumbnails; a failure at
/// any step ends it with an error.
pub proof fn law_scans_run_alone_and_in_order(event: ScanEvent, r: ScanAction)
    requires
        call_ensures(scan_library, (event,), r),
    ensures
        r is Scan <==> event == (ScanEvent::Requested { running: false }),
        r is ListProbes <==> event == (ScanEvent::Scanned { ok: true }),
        r is EnqueueProbes <==> event == (ScanEvent::ProbesListed { ok: true }),
        r is EnqueueThumbnails <==> event == (ScanEvent::ThumbnailsListed { ok: true }),
        event == (ScanEvent::Requested { running: true }) ==> (r matches ScanAction::Refuse { error }
            && error@.0 == 409),
        event matches ScanEvent::Scanned { ok } ==> (!ok ==> (r matches ScanAction::Refuse { error }
            && error@.0 == 500)),
{
}

} // verus!

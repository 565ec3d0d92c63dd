//! The status cell: what the service reports of itself while it runs.

use vstd::prelude::*;
use vstd::string::StringExecFns;

verus! {

/// Where the service stands on its way to a running probe. The stages are
/// passed in the order written and never backwards.
#[derive(Clone, Copy, Debug, PartialEq, Eq, Structural)]
pub enum SvcStatus {
    /// Looking for the probe.
    Discovering,
    /// A probe was found; the connection is being set up.
    Connecting,
    /// Connected, no reading yet.
    Connected,
    /// At least one reading was taken.
    Running,
}

/// Outcome of the latest attempt to archive a reading.
#[derive(Clone, Copy, Debug, PartialEq, Eq, Structural)]
pub enum S3Status {
    /// Nothing was archived yet.
    Uninit,
    /// The latest push went through.
    Writing,
    /// The latest upload failed.
    Error,
}

impl SvcStatus {
    /// Position of the stage in the order in which stages are passed.
    pub open spec fn rank(self) -> nat {
        match self {
            SvcStatus::Discovering => 0,
            SvcStatus::Connecting => 1,
            SvcStatus::Connected => 2,
            SvcStatus::Running => 3,
        }
    }

    /// The stage's name on the status endpoint.
    pub open spec fn label_text(self) -> Seq<char> {
        match self {
            SvcStatus::Discovering => "discovering"@,
            SvcStatus::Connecting => "connecting"@,
            SvcStatus::Connected => "connected"@,
            SvcStatus::Running => "running"@,
        }
    }

    /// The stage's name on the status endpoint.
    pub fn label(&self) -> (name: &'static str)
        ensures
            name@ == self.label_text(),
    {
        match self {
            SvcStatus::Discovering => "discovering",
            SvcStatus::Connecting => "connecting",
            SvcStatus::Connected => "connected",
            SvcStatus::Running => "running",
        }
    }
}

impl S3Status {
    /// The outcome's name on the status endpoint.
    pub open spec fn label_text(self) -> Seq<char> {
        match self {
            S3Status::Uninit => "uninitialized"@,
            S3Status::Writing => "writing"@,
            S3Status::Error => "error"@,
        }
    }

    /// The outcome's name on the status endpoint.
    pub fn label(&self) -> (name: &'static str)
        ensures
            name@ == self.label_text(),
    {
        match self {
            S3Status::Uninit => "uninitialized",
            S3Status::Writing => "writing",
            S3Status::Error => "error",
        }
    }

    /// The archival status after an upload that went through (`stored`) or
    /// failed. A push without destination counts as gone through.
    pub fn after_push(stored: bool) -> (status: S3Status)
        ensures
            status == if stored {
                S3Status::Writing
            } else {
                S3Status::Error
            },
    {
        if stored {
            S3Status::Writing
        } else {
            S3Status::Error
        }
    }
}

/// The status cell, as contracts see it.
pub struct SvcView {
    /// Latest temperature, in hundredths of a degree Celsius.
    pub raw_temp: int,
    /// Stage of the service.
    pub status: SvcStatus,
    /// Outcome of the latest archival.
    pub s3_status: S3Status,
}

/// The status cell: stage, latest temperature and archival outcome. The
/// polling loop writes the first two, the uploader the third, and the status
/// endpoint reads all of them.
#[derive(Clone, Copy, Debug)]
pub struct Svc {
    raw_temp: i32,
    status: SvcStatus,
    s3_status: S3Status,
}

impl View for Svc {
    type V = SvcView;

    closed spec fn view(&self) -> SvcView {
        SvcView { raw_temp: self.raw_temp as int, status: self.status, s3_status: self.s3_status }
    }
}

impl Svc {
    /// The cell at process start: discovering, no temperature, nothing
    /// archived.
    pub fn new() -> (svc: Svc)
        ensures
            svc@ == (SvcView {
                raw_temp: 0,
                status: SvcStatus::Discovering,
                s3_status: S3Status::Uninit,
            }),
    {
        Svc { raw_temp: 0, status: SvcStatus::Discovering, s3_status: S3Status::Uninit }
    }

    /// The stage of the service.
    pub fn get_status(&self) -> (status: SvcStatus)
        ensures
            status == self@.status,
    {
        self.status
    }

    /// The latest temperature, in hundredths of a degree Celsius.
    pub fn get_raw_temp(&self) -> (raw_temp: i32)
        ensures
            raw_temp == self@.raw_temp,
    {
        self.raw_temp
    }

    /// The outcome of the latest archival.
    pub fn get_s3_status(&self) -> (status: S3Status)
        ensures
            status == self@.s3_status,
    {
        self.s3_status
    }

    /// Sets the stage and leaves the rest.
    pub fn set_status(&mut self, status: SvcStatus)
        ensures
            final(self)@ == (SvcView { status, ..old(self)@ }),
    {
        self.status = status;
    }

    /// Sets the latest temperature and leaves the rest.
    pub fn set_raw_temp(&mut self, raw_temp: i32)
        ensures
            final(self)@ == (SvcView { raw_temp: raw_temp as int, ..old(self)@ }),
    {
        self.raw_temp = raw_temp;
    }

    /// Sets the archival outcome and leaves the rest.
    pub fn set_s3_status(&mut self, status: S3Status)
        ensures
            final(self)@ == (SvcView { s3_status: status, ..old(self)@ }),
    {
        self.s3_status = status;
    }
}

/// What the status endpoint answers to a request.
#[derive(Clone, Copy, Debug, PartialEq, Eq, Structural)]
pub enum Route {
    /// The status document.
    Status,
    /// The fixed fallback body.
    Fallback,
}

/// The body sent for any path but the root.
pub open spec fn fallback_text() -> Seq<char> {
    "Whoopsie"@
}

/// The status document for a temperature already written out as `temp`.
pub open spec fn status_text(temp: Seq<char>, status: SvcStatus, s3: S3Status) -> Seq<char> {
    "{ \"temp\": "@ + temp + ", \"status\": \""@ + status.label_text() + "\", \"s3\": \""@
        + s3.label_text() + "\" }"@
}

/// The route of a path: only the root serves the status document.
pub open spec fn route_of(path: Seq<char>) -> Route {
    if path == seq!['/'] {
        Route::Status
    } else {
        Route::Fallback
    }
}

/// Picks the route of a request by its path.
pub fn route(path: &str) -> (route: Route)
    ensures
        route == route_of(path@),
{
    if path.unicode_len() == 1 && path.get_char(0) == '/' {
        assert(path@ =~= seq!['/']);
        Route::Status
    } else {
        Route::Fallback
    }
}

/// The response body for `path`: the status document at the root, with
/// `temp` as the temperature's text, and the fallback body anywhere else.
pub fn respond(path: &str, temp: &str, svc: &Svc) -> (body: String)
    ensures
        body@ == match route_of(path@) {
            Route::Status => status_text(temp@, svc@.status, svc@.s3_status),
            Route::Fallback => fallback_text(),
        },
{
    match route(path) {
        Route::Status => {
            let mut body = String::from_str("{ \"temp\": ");
            body.append(temp);
            body.append(", \"status\": \"");
            body.append(svc.status.label());
            body.append("\", \"s3\": \"");
            body.append(svc.s3_status.label());
            body.append("\" }");
            body
        },
        Route::Fallback => String::from_str("Whoopsie"),
    }
}

} // verus!

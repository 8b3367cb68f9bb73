use vstd::prelude::*;

verus! {

/// The labelled kinds of failure that the binding layer reports.
#[derive(Debug, Clone, Copy, PartialEq, Eq, Structural)]
pub enum FreenectErrorKind {
    /// The native library could not allocate a context.
    DriverInitError,
    /// The native device enumeration call failed.
    DriverQueryError,
    /// The requested device index is not below the number of devices.
    DeviceNotFound,
    /// The native open call failed.
    DriverOpenError,
    /// The native mode lookup or mode change failed.
    UnsupportedMode,
    /// A stream of the same kind is already live on the device.
    StreamAlreadyOpen,
    /// The native call that starts streaming failed.
    StreamStartError,
    /// The context was created without video capability.
    VideoUnsupported,
    /// The native tilt state refresh failed.
    TiltQueryError,
    /// The native tilt change failed.
    TiltSetError,
    /// A background processing thread is already running.
    AlreadyRunning,
    /// The stream has been torn down.
    StreamClosed,
}

/// An error of the binding layer: a labelled kind, a human-readable reason,
/// and the native status that caused it, when a native call failed.
#[derive(Debug, Clone)]
pub struct FreenectError {
    kind: FreenectErrorKind,
    reason: String,
    native_status: Option<i32>,
}

pub type FreenectResult<T> = Result<T, FreenectError>;

impl FreenectError {
    /// The kind of this error.
    pub closed spec fn spec_kind(&self) -> FreenectErrorKind {
        self.kind
    }

    /// The reason text of this error.
    pub closed spec fn spec_reason(&self) -> Seq<char> {
        self.reason@
    }

    /// The native status that caused this error, if a native call failed.
    pub closed spec fn spec_native_status(&self) -> Option<i32> {
        self.native_status
    }

    /// An error that no failing native call caused.
    pub fn new(kind: FreenectErrorKind, reason: &str) -> (e: FreenectError)
        ensures
            e.spec_kind() == kind,
            e.spec_reason() == reason@,
            e.spec_native_status() == None::<i32>,
    {
        FreenectError { kind, reason: reason.to_owned(), native_status: None }
    }

    /// An error caused by a native call that returned `status`.
    pub fn from_status(kind: FreenectErrorKind, reason: &str, status: i32) -> (e: FreenectError)
        ensures
            e.spec_kind() == kind,
            e.spec_reason() == reason@,
            e.spec_native_status() == Some(status),
    {
        FreenectError { kind, reason: reason.to_owned(), native_status: Some(status) }
    }

    /// The native status that caused this error, if a native call failed.
    pub fn native_status(&self) -> (s: Option<i32>)
        ensures
            s == self.spec_native_status(),
    {
        self.native_status
    }

    pub fn kind(&self) -> (k: FreenectErrorKind)
        ensures
            k == self.spec_kind(),
    {
        self.kind
    }

    /// The error as a message: "FreenectError: " followed by the reason.
    pub fn message(&self) -> (m: String)
        ensures
            m@ == "FreenectError: "@ + self.spec_reason(),
    {
        let prefix = String::from_str("FreenectError: ");
        prefix.concat(self.reason.as_str())
    }

    /// The human-readable reason.
    pub fn description(&self) -> (r: &str)
        ensures
            r@ == self.spec_reason(),
    {
        self.reason.as_str()
    }
}

/// The kind of error `r` carries, if it failed.
pub open spec fn outcome<T>(r: FreenectResult<T>) -> Option<FreenectErrorKind> {
    match r {
        Ok(_) => None,
        Err(e) => Some(e.spec_kind()),
    }
}

/// Turns a native status into a result: success when it is not negative,
/// an error of kind `kind` that carries the status otherwise.
pub fn status_result(status: i32, kind: FreenectErrorKind, reason: &str) -> (r: FreenectResult<()>)
    ensures
        status >= 0 <==> r is Ok,
        status < 0 ==> {
            &&& outcome(r) == Some(kind)
            &&& r->Err_0.spec_reason() == reason@
            &&& r->Err_0.spec_native_status() == Some(status)
        },
{
    if status < 0 {
        Err(FreenectError::from_status(kind, reason, status))
    } else {
        Ok(())
    }
}

} // verus!

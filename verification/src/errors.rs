use vstd::prelude::*;

verus! {

/// Failure of a single SNTP probe. All variants are recoverable: the caller
/// records the failure against the server and continues with the others.
#[derive(Debug, Clone, PartialEq, Eq)]
pub enum ProbeError {
    /// No reply arrived within the configured timeout.
    Timeout,
    /// The exchange failed below the protocol level.
    NetworkError(String),
    /// The reply could not be understood.
    ProtocolError(String),
    /// Applying the server offset to the local wall clock left the valid
    /// epoch range.
    ClockUnderflow,
}

/// Failure of one whole sync round.
#[derive(Debug, Clone, PartialEq, Eq)]
pub enum SyncError {
    /// Every configured server failed to answer.
    AllServersFailed,
    /// The probes succeeded but selection produced nothing.
    NoConsensus,
}

/// Rejection of a configuration at validation time.
#[derive(Debug, Clone, PartialEq, Eq)]
pub enum ConfigError {
    /// The server list is empty.
    EmptyServers,
    /// The sync interval is below one second.
    SyncIntervalTooSmall,
    /// The probe timeout is below one second.
    TimeoutTooSmall,
    /// Fewer than one server would be sampled per sync.
    SampleCountTooSmall,
    /// The minimum probe interval exceeds the maximum.
    ProbeIntervalInverted,
}

/// Service-level error surfaced at the request boundary.
#[derive(Debug, Clone, PartialEq, Eq)]
pub enum AppError {
    /// No successful sync has happened yet.
    NotSynced,
    /// A sync round failed; the detail string is carried through.
    NtpError(String),
    /// Catch-all for unexpected conditions.
    Internal(String),
    /// A request ran past its deadline.
    Timeout,
}

impl AppError {
    /// The HTTP status code this error maps to at the boundary.
    pub fn status_code(&self) -> (code: u16)
        ensures
            code == self.spec_status_code(),
    {
        match self {
            AppError::NotSynced => 503,
            AppError::NtpError(_) => 500,
            AppError::Internal(_) => 500,
            AppError::Timeout => 408,
        }
    }

    pub open spec fn spec_status_code(self) -> u16 {
        match self {
            AppError::NotSynced => 503,
            AppError::NtpError(_) => 500,
            AppError::Internal(_) => 500,
            AppError::Timeout => 408,
        }
    }

    /// Human-readable description, used as the `error` field of the
    /// JSON body this error is reported with.
    pub fn message(&self) -> (m: String)
        ensures
            m@ == self.spec_message(),
    {
        match self {
            AppError::NotSynced => "NTP sync not yet completed".to_owned(),
            AppError::NtpError(detail) => {
                let s: String = "NTP sync failed: ".to_owned();
                s.concat(detail.as_str())
            },
            AppError::Internal(_) => "Internal server error".to_owned(),
            AppError::Timeout => "Request timeout".to_owned(),
        }
    }

    pub open spec fn spec_message(self) -> Seq<char> {
        match self {
            AppError::NotSynced => "NTP sync not yet completed"@,
            AppError::NtpError(detail) => "NTP sync failed: "@ + detail@,
            AppError::Internal(_) => "Internal server error"@,
            AppError::Timeout => "Request timeout"@,
        }
    }

    /// The JSON body this error is reported with at the boundary.
    pub open spec fn spec_response_body(self) -> Seq<char> {
        "{\"data\":0,\"error\":\""@ + self.spec_message() + "\",\"message\":\"error\",\"status\":"@
            + crate::numfmt::spec_digits(self.spec_status_code() as nat) + "}"@
    }

    /// What the boundary sends for this error: its status code and the
    /// JSON body carrying the description.
    pub fn response_parts(&self) -> (r: (u16, String))
        ensures
            r.0 == self.spec_status_code(),
            r.1@ == self.spec_response_body(),
    {
        let code = self.status_code();
        let message = self.message();
        let mut body: String = "{\"data\":0,\"error\":\"".to_owned();
        body.append(message.as_str());
        body.append("\",\"message\":\"error\",\"status\":");
        crate::numfmt::append_u64(&mut body, code as u64);
        body.append("}");
        proof {
            assert(body@ =~= self.spec_response_body());
        }
        (code, body)
    }
}

} // verus!

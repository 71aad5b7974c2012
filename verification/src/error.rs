use vstd::prelude::*;

verus! {

/// The kinds of error that the net watcher reports.
#[derive(Debug, Clone, Copy, PartialEq, Eq, Structural)]
pub enum ErrorCode {
    UnsupportedPlatform,
    InvalidConfig,
    AlreadyWatching,
    NotWatching,
    Internal,
    SystemNetworkUnavailable,
}

/// The code's text, as the plugin reports it.
pub open spec fn code_text(code: ErrorCode) -> Seq<char> {
    match code {
        ErrorCode::UnsupportedPlatform => "unsupported_platform"@,
        ErrorCode::InvalidConfig => "invalid_config"@,
        ErrorCode::AlreadyWatching => "already_watching"@,
        ErrorCode::NotWatching => "not_watching"@,
        ErrorCode::Internal => "internal_error"@,
        ErrorCode::SystemNetworkUnavailable => "system_network_unavailable"@,
    }
}

/// An error of the net watcher: a code and a message.
#[derive(Debug)]
pub struct Error {
    pub code: ErrorCode,
    pub message: String,
}

impl Error {
    pub fn unsupported_platform() -> (e: Self)
        ensures
            e.code == ErrorCode::UnsupportedPlatform,
            e.message@ == "unsupported platform"@,
    {
        Error { code: ErrorCode::UnsupportedPlatform, message: "unsupported platform".to_owned() }
    }

    pub fn invalid_config(message: String) -> (e: Self)
        ensures
            e.code == ErrorCode::InvalidConfig,
            e.message@ == message@,
    {
        Error { code: ErrorCode::InvalidConfig, message }
    }

    pub fn already_watching() -> (e: Self)
        ensures
            e.code == ErrorCode::AlreadyWatching,
            e.message@ == "net watcher is already watching"@,
    {
        Error { code: ErrorCode::AlreadyWatching, message: "net watcher is already watching".to_owned() }
    }

    pub fn not_watching() -> (e: Self)
        ensures
            e.code == ErrorCode::NotWatching,
            e.message@ == "net watcher is not watching"@,
    {
        Error { code: ErrorCode::NotWatching, message: "net watcher is not watching".to_owned() }
    }

    pub fn internal(message: String) -> (e: Self)
        ensures
            e.code == ErrorCode::Internal,
            e.message@ == message@,
    {
        Error { code: ErrorCode::Internal, message }
    }

    /// An error of the system's network interfaces, with the system's message.
    pub fn system_network(message: String) -> (e: Self)
        ensures
            e.code == ErrorCode::SystemNetworkUnavailable,
            e.message@ == message@,
    {
        Error { code: ErrorCode::SystemNetworkUnavailable, message }
    }

    pub fn code(&self) -> (s: &'static str)
        ensures
            s@ == code_text(self.code),
    {
        match self.code {
            ErrorCode::UnsupportedPlatform => "unsupported_platform",
            ErrorCode::InvalidConfig => "invalid_config",
            ErrorCode::AlreadyWatching => "already_watching",
            ErrorCode::NotWatching => "not_watching",
            ErrorCode::Internal => "internal_error",
            ErrorCode::SystemNetworkUnavailable => "system_network_unavailable",
        }
    }

    pub fn message(&self) -> (s: String)
        ensures
            s@ == self.message@,
    {
        self.message.clone()
    }
}

} // verus!

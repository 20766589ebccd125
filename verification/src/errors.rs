use vstd::prelude::*;

verus! {

/// Failure categories surfaced to the calling layer.
///
/// The variants keep bad input (`InvalidAddress`), storage faults
/// (`Database`, `Serialization`, `Internal`) and upstream outages
/// (`Http`, `Solana`, `Ethereum`) distinguishable, so a caller can tell
/// retry-worthy failures from non-retry-worthy ones.  Each variant
/// carries a human-readable description.
#[derive(Clone, Debug, PartialEq, Eq)]
pub enum AppError {
    InvalidAddress(String),
    Database(String),
    Serialization(String),
    Http(String),
    Solana(String),
    Ethereum(String),
    Internal(String),
}

impl AppError {
    /// The HTTP status class this error maps to: 400 for bad input,
    /// 502 for an upstream outage (retry-worthy), 500 for an internal
    /// or storage fault.
    pub open spec fn spec_status_code(self) -> u16 {
        match self {
            AppError::InvalidAddress(_) => 400,
            AppError::Database(_) => 500,
            AppError::Serialization(_) => 500,
            AppError::Http(_) => 502,
            AppError::Solana(_) => 502,
            AppError::Ethereum(_) => 502,
            AppError::Internal(_) => 500,
        }
    }

    pub fn status_code(&self) -> (code: u16)
        ensures
            code == self.spec_status_code(),
    {
        match self {
            AppError::InvalidAddress(_) => 400,
            AppError::Database(_) => 500,
            AppError::Serialization(_) => 500,
            AppError::Http(_) => 502,
            AppError::Solana(_) => 502,
            AppError::Ethereum(_) => 502,
            AppError::Internal(_) => 500,
        }
    }

    /// The description carried by the variant.
    pub open spec fn spec_detail(self) -> Seq<char> {
        match self {
            AppError::InvalidAddress(m) => m@,
            AppError::Database(m) => m@,
            AppError::Serialization(m) => m@,
            AppError::Http(m) => m@,
            AppError::Solana(m) => m@,
            AppError::Ethereum(m) => m@,
            AppError::Internal(m) => m@,
        }
    }

    /// The subsystem prefix used when rendering the error.
    pub open spec fn spec_prefix(self) -> Seq<char> {
        match self {
            AppError::InvalidAddress(_) => "Invalid address: "@,
            AppError::Database(_) => "Database error: "@,
            AppError::Serialization(_) => "Serialization error: "@,
            AppError::Http(_) => "HTTP error: "@,
            AppError::Solana(_) => "Solana error: "@,
            AppError::Ethereum(_) => "Ethereum error: "@,
            AppError::Internal(_) => "Internal error: "@,
        }
    }

    /// Renders the error as `<subsystem>: <detail>` so the caller can
    /// log which subsystem failed and why.
    pub fn message(&self) -> (msg: String)
        ensures
            msg@ == self.spec_prefix() + self.spec_detail(),
    {
        let prefix: &str = match self {
            AppError::InvalidAddress(_) => "Invalid address: ",
            AppError::Database(_) => "Database error: ",
            AppError::Serialization(_) => "Serialization error: ",
            AppError::Http(_) => "HTTP error: ",
            AppError::Solana(_) => "Solana error: ",
            AppError::Ethereum(_) => "Ethereum error: ",
            AppError::Internal(_) => "Internal error: ",
        };
        let detail: &str = match self {
            AppError::InvalidAddress(m) => m.as_str(),
            AppError::Database(m) => m.as_str(),
            AppError::Serialization(m) => m.as_str(),
            AppError::Http(m) => m.as_str(),
            AppError::Solana(m) => m.as_str(),
            AppError::Ethereum(m) => m.as_str(),
            AppError::Internal(m) => m.as_str(),
        };
        let mut msg = prefix.to_owned();
        msg.append(detail);
        msg
    }
}

} // verus!

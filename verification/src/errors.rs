use vstd::prelude::*;

verus! {

/// The single missing required field that made a loaded entity invalid.
///
/// Validation runs its field checks in a fixed priority order and reports
/// the first unmet precondition, so a value of this type is a deterministic
/// single-cause diagnosis, never a list of all violations.
#[derive(Debug, Clone, Copy, PartialEq, Eq, Structural)]
pub enum NotSetError {
    CreatedAt,
    Uuid,
    Fleet,
    ApiUrl,
    File,
    PrivateKey,
    Address,
    Peers,
    WireguardFile,
}

impl NotSetError {
    /// Human-readable diagnosis, used where the error is logged or printed.
    pub fn describe(&self) -> (r: &'static str)
        ensures
            (match self {
                NotSetError::CreatedAt => r@ == "Created At is not set"@,
                NotSetError::Uuid => r@ == "UUID is not set"@,
                NotSetError::Fleet => r@ == "Fleet is not set"@,
                NotSetError::ApiUrl => r@ == "API URL is not set"@,
                NotSetError::File => r@ == "File is not set"@,
                NotSetError::PrivateKey => r@ == "Private Key is not set"@,
                NotSetError::Address => r@ == "Address is not set"@,
                NotSetError::Peers => r@ == "Peers is not set"@,
                NotSetError::WireguardFile => r@ == "Wireguard File is not set"@,
            }),
    {
        match self {
            NotSetError::CreatedAt => "Created At is not set",
            NotSetError::Uuid => "UUID is not set",
            NotSetError::Fleet => "Fleet is not set",
            NotSetError::ApiUrl => "API URL is not set",
            NotSetError::File => "File is not set",
            NotSetError::PrivateKey => "Private Key is not set",
            NotSetError::Address => "Address is not set",
            NotSetError::Peers => "Peers is not set",
            NotSetError::WireguardFile => "Wireguard File is not set",
        }
    }
}

/// The missing required field reported by the bootstrap device record's
/// validation (the record that has no timestamp field).
#[derive(Debug, Clone, Copy, PartialEq, Eq, Structural)]
pub enum ValidationError {
    UuidNotSet,
    FleetNotSet,
    ApiUrlNotSet,
    FileNotSet,
}

impl ValidationError {
    /// Human-readable diagnosis, used where the error is logged or printed.
    pub fn describe(&self) -> (r: &'static str)
        ensures
            (match self {
                ValidationError::UuidNotSet => r@ == "UUID is not set"@,
                ValidationError::FleetNotSet => r@ == "Fleet is not set"@,
                ValidationError::ApiUrlNotSet => r@ == "API URL is not set"@,
                ValidationError::FileNotSet => r@ == "File is not set"@,
            }),
    {
        match self {
            ValidationError::UuidNotSet => "UUID is not set",
            ValidationError::FleetNotSet => "Fleet is not set",
            ValidationError::ApiUrlNotSet => "API URL is not set",
            ValidationError::FileNotSet => "File is not set",
        }
    }
}

} // verus!

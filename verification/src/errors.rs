//! The typed error hierarchy of every failed nod operation.
//!
//! Control flow that branches on a failure class matches the variant; the
//! operator-facing text lives in `detail`, and `message` renders the full
//! line shown to the operator (`"<class> error: <detail>"`).

use vstd::prelude::*;

verus! {

/// Root typed error class for every failed nod operation.
#[derive(Debug, Clone, PartialEq, Eq)]
pub enum NodError {
    /// Nix evaluation / host discovery / closure build failures.
    Evaluation { detail: String },
    /// Closure transfer / switch activation / rollback failures.
    Deployment { detail: String },
    /// CLI, `.nod.toml`, flake metadata and defaults resolution failures.
    Config { detail: String },
    /// Reachability and post-activation verification failures.
    HealthCheck { detail: String },
    /// Invariant / programming errors that should never surface in practice.
    Internal { detail: String },
}

/// The failure classes of [`NodError`], without their text.
#[derive(Debug, Clone, Copy, PartialEq, Eq)]
pub enum ErrorClass {
    Evaluation,
    Deployment,
    Config,
    HealthCheck,
    Internal,
}

impl NodError {
    /// The failure class of this error.
    pub open spec fn class(self) -> ErrorClass {
        match self {
            NodError::Evaluation { .. } => ErrorClass::Evaluation,
            NodError::Deployment { .. } => ErrorClass::Deployment,
            NodError::Config { .. } => ErrorClass::Config,
            NodError::HealthCheck { .. } => ErrorClass::HealthCheck,
            NodError::Internal { .. } => ErrorClass::Internal,
        }
    }

    /// The operator-facing detail text of this error.
    pub open spec fn detail_text(self) -> Seq<char> {
        match self {
            NodError::Evaluation { detail } => detail@,
            NodError::Deployment { detail } => detail@,
            NodError::Config { detail } => detail@,
            NodError::HealthCheck { detail } => detail@,
            NodError::Internal { detail } => detail@,
        }
    }

    /// The prefix that names the failure class in the rendered message.
    pub open spec fn class_prefix(c: ErrorClass) -> Seq<char> {
        match c {
            ErrorClass::Evaluation => "evaluation error: "@,
            ErrorClass::Deployment => "deployment error: "@,
            ErrorClass::Config => "configuration error: "@,
            ErrorClass::HealthCheck => "health check error: "@,
            ErrorClass::Internal => "internal error: "@,
        }
    }

    /// The full rendered message: class prefix followed by the detail.
    pub open spec fn message_text(self) -> Seq<char> {
        Self::class_prefix(self.class()) + self.detail_text()
    }

    /// `true` when `self` has class `c` and detail `d`.
    pub open spec fn is(self, c: ErrorClass, d: Seq<char>) -> bool {
        self.class() == c && self.detail_text() == d
    }

    /// Builds an error of class `c` carrying `detail`.
    pub fn of_class(c: ErrorClass, detail: String) -> (e: NodError)
        ensures
            e.is(c, detail@),
    {
        match c {
            ErrorClass::Evaluation => NodError::Evaluation { detail },
            ErrorClass::Deployment => NodError::Deployment { detail },
            ErrorClass::Config => NodError::Config { detail },
            ErrorClass::HealthCheck => NodError::HealthCheck { detail },
            ErrorClass::Internal => NodError::Internal { detail },
        }
    }

    /// The failure class of this error.
    pub fn error_class(&self) -> (c: ErrorClass)
        ensures
            c == self.class(),
    {
        match self {
            NodError::Evaluation { .. } => ErrorClass::Evaluation,
            NodError::Deployment { .. } => ErrorClass::Deployment,
            NodError::Config { .. } => ErrorClass::Config,
            NodError::HealthCheck { .. } => ErrorClass::HealthCheck,
            NodError::Internal { .. } => ErrorClass::Internal,
        }
    }

    /// The detail text of this error.
    pub fn detail(&self) -> (d: &str)
        ensures
            d@ == self.detail_text(),
    {
        match self {
            NodError::Evaluation { detail } => detail.as_str(),
            NodError::Deployment { detail } => detail.as_str(),
            NodError::Config { detail } => detail.as_str(),
            NodError::HealthCheck { detail } => detail.as_str(),
            NodError::Internal { detail } => detail.as_str(),
        }
    }

    /// Renders the operator-facing message (`"<class> error: <detail>"`).
    pub fn message(&self) -> (m: String)
        ensures
            m@ == self.message_text(),
    {
        let mut m = match self {
            NodError::Evaluation { .. } => String::from_str("evaluation error: "),
            NodError::Deployment { .. } => String::from_str("deployment error: "),
            NodError::Config { .. } => String::from_str("configuration error: "),
            NodError::HealthCheck { .. } => String::from_str("health check error: "),
            NodError::Internal { .. } => String::from_str("internal error: "),
        };
        m.append(self.detail());
        m
    }

    /// Builds a `c`-class error whose detail is `prefix` followed by `cause`.
    fn prefixed(c: ErrorClass, prefix: &str, cause: &str) -> (e: NodError)
        ensures
            e.is(c, prefix@ + cause@),
    {
        let mut d = String::from_str(prefix);
        d.append(cause);
        NodError::of_class(c, d)
    }

    /// Category constructor: evaluation failures.
    pub fn evaluation(detail: &str) -> (e: NodError)
        ensures
            e.is(ErrorClass::Evaluation, detail@),
    {
        NodError::Evaluation { detail: detail.to_owned() }
    }

    /// Category constructor: deployment failures.
    pub fn deployment(detail: &str) -> (e: NodError)
        ensures
            e.is(ErrorClass::Deployment, detail@),
    {
        NodError::Deployment { detail: detail.to_owned() }
    }

    /// Category constructor: configuration failures.
    pub fn config(detail: &str) -> (e: NodError)
        ensures
            e.is(ErrorClass::Config, detail@),
    {
        NodError::Config { detail: detail.to_owned() }
    }

    /// Category constructor: health check failures.
    pub fn healthcheck(detail: &str) -> (e: NodError)
        ensures
            e.is(ErrorClass::HealthCheck, detail@),
    {
        NodError::HealthCheck { detail: detail.to_owned() }
    }

    /// Category constructor: internal failures.
    pub fn internal(detail: &str) -> (e: NodError)
        ensures
            e.is(ErrorClass::Internal, detail@),
    {
        NodError::Internal { detail: detail.to_owned() }
    }

    /// Raised when Nix host discovery evaluation fails.
    pub fn discovery_failure(detail: &str) -> (e: NodError)
        ensures
            e.is(ErrorClass::Evaluation, "Nix host discovery evaluation failed: "@ + detail@),
    {
        Self::prefixed(ErrorClass::Evaluation, "Nix host discovery evaluation failed: ", detail)
    }

    /// Raised when parsing Nix evaluation / build output fails.
    pub fn parse_failure(detail: &str) -> (e: NodError)
        ensures
            e.is(ErrorClass::Evaluation, "failed to parse Nix output: "@ + detail@),
    {
        Self::prefixed(ErrorClass::Evaluation, "failed to parse Nix output: ", detail)
    }

    /// Raised when `nix build` of a host toplevel closure fails.
    pub fn build_failure(host_name: &str, detail: &str) -> (e: NodError)
        ensures
            e.is(
                ErrorClass::Evaluation,
                "Nix build failed for host "@ + host_name@ + ": "@ + detail@,
            ),
    {
        let mut d = String::from_str("Nix build failed for host ");
        d.append(host_name);
        d.append(": ");
        d.append(detail);
        NodError::Evaluation { detail: d }
    }

    /// Raised when local `sudo switch-to-configuration` fails.
    pub fn local_activate(detail: &str) -> (e: NodError)
        ensures
            e.is(
                ErrorClass::Deployment,
                "failed to activate local NixOS configuration: "@ + detail@,
            ),
    {
        Self::prefixed(
            ErrorClass::Deployment,
            "failed to activate local NixOS configuration: ",
            detail,
        )
    }

    /// Raised when the store-copy step over SSH fails.
    pub fn store_transfer(detail: &str) -> (e: NodError)
        ensures
            e.is(ErrorClass::Deployment, "Nix store copy over SSH failed: "@ + detail@),
    {
        Self::prefixed(ErrorClass::Deployment, "Nix store copy over SSH failed: ", detail)
    }

    /// Raised when the remote switch activation over SSH fails.
    pub fn remote_activate(detail: &str) -> (e: NodError)
        ensures
            e.is(
                ErrorClass::Deployment,
                "failed to execute remote activation over SSH: "@ + detail@,
            ),
    {
        Self::prefixed(
            ErrorClass::Deployment,
            "failed to execute remote activation over SSH: ",
            detail,
        )
    }

    /// Raised when a rollback step fails.
    pub fn rollback_failure(detail: &str) -> (e: NodError)
        ensures
            e.is(ErrorClass::Deployment, "rollback failed: "@ + detail@),
    {
        Self::prefixed(ErrorClass::Deployment, "rollback failed: ", detail)
    }

    /// Raised when a requested target host cannot be found.
    pub fn not_found(host: &str) -> (e: NodError)
        ensures
            e.is(
                ErrorClass::Config,
                "Target host '"@ + host@ + "' not found in flake nixosConfigurations."@,
            ),
    {
        let mut d = String::from_str("Target host '");
        d.append(host);
        d.append("' not found in flake nixosConfigurations.");
        NodError::Config { detail: d }
    }

    /// Raised when configuration (CLI / TOML / flake metadata) is malformed.
    pub fn config_parse(detail: &str) -> (e: NodError)
        ensures
            e.is(ErrorClass::Config, "configuration parse error: "@ + detail@),
    {
        Self::prefixed(ErrorClass::Config, "configuration parse error: ", detail)
    }

    /// Raised when a service is requested that has no binding.
    pub fn missing_binding(service: &str) -> (e: NodError)
        ensures
            e.is(ErrorClass::Config, "no binding registered for service '"@ + service@ + "'"@),
    {
        let mut d = String::from_str("no binding registered for service '");
        d.append(service);
        d.append("'");
        NodError::Config { detail: d }
    }

    /// Raised when a host fails a reachability / verification probe.
    pub fn unreachable(detail: &str) -> (e: NodError)
        ensures
            e.is(ErrorClass::HealthCheck, "host failed health probe: "@ + detail@),
    {
        Self::prefixed(ErrorClass::HealthCheck, "host failed health probe: ", detail)
    }

    /// Raised when an internal invariant is violated.
    pub fn invariant_violated(detail: &str) -> (e: NodError)
        ensures
            e.is(ErrorClass::Internal, "internal invariant violated: "@ + detail@),
    {
        Self::prefixed(ErrorClass::Internal, "internal invariant violated: ", detail)
    }
}

} // verus!

//! Checks of a cluster before it is started: what a check can say, what is
//! suggested on a failure, and how a run of checks goes on from each result.

use vstd::prelude::*;
use vstd::string::*;

verus! {

/// The oldest version of Kubernetes that is supported.
pub const KUBE_VERSION: &'static str = "1.7.0";

/// The user name that a minikube context has.
pub const MINIKUBE_USERNAME: &'static str = "minikube";

/// How long to wait before a service is looked up again, in milliseconds.
pub const DELAY: u64 = 1000;

/// How often a service is looked up before it is given up.
pub const LOOKUPS: u16 = 10;

/// A check could not be carried out. This is no verdict on the cluster: a
/// check that was carried out and found fault is a `CheckStatus::Fail`.
#[derive(Debug)]
pub enum CheckError {
    /// The helm client failed; with what it said.
    HelmError(String),
    /// The Kubernetes configuration could not be read; with what was said.
    K8ConfigError(String),
    /// The Kubernetes client failed; with what it said.
    K8ClientError(String),
    /// The server address of the Kubernetes context is no URL.
    BadKubernetesServerUrl(String),
    /// `kubectl` could not be run.
    KubectlNotFoundError(String),
    /// The permissions could not be fetched.
    FetchPermissionError,
    /// The version that `kubectl` printed could not be read.
    KubectlVersionJsonError(String),
    /// The service for the load balancer check could not be created.
    ServiceCreateError,
    /// The service for the load balancer check could not be deleted.
    ServiceDeleteError,
}

/// The message of a check that passed.
pub type CheckSucceeded = String;

/// A failure from which a run may recover by itself.
#[derive(Clone, Copy, PartialEq, Eq, Debug, Structural)]
pub enum RecoverableCheck {
    /// The system chart is not installed.
    MissingSystemChart,
    /// No minikube tunnel was found, and one may be brought up.
    MinikubeTunnelNotFoundRetry,
}

/// A failure from which there is no recovery.
#[derive(Debug)]
pub enum UnrecoverableCheck {
    /// The recovery from a recoverable failure failed.
    FailedRecovery(RecoverableCheck),
    /// A resource may not be created.
    PermissionError {
        /// The resource's name.
        resource: String,
    },
    /// The installed helm is too old.
    IncompatibleHelmVersion {
        /// The version that is installed.
        installed: String,
        /// The oldest version that will do.
        required: String,
    },
    /// The installed Kubernetes is too old.
    IncompatibleKubectlVersion {
        /// The version that is installed.
        installed: String,
        /// The oldest version that will do.
        required: String,
    },
    /// There is no current Kubernetes context.
    NoActiveKubernetesContext,
    /// The active context cannot be connected to.
    CannotConnectToKubernetes,
    /// More than one system chart is installed.
    MultipleSystemCharts,
    /// The Kubernetes server has no host name.
    MissingKubernetesServerHost,
    /// No load balancer service is available.
    LoadBalancerServiceNotAvailable,
    /// No minikube tunnel was found, and none can be brought up from here.
    MinikubeTunnelNotFound,
    /// The Kubernetes client failed in a way that is not handled.
    UnhandledK8ClientError,
}

/// What a check found wrong.
#[derive(Debug)]
pub enum CheckFailed {
    /// A failure from which a run may recover by itself.
    AutoRecoverable(RecoverableCheck),
    /// A failure from which there is no recovery.
    Unrecoverable(UnrecoverableCheck),
    /// A cluster is already started.
    AlreadyInstalled,
}

impl From<RecoverableCheck> for CheckFailed {
    fn from(check: RecoverableCheck) -> (r: CheckFailed) {
        CheckFailed::AutoRecoverable(check)
    }
}

impl vstd::std_specs::convert::FromSpecImpl<RecoverableCheck> for CheckFailed {
    open spec fn obeys_from_spec() -> bool {
        true
    }

    open spec fn from_spec(check: RecoverableCheck) -> CheckFailed {
        CheckFailed::AutoRecoverable(check)
    }
}

impl From<UnrecoverableCheck> for CheckFailed {
    fn from(check: UnrecoverableCheck) -> (r: CheckFailed) {
        CheckFailed::Unrecoverable(check)
    }
}

impl vstd::std_specs::convert::FromSpecImpl<UnrecoverableCheck> for CheckFailed {
    open spec fn obeys_from_spec() -> bool {
        true
    }

    open spec fn from_spec(check: UnrecoverableCheck) -> CheckFailed {
        CheckFailed::Unrecoverable(check)
    }
}

/// The verdict of a check that was carried out.
#[derive(Debug)]
pub enum CheckStatus {
    /// The check passed; with its message.
    Pass(CheckSucceeded),
    /// The check failed; with the reason.
    Fail(CheckFailed),
}

/// What a check came to: a verdict, or the error that kept it from one.
pub type CheckResult = Result<CheckStatus, CheckError>;

/// What a run of checks came to, in the order of the checks.
pub type CheckResults = Vec<CheckResult>;

/// The verdicts of checks, in order.
pub type CheckStatuses = Vec<CheckStatus>;

/// What may be done about a failure.
pub trait CheckSuggestion {
    /// The advice that there is to give, as mathematics sees it.
    spec fn advice(&self) -> Option<Seq<char>>;

    /// The advice, if there is any to give.
    fn suggestion(&self) -> (r: Option<String>)
        ensures
            crate::error::name_view(r) == self.advice(),
    ;
}

impl CheckSuggestion for RecoverableCheck {
    open spec fn advice(&self) -> Option<Seq<char>> {
        match *self {
            RecoverableCheck::MissingSystemChart => Some("Run 'fluvio cluster start --sys'"@),
            RecoverableCheck::MinikubeTunnelNotFoundRetry => Some("Run 'minikube tunnel'"@),
        }
    }

    fn suggestion(&self) -> (r: Option<String>) {
        let suggestion = match self {
            RecoverableCheck::MissingSystemChart => "Run 'fluvio cluster start --sys'",
            RecoverableCheck::MinikubeTunnelNotFoundRetry => "Run 'minikube tunnel'",
        };
        Some(suggestion.to_owned())
    }
}

impl CheckSuggestion for UnrecoverableCheck {
    open spec fn advice(&self) -> Option<Seq<char>> {
        match *self {
            UnrecoverableCheck::MinikubeTunnelNotFound => Some(
                "Run 'minikube tunnel >/tmp/tunnel.out 2>/tmp/tunnel.out'"@,
            ),
            _ => None,
        }
    }

    fn suggestion(&self) -> (r: Option<String>) {
        match self {
            UnrecoverableCheck::MinikubeTunnelNotFound => Some(
                "Run 'minikube tunnel >/tmp/tunnel.out 2>/tmp/tunnel.out'".to_owned(),
            ),
            _ => None,
        }
    }
}

impl CheckSuggestion for CheckFailed {
    open spec fn advice(&self) -> Option<Seq<char>> {
        match *self {
            CheckFailed::AutoRecoverable(check) => check.advice(),
            CheckFailed::Unrecoverable(check) => check.advice(),
            CheckFailed::AlreadyInstalled => None,
        }
    }

    fn suggestion(&self) -> (r: Option<String>) {
        match self {
            CheckFailed::AutoRecoverable(check) => check.suggestion(),
            CheckFailed::Unrecoverable(check) => check.suggestion(),
            CheckFailed::AlreadyInstalled => None,
        }
    }
}

impl CheckSuggestion for CheckStatus {
    open spec fn advice(&self) -> Option<Seq<char>> {
        match *self {
            CheckStatus::Pass(_) => None,
            CheckStatus::Fail(failed) => failed.advice(),
        }
    }

    fn suggestion(&self) -> (r: Option<String>) {
        match self {
            CheckStatus::Pass(_) => None,
            CheckStatus::Fail(failed) => failed.suggestion(),
        }
    }
}

impl CheckStatus {
    /// Whether this is a pass with the message `msg`.
    pub open spec fn is_pass(self, msg: Seq<char>) -> bool {
        self matches CheckStatus::Pass(text) && text@ == msg
    }

    /// Whether this is the failure of a helm that is too old.
    pub open spec fn is_old_helm(self, installed: Seq<char>, required: Seq<char>) -> bool {
        self matches CheckStatus::Fail(
            CheckFailed::Unrecoverable(
                UnrecoverableCheck::IncompatibleHelmVersion { installed: i, required: q },
            ),
        ) && i@ == installed && q@ == required
    }

    /// Whether this is the failure of a Kubernetes that is too old.
    pub open spec fn is_old_kube(self, installed: Seq<char>, required: Seq<char>) -> bool {
        self matches CheckStatus::Fail(
            CheckFailed::Unrecoverable(
                UnrecoverableCheck::IncompatibleKubectlVersion { installed: i, required: q },
            ),
        ) && i@ == installed && q@ == required
    }

    /// Whether this is the failure of a missing permission to create `resource`.
    pub open spec fn is_denied(self, resource: Seq<char>) -> bool {
        self matches CheckStatus::Fail(
            CheckFailed::Unrecoverable(UnrecoverableCheck::PermissionError { resource: name }),
        ) && name@ == resource
    }

    /// A verdict that passes, with its message.
    pub fn pass(msg: String) -> (r: CheckStatus)
        ensures
            r == CheckStatus::Pass(msg),
    {
        CheckStatus::Pass(msg)
    }

    /// A verdict that fails, with the reason.
    pub fn fail(fail: CheckFailed) -> (r: CheckStatus)
        ensures
            r == CheckStatus::Fail(fail),
    {
        CheckStatus::Fail(fail)
    }
}

impl RecoverableCheck {
    /// What the failure says.
    pub open spec fn message_text(self) -> Seq<char> {
        match self {
            RecoverableCheck::MissingSystemChart => "Missing Fluvio system charts."@,
            RecoverableCheck::MinikubeTunnelNotFoundRetry => "Minikube tunnel not found"@,
        }
    }

    /// What the failure says.
    pub fn message(&self) -> (r: String)
        ensures
            r@ == self.message_text(),
    {
        match self {
            RecoverableCheck::MissingSystemChart => "Missing Fluvio system charts.".to_owned(),
            RecoverableCheck::MinikubeTunnelNotFoundRetry => "Minikube tunnel not found".to_owned(),
        }
    }
}

impl UnrecoverableCheck {
    /// What the failure says.
    pub open spec fn message_text(self) -> Seq<char> {
        match self {
            UnrecoverableCheck::FailedRecovery(_) =>
                "Failed to recover from auto-recoverable check"@,
            UnrecoverableCheck::PermissionError { resource } => "Permissions to create "@
                + resource@ + " denied"@,
            UnrecoverableCheck::IncompatibleHelmVersion { installed, required } =>
                "Must have helm version "@ + required@ + " or later. You have "@ + installed@,
            UnrecoverableCheck::IncompatibleKubectlVersion { installed, required } =>
                "Must have kubectl version "@ + required@ + " or later. You have "@ + installed@,
            UnrecoverableCheck::NoActiveKubernetesContext =>
                "There is no active Kubernetes context"@,
            UnrecoverableCheck::CannotConnectToKubernetes =>
                "Failed to connect to Kubernetes via the active context"@,
            UnrecoverableCheck::MultipleSystemCharts =>
                "Cannot have multiple versions of fluvio-sys installed"@,
            UnrecoverableCheck::MissingKubernetesServerHost => "Missing Kubernetes server host"@,
            UnrecoverableCheck::LoadBalancerServiceNotAvailable =>
                "Load balancer service is not available"@,
            UnrecoverableCheck::MinikubeTunnelNotFound => "Minikube tunnel may not be running"@,
            UnrecoverableCheck::UnhandledK8ClientError => "Unhandled K8 client error"@,
        }
    }

    /// What the failure says.
    pub fn message(&self) -> (r: String)
        ensures
            r@ == self.message_text(),
    {
        match self {
            UnrecoverableCheck::FailedRecovery(_) => {
                "Failed to recover from auto-recoverable check".to_owned()
            },
            UnrecoverableCheck::PermissionError { resource } => {
                let mut out = String::from_str("Permissions to create ");
                out.append(resource.as_str());
                out.append(" denied");
                out
            },
            UnrecoverableCheck::IncompatibleHelmVersion { installed, required } => {
                let mut out = String::from_str("Must have helm version ");
                out.append(required.as_str());
                out.append(" or later. You have ");
                out.append(installed.as_str());
                out
            },
            UnrecoverableCheck::IncompatibleKubectlVersion { installed, required } => {
                let mut out = String::from_str("Must have kubectl version ");
                out.append(required.as_str());
                out.append(" or later. You have ");
                out.append(installed.as_str());
                out
            },
            UnrecoverableCheck::NoActiveKubernetesContext => {
                "There is no active Kubernetes context".to_owned()
            },
            UnrecoverableCheck::CannotConnectToKubernetes => {
                "Failed to connect to Kubernetes via the active context".to_owned()
            },
            UnrecoverableCheck::MultipleSystemCharts => {
                "Cannot have multiple versions of fluvio-sys installed".to_owned()
            },
            UnrecoverableCheck::MissingKubernetesServerHost => {
                "Missing Kubernetes server host".to_owned()
            },
            UnrecoverableCheck::LoadBalancerServiceNotAvailable => {
                "Load balancer service is not available".to_owned()
            },
            UnrecoverableCheck::MinikubeTunnelNotFound => {
                "Minikube tunnel may not be running".to_owned()
            },
            UnrecoverableCheck::UnhandledK8ClientError => "Unhandled K8 client error".to_owned(),
        }
    }
}

impl CheckFailed {
    /// What the failure says: what the failure inside it says, where there is one.
    pub open spec fn message_text(self) -> Seq<char> {
        match self {
            CheckFailed::AutoRecoverable(check) => check.message_text(),
            CheckFailed::Unrecoverable(check) => check.message_text(),
            CheckFailed::AlreadyInstalled => "Fluvio cluster is already started"@,
        }
    }

    /// What the failure says.
    pub fn message(&self) -> (r: String)
        ensures
            r@ == self.message_text(),
    {
        match self {
            CheckFailed::AutoRecoverable(check) => check.message(),
            CheckFailed::Unrecoverable(check) => check.message(),
            CheckFailed::AlreadyInstalled => "Fluvio cluster is already started".to_owned(),
        }
    }
}

impl CheckError {
    /// What the error says.
    pub open spec fn message_text(self) -> Seq<char> {
        match self {
            CheckError::HelmError(_) => "Helm client error"@,
            CheckError::K8ConfigError(_) => "Kubernetes config error"@,
            CheckError::K8ClientError(_) => "Kubernetes client error"@,
            CheckError::BadKubernetesServerUrl(_) =>
                "Failed to parse server url from Kubernetes context"@,
            CheckError::KubectlNotFoundError(_) => "Kubectl not found"@,
            CheckError::FetchPermissionError => "Unable to fetch permissions"@,
            CheckError::KubectlVersionJsonError(_) => "Unable to parse kubectl version from JSON"@,
            CheckError::ServiceCreateError => "Could not create service"@,
            CheckError::ServiceDeleteError => "Could not delete service"@,
        }
    }

    /// What the error says.
    pub fn message(&self) -> (r: String)
        ensures
            r@ == self.message_text(),
    {
        match self {
            CheckError::HelmError(_) => "Helm client error".to_owned(),
            CheckError::K8ConfigError(_) => "Kubernetes config error".to_owned(),
            CheckError::K8ClientError(_) => "Kubernetes client error".to_owned(),
            CheckError::BadKubernetesServerUrl(_) => {
                "Failed to parse server url from Kubernetes context".to_owned()
            },
            CheckError::KubectlNotFoundError(_) => "Kubectl not found".to_owned(),
            CheckError::FetchPermissionError => "Unable to fetch permissions".to_owned(),
            CheckError::KubectlVersionJsonError(_) => {
                "Unable to parse kubectl version from JSON".to_owned()
            },
            CheckError::ServiceCreateError => "Could not create service".to_owned(),
            CheckError::ServiceDeleteError => "Could not delete service".to_owned(),
        }
    }
}

/// The failure for a minikube tunnel that is not there: on macOS a tunnel
/// needs rights that a run does not have, elsewhere a run may bring one up.
pub fn get_tunnel_error(macos: bool) -> (r: CheckFailed)
    ensures
        r == if macos {
            CheckFailed::Unrecoverable(UnrecoverableCheck::MinikubeTunnelNotFound)
        } else {
            CheckFailed::AutoRecoverable(RecoverableCheck::MinikubeTunnelNotFoundRetry)
        },
{
    if macos {
        CheckFailed::from(UnrecoverableCheck::MinikubeTunnelNotFound)
    } else {
        CheckFailed::from(RecoverableCheck::MinikubeTunnelNotFoundRetry)
    }
}

} // verus!

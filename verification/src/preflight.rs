//! The verdicts of the single checks, from what was found out about the
//! cluster and the tools around it.

use crate::check::{
    get_tunnel_error, CheckError, CheckFailed, CheckResult, CheckStatus, RecoverableCheck,
    UnrecoverableCheck, DELAY, KUBE_VERSION, LOOKUPS, MINIKUBE_USERNAME,
};
use crate::error::name_view;
use crate::text::{str_eq, trim, trimmed};
use vstd::prelude::*;
use vstd::std_specs::iter::IteratorSpec;
use vstd::string::*;

verus! {

/// What `semver::Version::parse(installed) < semver::Version::parse(required)`
/// comes to. The name stands for three steps: each text is read by
/// `Version::parse`, and the two readings are compared by the order that
/// std derives on `Result`. Two versions compare by their precedence; a
/// version comes before a text that is no version; and two texts that are
/// no versions compare by what the parser says of them.
pub uninterp spec fn version_below(installed: Seq<char>, required: Seq<char>) -> bool;

/// The host of the URL that `server` is; none where it is no URL or the
/// URL has no host.
pub uninterp spec fn url_host(server: Seq<char>) -> Option<Seq<char>>;

/// The most hyphens that may join the pieces of one part of a version.
pub const MAX_HYPHENS: usize = 255;

/// Whether `c` is an ASCII letter or digit.
pub open spec fn is_letter_or_digit(c: char) -> bool {
    ('0' <= c && c <= '9') || ('A' <= c && c <= 'Z') || ('a' <= c && c <= 'z')
}

/// Whether no run of letters, digits and hyphens in `text` holds more than
/// `limit` hyphens that join pieces, where the run that `text` begins in
/// already holds `met` of them. Any other character ends a run. While
/// `spare` holds, no hyphen and no plus sign has been met: the first hyphen
/// of such a text joins nothing, for it is the sign in front of the
/// pre-release, or else the text is no version.
pub open spec fn hyphens_within(text: Seq<char>, met: nat, spare: bool, limit: nat) -> bool
    decreases text.len(),
{
    if text.len() == 0 {
        true
    } else if text[0] == '-' {
        if spare {
            hyphens_within(text.drop_first(), met, false, limit)
        } else {
            met + 1 <= limit && hyphens_within(text.drop_first(), met + 1, false, limit)
        }
    } else if text[0] == '+' {
        hyphens_within(text.drop_first(), 0, false, limit)
    } else if is_letter_or_digit(text[0]) {
        hyphens_within(text.drop_first(), met, spare, limit)
    } else {
        hyphens_within(text.drop_first(), 0, spare, limit)
    }
}

/// Whether a text can be handed to the reader of versions: no part of it
/// is made of more pieces than `MAX_HYPHENS` hyphens can join.
pub open spec fn readable_version(text: Seq<char>) -> bool {
    hyphens_within(text, 0, true, MAX_HYPHENS as nat)
}

/// Compares what `semver::Version::parse` makes of the two texts with `<`.
/// That is a function of the two texts alone; nothing is claimed of its
/// value but that it has this name. The parser gives up, without an
/// answer, where one part of a version is made of more than 256 pieces
/// joined by hyphens. Such a part lies within one run of letters, digits
/// and hyphens, so a text is kept from the parser where one of its runs
/// holds more than `MAX_HYPHENS` hyphens that can join pieces. The hyphen
/// in front of the pre-release joins nothing and is not counted.
#[verifier::external_body]
fn version_is_below(installed: &str, required: &str) -> (r: bool)
    requires
        readable_version(installed@),
        readable_version(required@),
    ensures
        r == version_below(installed@, required@),
{
    semver::Version::parse(installed) < semver::Version::parse(required)
}

/// Calls `url::Url::parse` and then `Url::host`, and writes the host as
/// text. That is a function of the text alone; nothing is claimed of its
/// value but that it has this name.
#[verifier::external_body]
fn parse_url_host(server: &str) -> (r: Option<String>)
    ensures
        name_view(r) == url_host(server@),
{
    match url::Url::parse(server) {
        Ok(parsed) => match parsed.host() {
            Some(host) => Some(host.to_string()),
            None => None,
        },
        Err(_) => None,
    }
}

/// The verdict on the installed helm, from whether its version is below
/// the required one.
pub fn helm_version_status(below: bool, installed: String, required: &str) -> (r: CheckStatus)
    ensures
        below ==> r.is_old_helm(installed@, required@),
        !below ==> r.is_pass("Supported helm version is installed"@),
{
    if below {
        return CheckStatus::fail(
            CheckFailed::Unrecoverable(
                UnrecoverableCheck::IncompatibleHelmVersion {
                    installed,
                    required: required.to_owned(),
                },
            ),
        );
    }
    CheckStatus::pass("Supported helm version is installed".to_owned())
}

/// Whether a text can be handed to the reader of versions.
pub fn is_readable_version(text: &str) -> (r: bool)
    ensures
        r == readable_version(text@),
{
    broadcast use {vstd::string::axiom_spec_iter, vstd::string::next_postcondition};

    let mut it = text.chars();
    let mut met: usize = 0;
    let mut spare = true;
    let ghost mut k: int = 0;
    assert(text@.skip(0) =~= text@);
    loop
        invariant
            0 <= k <= text@.len(),
            it.remaining() == text@.skip(k),
            met <= MAX_HYPHENS,
            readable_version(text@) == hyphens_within(
                text@.skip(k),
                met as nat,
                spare,
                MAX_HYPHENS as nat,
            ),
        decreases text@.len() - k,
    {
        match it.next() {
            None => {
                return true;
            },
            Some(c) => {
                proof {
                    assert(text@.skip(k)[0] == c);
                    assert(text@.skip(k).drop_first() =~= text@.skip(k + 1));
                }
                if c == '-' {
                    if spare {
                        spare = false;
                    } else {
                        if met == MAX_HYPHENS {
                            return false;
                        }
                        met = met + 1;
                    }
                } else if c == '+' {
                    met = 0;
                    spare = false;
                } else if !((c >= '0' && c <= '9') || (c >= 'A' && c <= 'Z') || (c >= 'a'
                    && c <= 'z')) {
                    met = 0;
                }
                proof {
                    k = k + 1;
                }
            },
        }
    }
}

/// Checks that the installed helm is not older than the required one. A
/// text that cannot be handed to the reader of versions is an error of the
/// helm client, with the text of the installed version.
pub fn check_helm_version(installed: String, required: &str) -> (r: CheckResult)
    ensures
        match r {
            Ok(status) => readable_version(installed@) && readable_version(required@) && if version_below(
                installed@,
                required@,
            ) {
                status.is_old_helm(installed@, required@)
            } else {
                status.is_pass("Supported helm version is installed"@)
            },
            Err(e) => !(readable_version(installed@) && readable_version(required@)) && e
                == CheckError::HelmError(installed),
        },
{
    if !(is_readable_version(installed.as_str()) && is_readable_version(required)) {
        return Err(CheckError::HelmError(installed));
    }
    let below = version_is_below(installed.as_str(), required);
    Ok(helm_version_status(below, installed, required))
}

/// Checks that the system chart is installed, once: `installed` is how
/// many charts of its name there are.
pub fn check_system_chart(installed: usize) -> (r: CheckStatus)
    ensures
        installed == 0 ==> r == CheckStatus::Fail(
            CheckFailed::AutoRecoverable(RecoverableCheck::MissingSystemChart),
        ),
        installed > 1 ==> r == CheckStatus::Fail(
            CheckFailed::Unrecoverable(UnrecoverableCheck::MultipleSystemCharts),
        ),
        installed == 1 ==> r.is_pass("Fluvio system charts are installed"@),
{
    if installed == 0 {
        return CheckStatus::fail(CheckFailed::AutoRecoverable(RecoverableCheck::MissingSystemChart));
    } else if installed > 1 {
        return CheckStatus::fail(
            CheckFailed::Unrecoverable(UnrecoverableCheck::MultipleSystemCharts),
        );
    }
    CheckStatus::pass("Fluvio system charts are installed".to_owned())
}

/// Checks that no cluster is installed yet: `installed` is how many charts
/// of the application's name there are.
pub fn check_already_installed(installed: usize) -> (r: CheckStatus)
    ensures
        installed > 0 ==> r == CheckStatus::Fail(CheckFailed::AlreadyInstalled),
        installed == 0 ==> r.is_pass("Previous fluvio installation not found"@),
{
    if installed > 0 {
        return CheckStatus::fail(CheckFailed::AlreadyInstalled);
    }
    CheckStatus::pass("Previous fluvio installation not found".to_owned())
}

/// What a Kubernetes configuration says, as far as the checks read it.
#[derive(Debug)]
pub enum KubeSetup {
    /// The configuration of a pod.
    Pod,
    /// A kubeconfig file.
    KubeConfig {
        /// The server address of the current cluster, if there is a current cluster.
        server: Option<String>,
        /// The user of the current context, if there is a current context.
        user: Option<String>,
    },
}

/// Why a Kubernetes configuration could not be loaded.
#[derive(Debug)]
pub enum ConfigFailure {
    /// There is no current context.
    NoCurrentContext,
    /// Anything else; with what was said.
    Other(String),
}

/// The verdict on a server address, from the host that was read out of it.
pub fn server_host_status(host: Option<String>) -> (r: CheckStatus)
    ensures
        match host {
            Some(name) => if name@.len() > 0 {
                r.is_pass("Kubernetes config is loadable"@)
            } else {
                r == CheckStatus::Fail(
                    CheckFailed::Unrecoverable(UnrecoverableCheck::MissingKubernetesServerHost),
                )
            },
            None => r == CheckStatus::Fail(
                CheckFailed::Unrecoverable(UnrecoverableCheck::MissingKubernetesServerHost),
            ),
        },
{
    let host_present = match host {
        Some(name) => !name.as_str().is_empty(),
        None => false,
    };
    if !host_present {
        return CheckStatus::fail(
            CheckFailed::Unrecoverable(UnrecoverableCheck::MissingKubernetesServerHost),
        );
    }
    CheckStatus::pass("Kubernetes config is loadable".to_owned())
}

/// What the check of the connection comes to, for each way that loading
/// the configuration can end.
pub open spec fn connection_result(loaded: Result<KubeSetup, ConfigFailure>, r: CheckResult) -> bool {
    match loaded {
        Err(ConfigFailure::NoCurrentContext) => r == Ok::<CheckStatus, CheckError>(
            CheckStatus::Fail(
                CheckFailed::Unrecoverable(UnrecoverableCheck::NoActiveKubernetesContext),
            ),
        ),
        Err(ConfigFailure::Other(said)) => r == Err::<CheckStatus, CheckError>(
            CheckError::K8ConfigError(said),
        ),
        Ok(KubeSetup::Pod) => r matches Ok(status) && status.is_pass(
            "Pod config found, ignoring the check"@,
        ),
        Ok(KubeSetup::KubeConfig { server: None, .. }) => r == Ok::<CheckStatus, CheckError>(
            CheckStatus::Fail(
                CheckFailed::Unrecoverable(UnrecoverableCheck::NoActiveKubernetesContext),
            ),
        ),
        Ok(KubeSetup::KubeConfig { server: Some(address), .. }) => match url_host(address@) {
            Some(host) => if host.len() > 0 {
                r matches Ok(status) && status.is_pass("Kubernetes config is loadable"@)
            } else {
                r == Ok::<CheckStatus, CheckError>(
                    CheckStatus::Fail(
                        CheckFailed::Unrecoverable(UnrecoverableCheck::MissingKubernetesServerHost),
                    ),
                )
            },
            None => r == Ok::<CheckStatus, CheckError>(
                CheckStatus::Fail(
                    CheckFailed::Unrecoverable(UnrecoverableCheck::MissingKubernetesServerHost),
                ),
            ),
        },
    }
}

/// Checks that Kubernetes can be reached through the active context: the
/// configuration loads, has a current cluster, and the cluster's server
/// address is a URL with a host.
pub fn check_cluster_connection(loaded: Result<KubeSetup, ConfigFailure>) -> (r: CheckResult)
    ensures
        connection_result(loaded, r),
{
    let config = match loaded {
        Ok(config) => config,
        Err(ConfigFailure::NoCurrentContext) => {
            return Ok(
                CheckStatus::fail(
                    CheckFailed::Unrecoverable(UnrecoverableCheck::NoActiveKubernetesContext),
                ),
            );
        },
        Err(ConfigFailure::Other(said)) => {
            return Err(CheckError::K8ConfigError(said));
        },
    };
    let server = match config {
        KubeSetup::Pod => {
            return Ok(CheckStatus::pass("Pod config found, ignoring the check".to_owned()));
        },
        KubeSetup::KubeConfig { server, .. } => server,
    };
    let server_url = match server {
        Some(address) => address,
        None => {
            return Ok(
                CheckStatus::fail(
                    CheckFailed::Unrecoverable(UnrecoverableCheck::NoActiveKubernetesContext),
                ),
            );
        },
    };
    let host = parse_url_host(server_url.as_str());
    Ok(server_host_status(host))
}

/// The verdict on the installed Kubernetes, from whether the server's
/// version is below the supported one.
pub fn kube_version_status(below: bool, installed: &str) -> (r: CheckStatus)
    ensures
        below ==> r.is_old_kube(installed@, KUBE_VERSION@),
        !below ==> r.is_pass("Supported kubernetes version is installed"@),
{
    if below {
        return CheckStatus::fail(
            CheckFailed::Unrecoverable(
                UnrecoverableCheck::IncompatibleKubectlVersion {
                    installed: installed.to_owned(),
                    required: KUBE_VERSION.to_owned(),
                },
            ),
        );
    }
    CheckStatus::pass("Supported kubernetes version is installed".to_owned())
}

/// A text without its first character; the empty text stays empty.
pub open spec fn without_first(text: Seq<char>) -> Seq<char> {
    if text.len() >= 1 {
        text.skip(1)
    } else {
        text
    }
}

/// Checks that the Kubernetes server is not older than the supported
/// version. `server_version` is the server's version as `kubectl` prints
/// it, with a letter in front; none where the server did not answer. A
/// text that cannot be handed to the reader of versions is an error, with
/// the text.
pub fn k8_version_check(server_version: Option<String>) -> (r: CheckResult)
    ensures
        match server_version {
            None => r == Ok::<CheckStatus, CheckError>(
                CheckStatus::Fail(
                    CheckFailed::Unrecoverable(UnrecoverableCheck::CannotConnectToKubernetes),
                ),
            ),
            Some(version) => {
                let installed = without_first(version@);
                match r {
                    Ok(status) => readable_version(installed) && if version_below(
                        installed,
                        KUBE_VERSION@,
                    ) {
                        status.is_old_kube(installed, KUBE_VERSION@)
                    } else {
                        status.is_pass("Supported kubernetes version is installed"@)
                    },
                    Err(e) => !readable_version(installed) && e
                        == CheckError::KubectlVersionJsonError(version),
                }
            },
        },
{
    let version = match server_version {
        Some(version) => version,
        None => {
            return Ok(
                CheckStatus::fail(
                    CheckFailed::Unrecoverable(UnrecoverableCheck::CannotConnectToKubernetes),
                ),
            );
        },
    };
    let text = version.as_str();
    let n = text.unicode_len();
    let installed = if n >= 1 {
        text.substring_char(1, n)
    } else {
        text
    };
    if !is_readable_version(installed) {
        return Err(CheckError::KubectlVersionJsonError(version));
    }
    proof {
        reveal_strlit("1.7.0");
        reveal_with_fuel(hyphens_within, 6);
    }
    let below = version_is_below(installed, KUBE_VERSION);
    let status = kube_version_status(below, installed);
    Ok(status)
}

/// Whether what `kubectl auth can-i` printed says yes.
pub fn check_create_permission(output: &str) -> (r: bool)
    ensures
        r == (trimmed(output@) == "yes"@),
{
    str_eq(trim(output), "yes")
}

/// The verdict on the permission to create `resource`.
pub fn check_permission(resource: &str, allowed: bool) -> (r: CheckStatus)
    ensures
        !allowed ==> r.is_denied(resource@),
        allowed ==> r.is_pass("Can create "@ + resource@),
{
    if !allowed {
        return CheckStatus::fail(
            CheckFailed::Unrecoverable(
                UnrecoverableCheck::PermissionError { resource: resource.to_owned() },
            ),
        );
    }
    let mut msg = String::from_str("Can create ");
    msg.append(resource);
    CheckStatus::pass(msg)
}

/// What looking a service up came to.
#[derive(Debug)]
pub enum ServiceLookup {
    /// The service is there and has this address.
    Address(String),
    /// The service is there and has no address yet.
    NoAddress,
    /// The service is not there.
    NotFound,
    /// The lookup failed; with what was said.
    Failed(String),
}

/// What to do after a lookup.
#[derive(Debug)]
pub enum WaitStep {
    /// The wait is over: the address, or none after the last lookup.
    Done(Option<String>),
    /// Sleep for so many milliseconds; then look up again, or give the
    /// wait up with no address if that was the last lookup.
    Sleep {
        /// How long to sleep, in milliseconds.
        delay: u64,
        /// Whether to look up again after the sleep.
        again: bool,
    },
    /// The wait failed.
    Failed(CheckError),
}

/// Decides how the wait for a service goes on after the lookup number
/// `attempt`, counted from zero: an address ends it, a failure fails it,
/// and a service that is not there or has no address is looked up again
/// after `DELAY`, `LOOKUPS` times in all.
pub fn wait_for_service_exist(attempt: u16, lookup: ServiceLookup) -> (r: WaitStep)
    ensures
        match lookup {
            ServiceLookup::Address(address) => r == WaitStep::Done(Some(address)),
            ServiceLookup::Failed(said) => r == WaitStep::Failed(CheckError::K8ClientError(said)),
            _ => r == (WaitStep::Sleep { delay: DELAY, again: attempt + 1 < LOOKUPS }),
        },
{
    match lookup {
        ServiceLookup::Address(address) => WaitStep::Done(Some(address)),
        ServiceLookup::Failed(said) => WaitStep::Failed(CheckError::K8ClientError(said)),
        _ => WaitStep::Sleep { delay: DELAY, again: attempt < LOOKUPS - 1 },
    }
}

/// How the check of the load balancer goes on from the configuration.
#[derive(Debug)]
pub enum LoadBalancerStep {
    /// The check is over, with this verdict.
    Verdict(CheckStatus),
    /// A service is to be created, waited for and deleted again; the
    /// verdict follows from the address it got and from this user name.
    Probe(String),
}

/// Decides how the check of the load balancer begins: the configuration of
/// a pod passes it unprobed, a kubeconfig without a current context fails
/// it, and a current context is probed under its user name.
pub fn load_balancer_step(setup: KubeSetup) -> (r: LoadBalancerStep)
    ensures
        match setup {
            KubeSetup::Pod => r matches LoadBalancerStep::Verdict(status) && status.is_pass(
                "Pod config found, ignoring the check"@,
            ),
            KubeSetup::KubeConfig { user: None, .. } => r == LoadBalancerStep::Verdict(
                CheckStatus::Fail(
                    CheckFailed::Unrecoverable(UnrecoverableCheck::NoActiveKubernetesContext),
                ),
            ),
            KubeSetup::KubeConfig { user: Some(name), .. } => r == LoadBalancerStep::Probe(name),
        },
{
    match setup {
        KubeSetup::Pod => LoadBalancerStep::Verdict(
            CheckStatus::pass("Pod config found, ignoring the check".to_owned()),
        ),
        KubeSetup::KubeConfig { user: None, .. } => LoadBalancerStep::Verdict(
            CheckStatus::fail(
                CheckFailed::Unrecoverable(UnrecoverableCheck::NoActiveKubernetesContext),
            ),
        ),
        KubeSetup::KubeConfig { user: Some(name), .. } => LoadBalancerStep::Probe(name),
    }
}

/// The verdict on the load balancer, once the wait for the service is
/// over: with an address it is up; without one the failure depends on
/// whether the context is minikube's, and then on the system.
pub fn check_load_balancer_status(address: Option<String>, username: &str, macos: bool) -> (r:
    CheckStatus)
    ensures
        address is Some ==> r.is_pass("Load balancer is up"@),
        address is None && username@ == MINIKUBE_USERNAME@ ==> r == CheckStatus::Fail(
            if macos {
                CheckFailed::Unrecoverable(UnrecoverableCheck::MinikubeTunnelNotFound)
            } else {
                CheckFailed::AutoRecoverable(RecoverableCheck::MinikubeTunnelNotFoundRetry)
            },
        ),
        address is None && username@ != MINIKUBE_USERNAME@ ==> r == CheckStatus::Fail(
            CheckFailed::Unrecoverable(UnrecoverableCheck::LoadBalancerServiceNotAvailable),
        ),
{
    if address.is_none() {
        if str_eq(username, MINIKUBE_USERNAME) {
            return CheckStatus::fail(get_tunnel_error(macos));
        }
        return CheckStatus::fail(
            CheckFailed::Unrecoverable(UnrecoverableCheck::LoadBalancerServiceNotAvailable),
        );
    }
    CheckStatus::pass("Load balancer is up".to_owned())
}

} // verus!

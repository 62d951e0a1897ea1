//! What a connection is made of, decided before any channel is opened:
//! where to connect, with how many endpoints, under which credential
//! scope, and how tables are addressed.
use vstd::prelude::*;
use vstd::string::*;
use core::time::Duration;

verus! {

/// Address of the production service.
pub const SERVICE_URI: &'static str = "https://bigtable.googleapis.com";

/// Name that the production service's certificate is issued to.
pub const SERVICE_DOMAIN: &'static str = "bigtable.googleapis.com";

/// What a credential is asked to allow.
#[derive(Clone, Copy, Debug, PartialEq, Eq)]
pub enum Scope {
    /// Reading and writing table data.
    BigTableData,
    /// Reading table data only.
    BigTableDataReadOnly,
}

/// How one endpoint of a connection is to be set up.
#[derive(Debug)]
pub struct EndpointPlan {
    /// Address to connect to.
    pub uri: String,
    /// Name the server's certificate must be issued to; `None` for a
    /// connection in clear text.
    pub tls_domain: Option<String>,
    /// Whether keep-alive probes go on while no call is in flight.
    pub keep_alive_while_idle: bool,
    /// Bound on each call through this endpoint, if any.
    pub timeout: Option<Duration>,
}

/// The decisions behind a connection.
#[derive(Debug)]
pub struct ConnectionPlan {
    /// The equivalent endpoints the channel balances over.
    pub endpoints: Vec<EndpointPlan>,
    /// The scope to obtain a credential for; `None` where none is needed.
    pub scope: Option<Scope>,
    /// What a table's name is appended to in a request.
    pub table_prefix: String,
}

/// The number of endpoints for a requested channel size: at least one.
pub open spec fn endpoint_count_of(channel_size: usize) -> usize {
    if channel_size == 0 {
        1
    } else {
        channel_size
    }
}

/// The scope that a credential is asked for.
pub open spec fn access_scope_of(read_only: bool) -> Scope {
    if read_only {
        Scope::BigTableDataReadOnly
    } else {
        Scope::BigTableData
    }
}

/// What every endpoint of a connection looks like: an emulator is
/// reached in clear text at its own address, the production service
/// over TLS at its well-known one; either way the connection is kept
/// alive while idle and calls are bounded as asked.
pub open spec fn endpoint_as_planned(
    endpoint: EndpointPlan,
    emulator_host: Option<Seq<char>>,
    timeout: Option<Duration>,
) -> bool {
    &&& endpoint.keep_alive_while_idle
    &&& endpoint.timeout == timeout
    &&& match emulator_host {
        Some(host) => endpoint.uri@ == emulator_uri_of(host) && endpoint.tls_domain is None,
        None => endpoint.uri@ == SERVICE_URI@ && (endpoint.tls_domain matches Some(domain)
            && domain@ == SERVICE_DOMAIN@),
    }
}

/// The prefix under which the tables of an instance are addressed. An
/// emulator knows one project only, named `emulator`.
pub open spec fn table_prefix_of(
    project_id: Seq<char>,
    instance_name: Seq<char>,
    emulator: bool,
) -> Seq<char> {
    "projects/"@ + (if emulator {
        "emulator"@
    } else {
        project_id
    }) + "/instances/"@ + instance_name + "/tables/"@
}

/// The address of an emulator that listens at `host`.
pub open spec fn emulator_uri_of(host: Seq<char>) -> Seq<char> {
    "http://"@ + host
}

/// The scope to ask a credential for.
pub fn access_scope(read_only: bool) -> (scope: Scope)
    ensures
        scope == access_scope_of(read_only),
{
    if read_only {
        Scope::BigTableDataReadOnly
    } else {
        Scope::BigTableData
    }
}

/// The number of endpoints for a requested channel size: at least one.
pub fn endpoint_count(channel_size: usize) -> (count: usize)
    ensures
        count == endpoint_count_of(channel_size),
{
    if channel_size == 0 {
        1
    } else {
        channel_size
    }
}

/// Builds the prefix under which the tables of an instance are addressed.
pub fn table_prefix(project_id: &str, instance_name: &str, emulator: bool) -> (prefix: String)
    ensures
        prefix@ == table_prefix_of(project_id@, instance_name@, emulator),
{
    let mut prefix = String::from_str("projects/");
    if emulator {
        prefix.append("emulator");
    } else {
        prefix.append(project_id);
    }
    prefix.append("/instances/");
    prefix.append(instance_name);
    prefix.append("/tables/");
    prefix
}

/// Builds the address of an emulator that listens at `host`.
pub fn emulator_uri(host: &str) -> (uri: String)
    ensures
        uri@ == emulator_uri_of(host@),
{
    let mut uri = String::from_str("http://");
    uri.append(host);
    uri
}

/// The characters of an optional text.
pub open spec fn text_of(text: Option<String>) -> Option<Seq<char>> {
    match text {
        Some(t) => Some(t@),
        None => None,
    }
}

/// Plans one endpoint: of the emulator at `emulator_host` if one is
/// given, of the production service otherwise.
pub fn plan_endpoint(emulator_host: Option<&str>, timeout: Option<Duration>) -> (endpoint:
    EndpointPlan)
    ensures
        endpoint_as_planned(
            endpoint,
            match emulator_host {
                Some(host) => Some(host@),
                None => None,
            },
            timeout,
        ),
{
    match emulator_host {
        Some(host) => EndpointPlan {
            uri: emulator_uri(host),
            tls_domain: None,
            keep_alive_while_idle: true,
            timeout,
        },
        None => EndpointPlan {
            uri: String::from_str(SERVICE_URI),
            tls_domain: Some(String::from_str(SERVICE_DOMAIN)),
            keep_alive_while_idle: true,
            timeout,
        },
    }
}

/// Decides what a connection is made of. With an emulator host given,
/// every endpoint points there, the project is `emulator` and no
/// credential is needed; without one every endpoint points to the
/// production service, under the scope that `read_only` asks for. There
/// are as many endpoints as `channel_size` says, and at least one.
pub fn plan_connection(
    emulator_host: Option<String>,
    project_id: &str,
    instance_name: &str,
    read_only: bool,
    channel_size: usize,
    timeout: Option<Duration>,
) -> (plan: ConnectionPlan)
    ensures
        plan.endpoints@.len() == endpoint_count_of(channel_size),
        forall|i: int|
            0 <= i < plan.endpoints@.len() ==> endpoint_as_planned(
                #[trigger] plan.endpoints@[i],
                text_of(emulator_host),
                timeout,
            ),
        plan.scope == match emulator_host {
            Some(_) => None,
            None => Some(access_scope_of(read_only)),
        },
        plan.table_prefix@ == table_prefix_of(
            project_id@,
            instance_name@,
            emulator_host is Some,
        ),
{
    let count = endpoint_count(channel_size);
    let ghost host_view = text_of(emulator_host);
    let mut endpoints: Vec<EndpointPlan> = Vec::new();
    while endpoints.len() < count
        invariant
            endpoints@.len() <= count,
            host_view == text_of(emulator_host),
            forall|i: int|
                0 <= i < endpoints@.len() ==> endpoint_as_planned(
                    #[trigger] endpoints@[i],
                    host_view,
                    timeout,
                ),
        decreases count - endpoints.len(),
    {
        let endpoint = match &emulator_host {
            Some(host) => plan_endpoint(Some(host.as_str()), timeout),
            None => plan_endpoint(None, timeout),
        };
        endpoints.push(endpoint);
    }
    match emulator_host {
        Some(_) => ConnectionPlan {
            endpoints,
            scope: None,
            table_prefix: table_prefix(project_id, instance_name, true),
        },
        None => ConnectionPlan {
            endpoints,
            scope: Some(access_scope(read_only)),
            table_prefix: table_prefix(project_id, instance_name, false),
        },
    }
}

} // verus!

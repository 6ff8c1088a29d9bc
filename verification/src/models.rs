use vstd::prelude::*;

verus! {

/// One DNS record as the provider reports it.
#[derive(Clone, Debug)]
pub struct ApiDnsRecord {
    /// Provider-assigned identifier of the record.
    pub id: String,
    /// Fully qualified record name.
    pub name: String,
    /// Current content; for an A record, dotted-quad address text.
    pub content: String,
    /// Record type, such as "A".
    pub record_type: String,
    /// Whether traffic is routed through the provider's edge network.
    pub proxied: bool,
    /// Advertised caching duration in seconds.
    pub ttl: u32,
}

/// The body of a record update sent to the provider.
#[derive(Clone, Debug)]
pub struct DnsRecordUpdate {
    pub id: String,
    pub name: String,
    pub content: String,
    pub ttl: u32,
    pub proxied: bool,
    pub record_type: String,
}

/// The provider's response envelope. A transport-level success does not
/// imply `success`: the provider may answer the HTTP request and still
/// report business-level failure here.
#[derive(Clone, Debug)]
pub struct ApiResponse<T> {
    pub result: T,
    pub success: bool,
    /// Provider error descriptions, as plain text.
    pub errors: Vec<String>,
}

/// The whole configuration loaded once at startup.
#[derive(Clone, Debug)]
pub struct Config {
    pub api_token: String,
    /// Minutes between the end of one cycle and the start of the next.
    pub update_interval: u64,
    /// The TTL written on every update, in seconds.
    pub record_ttl: u32,
    pub zones: Vec<Zone>,
}

/// One provider-side namespace of records.
#[derive(Clone, Debug)]
pub struct Zone {
    pub id: String,
    pub domains: Vec<Domain>,
}

/// One managed hostname with its target record names.
#[derive(Clone, Debug)]
pub struct Domain {
    /// Fully qualified name the provider-side records are looked up by.
    pub name: String,
    /// Target record names written on update.
    pub records: Vec<String>,
}

} // verus!

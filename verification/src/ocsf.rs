//! The normalised event: OCSF 1.3, class 4001, network activity.
//!
//! Each type has a view in which strings are sequences of characters. The
//! contracts of the extractors speak of these views.
use vstd::prelude::*;
use crate::fields::FieldMap;

pub mod activity_id;
pub mod disposition;

verus! {

/// The characters of an optional string.
pub open spec fn opt_view(s: Option<String>) -> Option<Seq<char>> {
    match s {
        Some(s) => Some(s@),
        None => None,
    }
}

/// One end of a connection.
#[derive(Debug)]
pub struct Endpoint {
    pub ip: Option<String>,
    pub port: Option<u16>,
    pub interface: Option<String>,
    pub hostname: Option<String>,
}

/// The view of an `Endpoint`.
pub struct EndpointView {
    pub ip: Option<Seq<char>>,
    pub port: Option<u16>,
    pub interface: Option<Seq<char>>,
    pub hostname: Option<Seq<char>>,
}

/// The endpoint of which nothing is known.
pub open spec fn unknown_endpoint() -> EndpointView {
    EndpointView { ip: None, port: None, interface: None, hostname: None }
}

impl View for Endpoint {
    type V = EndpointView;

    open spec fn view(&self) -> EndpointView {
        EndpointView {
            ip: opt_view(self.ip),
            port: self.port,
            interface: opt_view(self.interface),
            hostname: opt_view(self.hostname),
        }
    }
}

impl Endpoint {
    pub fn new(
        ip: Option<String>,
        port: Option<u16>,
        interface: Option<String>,
        hostname: Option<String>,
    ) -> (r: Self)
        ensures
            r == (Endpoint { ip, port, interface, hostname }),
    {
        Endpoint { ip, port, interface, hostname }
    }
}

impl Default for Endpoint {
    fn default() -> (r: Self)
        ensures
            r@ == unknown_endpoint(),
    {
        Endpoint::new(None, None, None, None)
    }
}

/// The protocol and the direction of a connection.
#[derive(Debug)]
pub struct ConnectionInfo {
    pub protocol_num: Option<u8>,
    pub protocol_name: Option<String>,
    pub direction: Option<String>,
}

/// The view of a `ConnectionInfo`.
pub struct ConnectionView {
    pub protocol_num: Option<u8>,
    pub protocol_name: Option<Seq<char>>,
    pub direction: Option<Seq<char>>,
}

/// The connection of which nothing is known.
pub open spec fn unknown_connection() -> ConnectionView {
    ConnectionView { protocol_num: None, protocol_name: None, direction: None }
}

impl View for ConnectionInfo {
    type V = ConnectionView;

    open spec fn view(&self) -> ConnectionView {
        ConnectionView {
            protocol_num: self.protocol_num,
            protocol_name: opt_view(self.protocol_name),
            direction: opt_view(self.direction),
        }
    }
}

impl ConnectionInfo {
    pub fn new(
        protocol_num: Option<u8>,
        protocol_name: Option<String>,
        direction: Option<String>,
    ) -> (r: Self)
        ensures
            r == (ConnectionInfo { protocol_num, protocol_name, direction }),
    {
        ConnectionInfo { protocol_num, protocol_name, direction }
    }
}

impl Default for ConnectionInfo {
    fn default() -> (r: Self)
        ensures
            r@ == unknown_connection(),
    {
        ConnectionInfo::new(None, None, None)
    }
}

/// The amount of traffic that a connection carried.
#[derive(Debug, Clone, Copy)]
pub struct Traffic {
    pub bytes_in: Option<u64>,
    pub bytes_out: Option<u64>,
    pub packets_in: Option<u64>,
    pub packets_out: Option<u64>,
}

impl Traffic {
    pub fn new(
        bytes_in: Option<u64>,
        bytes_out: Option<u64>,
        packets_in: Option<u64>,
        packets_out: Option<u64>,
    ) -> (r: Self)
        ensures
            r == (Traffic { bytes_in, bytes_out, packets_in, packets_out }),
    {
        Traffic { bytes_in, bytes_out, packets_in, packets_out }
    }
}

/// The product that wrote the log line.
#[derive(Debug)]
pub struct Product {
    pub vendor_name: String,
    pub name: String,
    pub version: Option<String>,
}

/// The view of a `Product`.
pub struct ProductView {
    pub vendor_name: Seq<char>,
    pub name: Seq<char>,
    pub version: Option<Seq<char>>,
}

impl View for Product {
    type V = ProductView;

    open spec fn view(&self) -> ProductView {
        ProductView {
            vendor_name: self.vendor_name@,
            name: self.name@,
            version: opt_view(self.version),
        }
    }
}

impl Product {
    pub fn new(vendor_name: &str, name: &str, version: Option<String>) -> (r: Self)
        ensures
            r@ == (ProductView {
                vendor_name: vendor_name@,
                name: name@,
                version: opt_view(version),
            }),
    {
        Product { vendor_name: vendor_name.to_owned(), name: name.to_owned(), version }
    }
}

/// Where an event comes from, with the log line itself.
#[derive(Debug)]
pub struct Metadata {
    pub product: Product,
    pub raw_data: String,
    pub log_name: String,
    pub log_provider: String,
    pub logged_time: i64,
}

/// The view of a `Metadata`.
pub struct MetadataView {
    pub product: ProductView,
    pub raw_data: Seq<char>,
    pub log_name: Seq<char>,
    pub log_provider: Seq<char>,
    pub logged_time: i64,
}

impl View for Metadata {
    type V = MetadataView;

    open spec fn view(&self) -> MetadataView {
        MetadataView {
            product: self.product@,
            raw_data: self.raw_data@,
            log_name: self.log_name@,
            log_provider: self.log_provider@,
            logged_time: self.logged_time,
        }
    }
}

impl Metadata {
    pub fn new(
        product: Product,
        raw_data: &str,
        log_name: &str,
        log_provider: &str,
        logged_time: i64,
    ) -> (r: Self)
        ensures
            r@ == (MetadataView {
                product: product@,
                raw_data: raw_data@,
                log_name: log_name@,
                log_provider: log_provider@,
                logged_time,
            }),
    {
        Metadata {
            product,
            raw_data: raw_data.to_owned(),
            log_name: log_name.to_owned(),
            log_provider: log_provider.to_owned(),
            logged_time,
        }
    }
}

/// The name of an activity number.
pub open spec fn activity_name_of(id: u32) -> Seq<char> {
    if id == activity_id::OPEN {
        "Open"@
    } else if id == activity_id::CLOSE {
        "Close"@
    } else if id == activity_id::OTHER {
        "Other"@
    } else {
        "Unknown"@
    }
}

/// A normalised network event.
#[derive(Debug)]
pub struct NetworkActivity {
    pub activity_id: u32,
    pub activity_name: String,
    pub time: i64,
    pub disposition: String,
    pub src_endpoint: Endpoint,
    pub dst_endpoint: Endpoint,
    pub connection_info: ConnectionInfo,
    pub traffic: Option<Traffic>,
    pub metadata: Metadata,
    pub unmapped: Option<FieldMap>,
}

/// The view of a `NetworkActivity`.
pub struct ActivityView {
    pub activity_id: u32,
    pub activity_name: Seq<char>,
    pub time: i64,
    pub disposition: Seq<char>,
    pub src_endpoint: EndpointView,
    pub dst_endpoint: EndpointView,
    pub connection_info: ConnectionView,
    pub traffic: Option<Traffic>,
    pub metadata: MetadataView,
    pub unmapped: Option<Map<Seq<char>, Seq<char>>>,
}

impl View for NetworkActivity {
    type V = ActivityView;

    open spec fn view(&self) -> ActivityView {
        ActivityView {
            activity_id: self.activity_id,
            activity_name: self.activity_name@,
            time: self.time,
            disposition: self.disposition@,
            src_endpoint: self.src_endpoint@,
            dst_endpoint: self.dst_endpoint@,
            connection_info: self.connection_info@,
            traffic: self.traffic,
            metadata: self.metadata@,
            unmapped: match self.unmapped {
                Some(m) => Some(m@),
                None => None,
            },
        }
    }
}

impl NetworkActivity {
    pub fn new(
        activity_id: u32,
        time: i64,
        disposition: &str,
        src_endpoint: Endpoint,
        dst_endpoint: Endpoint,
        connection_info: ConnectionInfo,
        traffic: Option<Traffic>,
        metadata: Metadata,
    ) -> (r: Self)
        ensures
            r@ == (ActivityView {
                activity_id,
                activity_name: activity_name_of(activity_id),
                time,
                disposition: disposition@,
                src_endpoint: src_endpoint@,
                dst_endpoint: dst_endpoint@,
                connection_info: connection_info@,
                traffic,
                metadata: metadata@,
                unmapped: None,
            }),
    {
        let name = if activity_id == activity_id::OPEN {
            "Open"
        } else if activity_id == activity_id::CLOSE {
            "Close"
        } else if activity_id == activity_id::OTHER {
            "Other"
        } else {
            "Unknown"
        };
        NetworkActivity {
            activity_id,
            activity_name: name.to_owned(),
            time,
            disposition: disposition.to_owned(),
            src_endpoint,
            dst_endpoint,
            connection_info,
            traffic,
            metadata,
            unmapped: None,
        }
    }

    /// The event with the fields that no other place takes.
    pub fn with_unmapped(self, unmapped: FieldMap) -> (r: Self)
        ensures
            r@ == (ActivityView { unmapped: Some(unmapped@), ..self@ }),
    {
        NetworkActivity {
            activity_id: self.activity_id,
            activity_name: self.activity_name,
            time: self.time,
            disposition: self.disposition,
            src_endpoint: self.src_endpoint,
            dst_endpoint: self.dst_endpoint,
            connection_info: self.connection_info,
            traffic: self.traffic,
            metadata: self.metadata,
            unmapped: Some(unmapped),
        }
    }
}

}

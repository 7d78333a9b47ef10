use vstd::prelude::*;

verus! {

/// The peer address of a connection, as the serving layer recorded it.
#[derive(Debug, Clone)]
pub struct IpConnectInfo {
    pub ip: String,
    pub port: u16,
}

/// The client address a request is attributed to.
#[derive(Debug, Clone)]
pub struct RealIP(pub String);

/// Decides the client address: the `x-real-ip` header value when the
/// request carries a readable one, else the connection's peer address.
pub fn real_ip_from(header: Option<String>, connect: &IpConnectInfo) -> (r: RealIP)
    ensures
        header matches Some(h) ==> r.0 == h,
        header is None ==> r.0@ == connect.ip@,
{
    match header {
        Some(h) => RealIP(h),
        None => RealIP(connect.ip.clone()),
    }
}

} // verus!

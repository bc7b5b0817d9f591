//! Addresses of the camera's services.

use vstd::prelude::*;
use vstd::string::StringExecFns;
use crate::text::{ends_with, has_suffix, strip_suffixes, without_suffixes};

verus! {

/// An address in which the suffix `from`, however often it is repeated, gives way
/// to one `to`.
pub open spec fn with_suffix_swapped(url: Seq<char>, from: Seq<char>, to: Seq<char>) -> Seq<char> {
    if has_suffix(url, from) {
        without_suffixes(url, from) + to
    } else {
        url
    }
}

/// Swaps the suffix of an address.
fn swap_suffix(url: &str, from: &str, to: &str) -> (out: String)
    requires
        from@.len() > 0,
    ensures
        out@ == with_suffix_swapped(url@, from@, to@),
{
    if ends_with(url, from) {
        let mut out = strip_suffixes(url, from);
        out.append(to);
        out
    } else {
        url.to_owned()
    }
}

/// Address of the device service that belongs to an address.
pub open spec fn device_url(url: Seq<char>) -> Seq<char> {
    with_suffix_swapped(url, "/onvif/service"@, "/onvif/device_service"@)
}

/// Address of the media service that belongs to an address.
pub open spec fn service_url(url: Seq<char>) -> Seq<char> {
    with_suffix_swapped(url, "/onvif/device_service"@, "/onvif/service"@)
}

/// Turns the address of the media service into that of the device service; any
/// other address stays.
pub fn rewrite_onvif_service_to_device(url: &str) -> (out: String)
    ensures
        out@ == device_url(url@),
{
    proof {
        reveal_strlit("/onvif/service");
    }
    swap_suffix(url, "/onvif/service", "/onvif/device_service")
}

/// Turns the address of the device service into that of the media service; any
/// other address stays.
pub fn rewrite_onvif_device_to_service(url: &str) -> (out: String)
    ensures
        out@ == service_url(url@),
{
    proof {
        reveal_strlit("/onvif/device_service");
    }
    swap_suffix(url, "/onvif/device_service", "/onvif/service")
}

proof fn lemma_appended_suffix(base: Seq<char>, suffix: Seq<char>)
    ensures
        has_suffix(base + suffix, suffix),
        suffix.len() > 0 ==> without_suffixes(base + suffix, suffix) == without_suffixes(
            base,
            suffix,
        ),
{
    let url = base + suffix;
    assert(url.subrange(url.len() - suffix.len(), url.len() as int) =~= suffix);
    assert(url.take(url.len() - suffix.len()) =~= base);
}

proof fn lemma_suffixes_differ(base: Seq<char>)
    ensures
        !has_suffix(base + "/onvif/device_service"@, "/onvif/service"@),
        !has_suffix(base + "/onvif/service"@, "/onvif/device_service"@),
{
    reveal_strlit("/onvif/service");
    reveal_strlit("/onvif/device_service");
    let service = "/onvif/service"@;
    let device = "/onvif/device_service"@;
    let a = base + device;
    if has_suffix(a, service) {
        let tail = a.subrange(a.len() - service.len(), a.len() as int);
        assert(tail[0] == a[a.len() - service.len()]);
        assert(a[a.len() - service.len()] == device[device.len() - service.len()]);
    }
    let b = base + service;
    if has_suffix(b, device) {
        let tail = b.subrange(b.len() - device.len(), b.len() as int);
        assert(tail[device.len() - service.len()] == b[b.len() - service.len()]);
        assert(b[b.len() - service.len()] == service[0]);
    }
}

/// From the address of the device service come the address of the media service on
/// the same host and the device service itself, and the other way round.
pub proof fn law_services_of_one_host(host: Seq<char>)
    requires
        !has_suffix(host, "/onvif/service"@),
        !has_suffix(host, "/onvif/device_service"@),
    ensures
        service_url(host + "/onvif/device_service"@) == host + "/onvif/service"@,
        device_url(host + "/onvif/device_service"@) == host + "/onvif/device_service"@,
        service_url(host + "/onvif/service"@) == host + "/onvif/service"@,
        device_url(host + "/onvif/service"@) == host + "/onvif/device_service"@,
{
    lemma_appended_suffix(host, "/onvif/device_service"@);
    lemma_appended_suffix(host, "/onvif/service"@);
    lemma_suffixes_differ(host);
    assert("/onvif/device_service"@.len() > 0) by {
        reveal_strlit("/onvif/device_service");
    }
    assert("/onvif/service"@.len() > 0) by {
        reveal_strlit("/onvif/service");
    }
}

/// An address with neither suffix serves for both.
pub proof fn law_other_addresses_stay(url: Seq<char>)
    requires
        !has_suffix(url, "/onvif/service"@),
        !has_suffix(url, "/onvif/device_service"@),
    ensures
        service_url(url) == url,
        device_url(url) == url,
{
}

} // verus!

//! The address of a proxy in the arguments.
use crate::text::concat;
use vstd::prelude::*;

verus! {

/// What `reqwest::Proxy::all` complains of in the address of a proxy; nothing
/// where it takes the address.
pub uninterp spec fn proxy_complaint(url: Seq<char>) -> Option<Seq<char>>;

/// `reqwest::Proxy::all`: whether the address of a proxy can be used, and if not,
/// the text of the error with its causes. Which addresses those are is left to
/// `proxy_complaint`.
#[verifier::external_body]
pub(crate) fn judge_proxy(url: &str) -> (complaint: Option<String>)
    ensures
        complaint is Some <==> proxy_complaint(url@) is Some,
        complaint matches Some(c) ==> proxy_complaint(url@) == Some(c@),
{
    reqwest::Proxy::all(url).err().map(|e| format!("{:#}", anyhow::Error::from(e)))
}

/// The error about an address with a complaint.
pub open spec fn bad_proxy(complaint: Seq<char>) -> Seq<char> {
    "无效的 --proxy 地址: "@ + complaint
}

/// The error about an address, where there is a complaint.
pub fn refuse_proxy(complaint: Option<String>) -> (r: Result<(), String>)
    ensures
        r is Err <==> complaint is Some,
        r matches Err(m) ==> m@ == bad_proxy(complaint->0@),
{
    match complaint {
        Some(c) => Err(concat("无效的 --proxy 地址: ", &c)),
        None => Ok(()),
    }
}

/// Accepts the address of a proxy that can be used, and no address at all.
pub fn check_proxy(proxy: Option<&str>) -> (r: Result<(), String>)
    ensures
        r is Err <==> proxy is Some && proxy_complaint(proxy->0@) is Some,
        r matches Err(m) ==> m@ == bad_proxy(proxy_complaint(proxy->0@)->0),
{
    match proxy {
        Some(url) => refuse_proxy(judge_proxy(url)),
        None => Ok(()),
    }
}

/// An address that cannot be used is told with the whole complaint.
pub proof fn law_a_bad_proxy_is_told(complaint: Seq<char>)
    ensures
        bad_proxy(complaint) == "无效的 --proxy 地址: "@ + complaint,
{
}

}

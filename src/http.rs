//! The plain HTTP responder's rules: which static assets exist, and the
//! header block of a response.
use crate::user::{decimal, decimal_string};
use vstd::prelude::*;
use vstd::string::*;

verus! {

/// A static asset served with long-lived caching.
#[derive(Debug, Clone, Copy, PartialEq, Eq, Structural)]
pub enum Asset {
    CustomHtmxJs,
    LandingPageCss,
    LandingPageJs,
    SettingsPageCss,
    ServicePageCss,
    AnimationCss,
    FireTruckSvg,
    AmbulanceSvg,
    PoliceSvg,
}

/// The asset a `GET` of `path` names, if any.
pub open spec fn asset_for(path: Seq<char>) -> Option<Asset> {
    if path == "/static/custom_htmx.js"@ {
        Some(Asset::CustomHtmxJs)
    } else if path == "/static/landing_page.css"@ {
        Some(Asset::LandingPageCss)
    } else if path == "/static/landing_page.js"@ {
        Some(Asset::LandingPageJs)
    } else if path == "/static/settings_page.css"@ {
        Some(Asset::SettingsPageCss)
    } else if path == "/static/service_page.css"@ {
        Some(Asset::ServicePageCss)
    } else if path == "/static/animation.css"@ {
        Some(Asset::AnimationCss)
    } else if path == "/static/firetruck.svg"@ {
        Some(Asset::FireTruckSvg)
    } else if path == "/static/ambulance.svg"@ {
        Some(Asset::AmbulanceSvg)
    } else if path == "/static/police.svg"@ {
        Some(Asset::PoliceSvg)
    } else {
        None
    }
}

/// The static asset a request names: only `GET` requests name one.
pub fn static_asset(method: &str, path: &str) -> (r: Option<Asset>)
    ensures
        r == (if method@ == "GET"@ {
            asset_for(path@)
        } else {
            None
        }),
{
    if String::from_str(method) != String::from_str("GET") {
        return None;
    }
    let p = String::from_str(path);
    if p == String::from_str("/static/custom_htmx.js") {
        Some(Asset::CustomHtmxJs)
    } else if p == String::from_str("/static/landing_page.css") {
        Some(Asset::LandingPageCss)
    } else if p == String::from_str("/static/landing_page.js") {
        Some(Asset::LandingPageJs)
    } else if p == String::from_str("/static/settings_page.css") {
        Some(Asset::SettingsPageCss)
    } else if p == String::from_str("/static/service_page.css") {
        Some(Asset::ServicePageCss)
    } else if p == String::from_str("/static/animation.css") {
        Some(Asset::AnimationCss)
    } else if p == String::from_str("/static/firetruck.svg") {
        Some(Asset::FireTruckSvg)
    } else if p == String::from_str("/static/ambulance.svg") {
        Some(Asset::AmbulanceSvg)
    } else if p == String::from_str("/static/police.svg") {
        Some(Asset::PoliceSvg)
    } else {
        None
    }
}

/// The file an asset is read from, in the static directory.
pub open spec fn asset_file(a: Asset) -> Seq<char> {
    match a {
        Asset::CustomHtmxJs => "custom_htmx.js"@,
        Asset::LandingPageCss => "landing_page.css"@,
        Asset::LandingPageJs => "landing_page.js"@,
        Asset::SettingsPageCss => "settings_page.css"@,
        Asset::ServicePageCss => "service_page.css"@,
        Asset::AnimationCss => "animation.css"@,
        Asset::FireTruckSvg => "firetruck.svg"@,
        Asset::AmbulanceSvg => "ambulance.svg"@,
        Asset::PoliceSvg => "police.svg"@,
    }
}

/// The media type an asset is served with.
pub open spec fn asset_type(a: Asset) -> Seq<char> {
    match a {
        Asset::CustomHtmxJs | Asset::LandingPageJs => "application/javascript; charset=utf-8"@,
        Asset::LandingPageCss | Asset::SettingsPageCss | Asset::ServicePageCss
        | Asset::AnimationCss => "text/css"@,
        Asset::FireTruckSvg | Asset::AmbulanceSvg | Asset::PoliceSvg => "image/svg+xml"@,
    }
}

impl Asset {
    /// The asset's file name in the static directory.
    pub fn file_name(&self) -> (r: &'static str)
        ensures
            r@ == asset_file(*self),
    {
        match self {
            Asset::CustomHtmxJs => "custom_htmx.js",
            Asset::LandingPageCss => "landing_page.css",
            Asset::LandingPageJs => "landing_page.js",
            Asset::SettingsPageCss => "settings_page.css",
            Asset::ServicePageCss => "service_page.css",
            Asset::AnimationCss => "animation.css",
            Asset::FireTruckSvg => "firetruck.svg",
            Asset::AmbulanceSvg => "ambulance.svg",
            Asset::PoliceSvg => "police.svg",
        }
    }

    /// The asset's media type.
    pub fn content_type(&self) -> (r: &'static str)
        ensures
            r@ == asset_type(*self),
    {
        match self {
            Asset::CustomHtmxJs | Asset::LandingPageJs => "application/javascript; charset=utf-8",
            Asset::LandingPageCss | Asset::SettingsPageCss | Asset::ServicePageCss
            | Asset::AnimationCss => "text/css",
            Asset::FireTruckSvg | Asset::AmbulanceSvg | Asset::PoliceSvg => "image/svg+xml",
        }
    }
}

/// The header block of a response with a body.
pub open spec fn response_head_spec(
    status_line: Seq<char>,
    content_type: Seq<char>,
    cache: bool,
    len: nat,
) -> Seq<char> {
    status_line + "\r\nContent-Type: "@ + content_type + "\r\n"@ + (if cache {
        "Cache-Control: public, max-age=86400\r\n"@
    } else {
        Seq::empty()
    }) + "Content-Length: "@ + decimal(len) + "\r\n\r\n"@
}

/// Writes the header block of a response whose body has `len` bytes.
pub fn response_head(status_line: &str, content_type: &str, cache: bool, len: u64) -> (r: String)
    ensures
        r@ == response_head_spec(status_line@, content_type@, cache, len as nat),
{
    let mut out = String::from_str(status_line);
    out.append("\r\nContent-Type: ");
    out.append(content_type);
    out.append("\r\n");
    let ghost before_cache = out@;
    if cache {
        out.append("Cache-Control: public, max-age=86400\r\n");
    } else {
        assert(out@ =~= before_cache + Seq::<char>::empty());
    }
    out.append("Content-Length: ");
    out.append(decimal_string(len).as_str());
    out.append("\r\n\r\n");
    out
}

/// The header block of a redirect to `location`.
pub fn redirect_head(location: &str) -> (r: String)
    ensures
        r@ == "HTTP/1.1 302 FOUND\r\nLocation: "@ + location@ + "\r\nContent-Length: 0\r\n\r\n"@,
{
    let mut out = String::from_str("HTTP/1.1 302 FOUND\r\nLocation: ");
    out.append(location);
    out.append("\r\nContent-Length: 0\r\n\r\n");
    out
}

} // verus!

//! Where an address is: what a name resolved to, with what the city and
//! network databases hold for it, made into one record with a text in
//! every field.

use vstd::prelude::*;
use crate::message::opt_text;
use crate::text::decimal;
use crate::text::decimal_text;
use crate::text::followed_by;
use crate::text::same_text;

verus! {

#[derive(Debug, Clone, PartialEq, Eq)]
pub struct GeoIpResponse {
    pub ip: GeoIpDataResponse,
    pub city: GeoIpCityResponse,
    pub asn: GeoIpAsnResponse,
}

#[derive(Debug, Clone, PartialEq, Eq)]
pub struct GeoIpDataResponse {
    pub ip: String,
    pub ptr: String,
}

#[derive(Debug, Clone, PartialEq, Eq)]
pub struct GeoIpCityResponse {
    pub name: String,
    pub state: String,
    pub country: String,
    pub country_iso_code: String,
}

#[derive(Debug, Clone, PartialEq, Eq)]
pub struct GeoIpAsnResponse {
    pub number: String,
    pub name: String,
}

/// The country of a city record.
#[derive(Debug, Clone, PartialEq, Eq)]
pub struct CountryRecord {
    pub name: String,
    pub iso_code: String,
}

/// What the city database holds for an address: English names, each
/// optional.
#[derive(Debug, Clone, PartialEq, Eq)]
pub struct CityRecord {
    pub city: Option<String>,
    pub state: Option<String>,
    pub country: Option<CountryRecord>,
}

/// What the network database holds for an address.
#[derive(Debug, Clone, PartialEq, Eq)]
pub struct AsnRecord {
    pub number: u32,
    pub organization: String,
}

/// One resolved name: its first address, the name that the address
/// resolves back to, and the records found for the address.
#[derive(Debug, Clone, PartialEq, Eq)]
pub struct HostRecord {
    pub ip: String,
    pub ptr: String,
    pub city: Option<CityRecord>,
    pub asn: Option<AsnRecord>,
}

/// How resolving one name ended.
#[derive(Debug, Clone, PartialEq, Eq)]
pub enum HostLookup {
    Resolved(HostRecord),
    /// The resolver's error, as text.
    Failed(String),
}

pub ghost struct GeoIpView {
    pub ip: Seq<char>,
    pub ptr: Seq<char>,
    pub city: Seq<char>,
    pub state: Seq<char>,
    pub country: Seq<char>,
    pub country_iso_code: Seq<char>,
    pub asn_number: Seq<char>,
    pub asn_name: Seq<char>,
}

pub ghost struct HostView {
    pub ip: Seq<char>,
    pub ptr: Seq<char>,
    /// The city record: city, state, and the country's name and code.
    pub city: Option<(Option<Seq<char>>, Option<Seq<char>>, Option<(Seq<char>, Seq<char>)>)>,
    /// The network record: number and organization.
    pub asn: Option<(nat, Seq<char>)>,
}

pub ghost enum LookupView {
    Resolved(HostView),
    Failed(Seq<char>),
}

impl View for GeoIpResponse {
    type V = GeoIpView;

    open spec fn view(&self) -> GeoIpView {
        GeoIpView {
            ip: self.ip.ip@,
            ptr: self.ip.ptr@,
            city: self.city.name@,
            state: self.city.state@,
            country: self.city.country@,
            country_iso_code: self.city.country_iso_code@,
            asn_number: self.asn.number@,
            asn_name: self.asn.name@,
        }
    }
}

impl View for HostRecord {
    type V = HostView;

    open spec fn view(&self) -> HostView {
        HostView {
            ip: self.ip@,
            ptr: self.ptr@,
            city: match self.city {
                Some(c) => Some(
                    (
                        opt_text(c.city),
                        opt_text(c.state),
                        match c.country {
                            Some(k) => Some((k.name@, k.iso_code@)),
                            None => None,
                        },
                    ),
                ),
                None => None,
            },
            asn: match self.asn {
                Some(a) => Some((a.number as nat, a.organization@)),
                None => None,
            },
        }
    }
}

impl View for HostLookup {
    type V = LookupView;

    open spec fn view(&self) -> LookupView {
        match self {
            HostLookup::Resolved(h) => LookupView::Resolved(h@),
            HostLookup::Failed(e) => LookupView::Failed(e@),
        }
    }
}

/// The lookups that a vector holds, in order.
pub open spec fn lookup_views(v: Seq<HostLookup>) -> Seq<LookupView> {
    Seq::new(v.len(), |i: int| v[i]@)
}

/// The records that a vector holds, in order.
pub open spec fn geoip_views(v: Seq<GeoIpResponse>) -> Seq<GeoIpView> {
    Seq::new(v.len(), |i: int| v[i]@)
}

/// `value`, or `missing` where there is none.
pub open spec fn or_text(value: Option<Seq<char>>, missing: Seq<char>) -> Seq<char> {
    match value {
        Some(t) => t,
        None => missing,
    }
}

/// The record of one resolved name. A reverse name equal to the address
/// counts as none; every field that the databases lack says so in words.
pub open spec fn located(h: HostView) -> GeoIpView {
    GeoIpView {
        ip: h.ip,
        ptr: if h.ptr == h.ip {
            "No PTR"@
        } else {
            h.ptr
        },
        city: match h.city {
            Some(c) => or_text(c.0, "No City"@),
            None => "No City"@,
        },
        state: match h.city {
            Some(c) => or_text(c.1, "No State"@),
            None => "No State"@,
        },
        country: match h.city {
            Some((_, _, Some(k))) => k.0,
            _ => "No Country"@,
        },
        country_iso_code: match h.city {
            Some((_, _, Some(k))) => k.1,
            _ => "No Country"@,
        },
        asn_number: match h.asn {
            Some(a) => "AS"@ + decimal(a.0),
            None => "No ASN"@,
        },
        asn_name: match h.asn {
            Some(a) => a.1,
            None => "No ASN"@,
        },
    }
}

/// The records of the names up to the first that did not resolve, or that
/// one's error.
pub open spec fn located_all(lookups: Seq<LookupView>) -> Result<Seq<GeoIpView>, Seq<char>>
    decreases lookups.len(),
{
    if lookups.len() == 0 {
        Ok(Seq::empty())
    } else {
        match located_all(lookups.drop_last()) {
            Err(e) => Err(e),
            Ok(done) => match lookups.last() {
                LookupView::Resolved(h) => Ok(done.push(located(h))),
                LookupView::Failed(e) => Err(e),
            },
        }
    }
}

/// What `ip_to_geoip` returns, as texts.
pub open spec fn outcome_view(r: Result<Vec<GeoIpResponse>, String>) -> Result<
    Seq<GeoIpView>,
    Seq<char>,
> {
    match r {
        Ok(v) => Ok(geoip_views(v@)),
        Err(e) => Err(e@),
    }
}

/// `value` as a string of its own, or `missing` where there is none.
fn text_or(value: &Option<String>, missing: &str) -> (r: String)
    ensures
        r@ == or_text(opt_text(*value), missing@),
{
    match value {
        Some(t) => t.clone(),
        None => missing.to_owned(),
    }
}

/// The record of one resolved name.
pub fn locate(host: &HostRecord) -> (r: GeoIpResponse)
    ensures
        r@ == located(host@),
{
    let ptr = if same_text(host.ptr.as_str(), host.ip.as_str()) {
        "No PTR".to_owned()
    } else {
        host.ptr.clone()
    };
    let city = match &host.city {
        Some(c) => GeoIpCityResponse {
            name: text_or(&c.city, "No City"),
            state: text_or(&c.state, "No State"),
            country: match &c.country {
                Some(k) => k.name.clone(),
                None => "No Country".to_owned(),
            },
            country_iso_code: match &c.country {
                Some(k) => k.iso_code.clone(),
                None => "No Country".to_owned(),
            },
        },
        None => GeoIpCityResponse {
            name: "No City".to_owned(),
            state: "No State".to_owned(),
            country: "No Country".to_owned(),
            country_iso_code: "No Country".to_owned(),
        },
    };
    let asn = match &host.asn {
        Some(a) => {
            let digits = decimal_text(a.number);
            GeoIpAsnResponse {
                number: followed_by("AS", digits.as_str()),
                name: a.organization.clone(),
            }
        },
        None => GeoIpAsnResponse { number: "No ASN".to_owned(), name: "No ASN".to_owned() },
    };
    GeoIpResponse { ip: GeoIpDataResponse { ip: host.ip.clone(), ptr }, city, asn }
}

/// The records of the names that were looked up, in their order. The first
/// name that did not resolve ends the work with its error.
pub fn ip_to_geoip(lookups: &Vec<HostLookup>) -> (r: Result<Vec<GeoIpResponse>, String>)
    ensures
        outcome_view(r) == located_all(lookup_views(lookups@)),
{
    let mut array_geoip: Vec<GeoIpResponse> = Vec::new();
    let mut i: usize = 0;
    assert(geoip_views(array_geoip@) =~= Seq::empty());
    while i < lookups.len()
        invariant
            i <= lookups.len(),
            located_all(lookup_views(lookups@).take(i as int)) == Ok::<Seq<GeoIpView>, Seq<char>>(
                geoip_views(array_geoip@),
            ),
        decreases lookups.len() - i,
    {
        let ghost all = lookup_views(lookups@);
        assert(all.take(i + 1).drop_last() == all.take(i as int));
        match &lookups[i] {
            HostLookup::Failed(e) => {
                let r = Err(e.clone());
                proof {
                    lemma_failure_stays(all, i + 1);
                }
                return r;
            },
            HostLookup::Resolved(host) => {
                let ghost before = geoip_views(array_geoip@);
                let response = locate(host);
                array_geoip.push(response);
                assert(geoip_views(array_geoip@) =~= before.push(located(host@)));
            },
        }
        i += 1;
    }
    assert(lookup_views(lookups@).take(lookups.len() as int) == lookup_views(lookups@));
    Ok(array_geoip)
}

/// Once a prefix of the lookups has failed, every longer one fails alike.
pub proof fn lemma_failure_stays(lookups: Seq<LookupView>, n: int)
    requires
        0 <= n <= lookups.len(),
        located_all(lookups.take(n)) is Err,
    ensures
        located_all(lookups) == located_all(lookups.take(n)),
    decreases lookups.len(),
{
    if n == lookups.len() {
        assert(lookups.take(n) == lookups);
    } else {
        assert(lookups.drop_last().take(n) == lookups.take(n));
        lemma_failure_stays(lookups.drop_last(), n);
    }
}

} // verus!

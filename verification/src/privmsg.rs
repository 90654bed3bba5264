//! PRIVMSG responders: each looks at a message and may have something to
//! say about it.

use vstd::prelude::*;
use crate::config::Server;
use crate::geoip_response::GeoIpResponse;
use crate::geoip_response::GeoIpView;
use crate::geoip_response::HostLookup;
use crate::geoip_response::ip_to_geoip;
use crate::geoip_response::located_all;
use crate::geoip_response::lookup_views;
use crate::irc_state::IrcState;
use crate::irc_state::IrcStateView;
use crate::message::Prefix;
use crate::message::PrefixView;
use crate::text::begins_with;
use crate::text::chars_of;
use crate::text::followed_by;
use crate::text::same_text;
use crate::text::starts_with;
use crate::text::texts;
use crate::text::trim_from;
use crate::text::trimmed;

verus! {

/// One message as a responder sees it.
pub struct PrivMsgRequest<'a> {
    pub server: &'a Server,
    pub irc_state: &'a IrcState,
    /// Who wrote.
    pub user: &'a Prefix,
    /// Where the answer goes: the channel, or the nickname of who wrote.
    pub source: &'a String,
    pub message: &'a String,
}

#[derive(Debug, PartialEq, Eq)]
pub struct PrivMsgResponse {
    pub target: String,
    pub message: String,
}

/// A lookup that a responder asks for before it can answer: where `host`
/// is, to be told to `target`.
#[derive(Debug, PartialEq, Eq)]
pub struct GeoIpQuery {
    pub target: String,
    pub host: String,
}

/// What a responder makes of a message that it recognizes.
#[derive(Debug, PartialEq, Eq)]
pub enum PrivMsgReply {
    /// Something to say at once.
    Response(PrivMsgResponse),
    /// Something to find out first. The answer is written by
    /// `GeoIpPrivMsgEvent::finish` once the lookup is made.
    Lookup(GeoIpQuery),
}

pub ghost struct PrivMsgRequestView {
    pub server: Server,
    pub irc_state: IrcStateView,
    pub user: PrefixView,
    pub source: Seq<char>,
    pub message: Seq<char>,
}

pub ghost struct PrivMsgResponseView {
    pub target: Seq<char>,
    pub message: Seq<char>,
}

pub ghost enum PrivMsgReplyView {
    Response(PrivMsgResponseView),
    Lookup { target: Seq<char>, host: Seq<char> },
}

impl<'a> View for PrivMsgRequest<'a> {
    type V = PrivMsgRequestView;

    open spec fn view(&self) -> PrivMsgRequestView {
        PrivMsgRequestView {
            server: *self.server,
            irc_state: self.irc_state@,
            user: self.user@,
            source: self.source@,
            message: self.message@,
        }
    }
}

impl View for PrivMsgResponse {
    type V = PrivMsgResponseView;

    open spec fn view(&self) -> PrivMsgResponseView {
        PrivMsgResponseView { target: self.target@, message: self.message@ }
    }
}

impl View for PrivMsgReply {
    type V = PrivMsgReplyView;

    open spec fn view(&self) -> PrivMsgReplyView {
        match self {
            PrivMsgReply::Response(r) => PrivMsgReplyView::Response(r@),
            PrivMsgReply::Lookup(q) => PrivMsgReplyView::Lookup { target: q.target@, host: q.host@ },
        }
    }
}

/// What an optional reply says.
pub open spec fn reply_view(r: Option<PrivMsgReply>) -> Option<PrivMsgReplyView> {
    match r {
        Some(x) => Some(x@),
        None => None,
    }
}

/// Words to `target`.
pub open spec fn say(target: Seq<char>, message: Seq<char>) -> PrivMsgReplyView {
    PrivMsgReplyView::Response(PrivMsgResponseView { target, message })
}

/// A PRIVMSG responder. `answers` says which replies it may give to a
/// request; `None` stands for its silence.
pub trait PrivMsgEvent: Send + Sync {
    spec fn answers(&self, request: PrivMsgRequestView, reply: Option<PrivMsgReplyView>) -> bool;

    fn execute(&self, request: PrivMsgRequest) -> (r: Option<PrivMsgReply>)
        ensures
            self.answers(request@, reply_view(r)),
    ;
}

/// Answers `.geoip <host>` with where the host is.
pub struct GeoIpPrivMsgEvent {}

/// Answers the greeting `IAI`.
pub struct Iai55Chan {}

/// The reply to a message that may ask where a host is. The trigger is
/// `.geoip`; what follows it, without the white space around it, is the
/// host. Without a host the answer is ready at once; with one, a lookup is
/// asked for.
pub open spec fn geoip_reply(request: PrivMsgRequestView) -> Option<PrivMsgReplyView> {
    if starts_with(request.message, ".geoip"@) {
        let host = trimmed(request.message.skip(6));
        if host.len() == 0 {
            Some(say(request.source, "No IP specified"@))
        } else {
            Some(PrivMsgReplyView::Lookup { target: request.source, host })
        }
    } else {
        None
    }
}

/// The line that tells where a host is.
pub open spec fn geoip_line(g: GeoIpView) -> Seq<char> {
    "^ "@ + g.asn_name + " / "@ + g.asn_number + " / "@ + g.ip + " / "@ + g.ptr + " / "@ + g.country
        + " - "@ + g.state + " - "@ + g.city
}

/// The text that answers a lookup of `host`: the line of the first record,
/// nothing where there is no record, or the error in a sentence.
pub open spec fn geoip_text(host: Seq<char>, found: Result<Seq<GeoIpView>, Seq<char>>) -> Seq<
    char,
> {
    match found {
        Ok(records) => if records.len() > 0 {
            geoip_line(records[0])
        } else {
            Seq::empty()
        },
        Err(e) => "An error happened while geolocating IP: "@ + host + ", message: "@ + e,
    }
}

/// The reply to the greeting.
pub open spec fn greeting_reply(request: PrivMsgRequestView) -> Option<PrivMsgReplyView> {
    if request.message == "IAI"@ {
        Some(say(request.source, "DA HORA?!"@))
    } else {
        None
    }
}

/// The line that tells where a host is.
fn format_line(g: &GeoIpResponse) -> (r: String)
    ensures
        r@ == geoip_line(g@),
{
    let s = followed_by("^ ", g.asn.name.as_str());
    let s = followed_by(s.as_str(), " / ");
    let s = followed_by(s.as_str(), g.asn.number.as_str());
    let s = followed_by(s.as_str(), " / ");
    let s = followed_by(s.as_str(), g.ip.ip.as_str());
    let s = followed_by(s.as_str(), " / ");
    let s = followed_by(s.as_str(), g.ip.ptr.as_str());
    let s = followed_by(s.as_str(), " / ");
    let s = followed_by(s.as_str(), g.city.country.as_str());
    let s = followed_by(s.as_str(), " - ");
    let s = followed_by(s.as_str(), g.city.state.as_str());
    let s = followed_by(s.as_str(), " - ");
    followed_by(s.as_str(), g.city.name.as_str())
}

impl GeoIpPrivMsgEvent {
    /// The text that answers a lookup of `host`, given what was found.
    pub fn describe(host: &str, found: &Result<Vec<GeoIpResponse>, String>) -> (r: String)
        ensures
            r@ == geoip_text(host@, crate::geoip_response::outcome_view(*found)),
    {
        match found {
            Ok(records) => {
                if records.len() > 0 {
                    format_line(&records[0])
                } else {
                    String::new()
                }
            },
            Err(e) => {
                let s = followed_by("An error happened while geolocating IP: ", host);
                let s = followed_by(s.as_str(), ", message: ");
                followed_by(s.as_str(), e.as_str())
            },
        }
    }

    /// The answer to `query`, once the lookup that it asked for is made.
    pub fn finish(query: &GeoIpQuery, lookup: HostLookup) -> (r: PrivMsgResponse)
        ensures
            r@.target == query.target@,
            r@.message == geoip_text(query.host@, located_all(seq![lookup@])),
    {
        let mut lookups: Vec<HostLookup> = Vec::new();
        lookups.push(lookup);
        assert(lookup_views(lookups@) =~= seq![lookup@]);
        let found = ip_to_geoip(&lookups);
        PrivMsgResponse {
            target: query.target.clone(),
            message: Self::describe(query.host.as_str(), &found),
        }
    }
}

impl PrivMsgEvent for GeoIpPrivMsgEvent {
    open spec fn answers(&self, request: PrivMsgRequestView, reply: Option<PrivMsgReplyView>) -> bool {
        reply == geoip_reply(request)
    }

    fn execute(&self, request: PrivMsgRequest) -> (r: Option<PrivMsgReply>) {
        if begins_with(request.message.as_str(), ".geoip") {
            proof {
                reveal_strlit(".geoip");
            }
            let v = chars_of(request.message.as_str());
            let ip_request = trim_from(&v, 6);
            if ip_request.as_str().unicode_len() == 0 {
                Some(
                    PrivMsgReply::Response(
                        PrivMsgResponse {
                            target: request.source.clone(),
                            message: "No IP specified".to_owned(),
                        },
                    ),
                )
            } else {
                Some(
                    PrivMsgReply::Lookup(
                        GeoIpQuery { target: request.source.clone(), host: ip_request },
                    ),
                )
            }
        } else {
            None
        }
    }
}

impl PrivMsgEvent for Iai55Chan {
    open spec fn answers(&self, request: PrivMsgRequestView, reply: Option<PrivMsgReplyView>) -> bool {
        reply == greeting_reply(request)
    }

    fn execute(&self, request: PrivMsgRequest) -> (r: Option<PrivMsgReply>) {
        if same_text(request.message.as_str(), "IAI") {
            Some(
                PrivMsgReply::Response(
                    PrivMsgResponse {
                        target: request.source.clone(),
                        message: "DA HORA?!".to_owned(),
                    },
                ),
            )
        } else {
            None
        }
    }
}

/// The responders of this library, as one type: what a registry holds.
pub enum PrivMsgPlugin {
    GeoIp(GeoIpPrivMsgEvent),
    Iai55Chan(Iai55Chan),
}

impl PrivMsgPlugin {
    /// The one reply that the responder has to a request, if it has any.
    pub open spec fn reply(&self, request: PrivMsgRequestView) -> Option<PrivMsgReplyView> {
        match self {
            PrivMsgPlugin::GeoIp(_) => geoip_reply(request),
            PrivMsgPlugin::Iai55Chan(_) => greeting_reply(request),
        }
    }

    /// The responder that the settings enable under `name`, if the name is
    /// that of one.
    pub fn named(name: &str) -> (r: Option<PrivMsgPlugin>)
        ensures
            r is Some <==> name@ == "geoip"@,
            r matches Some(p) ==> p is GeoIp,
    {
        if same_text(name, "geoip") {
            Some(PrivMsgPlugin::GeoIp(GeoIpPrivMsgEvent {  }))
        } else {
            None
        }
    }
}

impl PrivMsgEvent for PrivMsgPlugin {
    open spec fn answers(&self, request: PrivMsgRequestView, reply: Option<PrivMsgReplyView>) -> bool {
        reply == self.reply(request)
    }

    fn execute(&self, request: PrivMsgRequest) -> (r: Option<PrivMsgReply>) {
        match self {
            PrivMsgPlugin::GeoIp(p) => p.execute(request),
            PrivMsgPlugin::Iai55Chan(p) => p.execute(request),
        }
    }
}

/// The names among `names` that the settings can enable, in order: the one
/// responder that has a name there is `geoip`.
pub open spec fn known_plugins(names: Seq<Seq<char>>) -> Seq<Seq<char>> {
    names.filter(|n: Seq<char>| n == "geoip"@)
}

/// Whether `r` is the registry that the names ask for: one responder for
/// each name that is known, in the order of the names.
pub open spec fn is_privmsg_registry(names: Seq<Seq<char>>, r: Seq<PrivMsgPlugin>) -> bool {
    &&& r.len() == known_plugins(names).len()
    &&& forall|i: int| 0 <= i < r.len() ==> (#[trigger] r[i]) is GeoIp
}

/// The registry that the names ask for. Unknown names are passed over.
pub fn privmsg_plugins(names: &Vec<String>) -> (r: Vec<PrivMsgPlugin>)
    ensures
        is_privmsg_registry(texts(names@), r@),
{
    let mut r: Vec<PrivMsgPlugin> = Vec::new();
    let ghost all = texts(names@);
    let mut i: usize = 0;
    while i < names.len()
        invariant
            i <= names.len(),
            all == texts(names@),
            r@.len() == known_plugins(all.take(i as int)).len(),
            forall|k: int| 0 <= k < r@.len() ==> (#[trigger] r@[k]) is GeoIp,
        decreases names.len() - i,
    {
        proof {
            assert(all.take(i + 1).drop_last() == all.take(i as int));
            reveal(Seq::filter);
        }
        match PrivMsgPlugin::named(names[i].as_str()) {
            Some(p) => {
                r.push(p);
            },
            None => {},
        }
        i += 1;
    }
    assert(all.take(all.len() as int) == all);
    r
}

} // verus!

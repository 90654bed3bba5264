//! CTCP responders: each recognizes one command token and answers it.

use vstd::prelude::*;
use crate::config::CtcpConfig;
use crate::config::Server;
use crate::irc_state::IrcState;
use crate::irc_state::IrcStateView;
use crate::message::Prefix;
use crate::message::PrefixView;
use crate::text::copy_texts;
use crate::text::followed_by;
use crate::text::join;
use crate::text::join_with;
use crate::text::same_text;
use crate::text::starts_with;
use crate::text::texts;

verus! {

/// One CTCP query as a responder sees it.
pub struct CtcpRequest<'a> {
    pub server: &'a Server,
    pub irc_state: &'a IrcState,
    /// Who asked.
    pub user: &'a Prefix,
    /// Where the answer goes: the channel, or the nickname of who asked.
    pub source: &'a String,
    /// The command token.
    pub command: &'a String,
    /// What followed the token.
    pub message: &'a String,
}

#[derive(Debug, PartialEq, Eq)]
pub struct CtcpResponse {
    pub target: String,
    pub message: String,
}

pub ghost struct CtcpRequestView {
    pub server: Server,
    pub irc_state: IrcStateView,
    pub user: PrefixView,
    pub source: Seq<char>,
    pub command: Seq<char>,
    pub message: Seq<char>,
}

pub ghost struct CtcpResponseView {
    pub target: Seq<char>,
    pub message: Seq<char>,
}

impl<'a> View for CtcpRequest<'a> {
    type V = CtcpRequestView;

    open spec fn view(&self) -> CtcpRequestView {
        CtcpRequestView {
            server: *self.server,
            irc_state: self.irc_state@,
            user: self.user@,
            source: self.source@,
            command: self.command@,
            message: self.message@,
        }
    }
}

impl View for CtcpResponse {
    type V = CtcpResponseView;

    open spec fn view(&self) -> CtcpResponseView {
        CtcpResponseView { target: self.target@, message: self.message@ }
    }
}

/// What an optional response says.
pub open spec fn response_view(r: Option<CtcpResponse>) -> Option<CtcpResponseView> {
    match r {
        Some(x) => Some(x@),
        None => None,
    }
}

/// The answer to `request` of a responder that knows `token` and has
/// `text` to say: to the request's source, the token, a space and the text;
/// nothing where the request's command is another.
pub open spec fn echo(request: CtcpRequestView, token: Seq<char>, text: Seq<char>) -> Option<
    CtcpResponseView,
> {
    if request.command == token {
        Some(CtcpResponseView { target: request.source, message: token.push(' ') + text })
    } else {
        None
    }
}

/// Whether `token` names one of the responders of this library.
pub open spec fn known_token(token: Seq<char>) -> bool {
    ||| token == "CLIENTINFO"@
    ||| token == "FINGER"@
    ||| token == "PING"@
    ||| token == "SOURCE"@
    ||| token == "TIME"@
    ||| token == "VERSION"@
    ||| token == "USERINFO"@
}

/// Whether the responder for `token`, set up with the list `available` of
/// enabled tokens, may answer `request` with `response`. Every responder
/// but `TIME` has one answer to each request; `TIME` answers with the token
/// and whatever the clock gave.
pub open spec fn token_answers(
    token: Seq<char>,
    available: Seq<Seq<char>>,
    request: CtcpRequestView,
    response: Option<CtcpResponseView>,
) -> bool {
    if token == "VERSION"@ {
        response == echo(request, token, request.server.ctcp.version@)
    } else if token == "PING"@ {
        response == echo(request, token, request.message)
    } else if token == "CLIENTINFO"@ {
        response == echo(request, token, join_with(available, ' '))
    } else if token == "FINGER"@ {
        response == echo(request, token, request.server.ctcp.version@)
    } else if token == "SOURCE"@ {
        response == echo(request, token, request.server.ctcp.source@)
    } else if token == "USERINFO"@ {
        response == echo(
            request,
            token,
            request.server.user_data.nickname@ + " ("@ + request.server.user_data.realname@
                + ")"@,
        )
    } else if token == "TIME"@ {
        if request.command == token {
            response matches Some(r) && r.target == request.source && starts_with(
                r.message,
                token.push(' '),
            )
        } else {
            response is None
        }
    } else {
        response is None
    }
}

/// A CTCP responder. `answers` says which responses it may give to a
/// request; `None` stands for its silence.
pub trait CtcpEvent: Send + Sync {
    spec fn answers(&self, request: CtcpRequestView, response: Option<CtcpResponseView>) -> bool;

    fn execute(&self, request: CtcpRequest) -> (r: Option<CtcpResponse>)
        ensures
            self.answers(request@, response_view(r)),
    ;
}

pub struct VersionCtcpResponse {}

pub struct PingCtcpResponse {}

pub struct ClientInfoCtcpResponse {
    pub available_ctcp: Vec<String>,
}

pub struct FingerCtcpResponse {}

pub struct SourceCtcpResponse {}

pub struct TimeCtcpResponse {}

pub struct UserInfoCtcpResponse {}

/// The response of a responder that knows `token`, once it has its text.
fn respond(request: &CtcpRequest, token: &str, text: &str) -> (r: CtcpResponse)
    ensures
        r@ == (CtcpResponseView { target: request.source@, message: token@.push(' ') + text@ }),
{
    proof {
        reveal_strlit(" ");
        assert(token@ + " "@ =~= token@.push(' '));
    }
    let head = followed_by(token, " ");
    CtcpResponse { target: request.source.clone(), message: followed_by(head.as_str(), text) }
}

impl CtcpEvent for VersionCtcpResponse {
    open spec fn answers(&self, request: CtcpRequestView, response: Option<CtcpResponseView>) -> bool {
        token_answers("VERSION"@, Seq::empty(), request, response)
    }

    fn execute(&self, request: CtcpRequest) -> (r: Option<CtcpResponse>) {
        if same_text(request.command.as_str(), "VERSION") {
            Some(respond(&request, "VERSION", request.server.ctcp.version.as_str()))
        } else {
            None
        }
    }
}

impl CtcpEvent for PingCtcpResponse {
    open spec fn answers(&self, request: CtcpRequestView, response: Option<CtcpResponseView>) -> bool {
        token_answers("PING"@, Seq::empty(), request, response)
    }

    fn execute(&self, request: CtcpRequest) -> (r: Option<CtcpResponse>) {
        proof {
            lemma_tokens_differ();
        }
        if same_text(request.command.as_str(), "PING") {
            Some(respond(&request, "PING", request.message.as_str()))
        } else {
            None
        }
    }
}

impl CtcpEvent for ClientInfoCtcpResponse {
    open spec fn answers(&self, request: CtcpRequestView, response: Option<CtcpResponseView>) -> bool {
        token_answers("CLIENTINFO"@, texts(self.available_ctcp@), request, response)
    }

    fn execute(&self, request: CtcpRequest) -> (r: Option<CtcpResponse>) {
        proof {
            lemma_tokens_differ();
        }
        if same_text(request.command.as_str(), "CLIENTINFO") {
            let list = join(&self.available_ctcp, ' ');
            Some(respond(&request, "CLIENTINFO", list.as_str()))
        } else {
            None
        }
    }
}

impl CtcpEvent for FingerCtcpResponse {
    open spec fn answers(&self, request: CtcpRequestView, response: Option<CtcpResponseView>) -> bool {
        token_answers("FINGER"@, Seq::empty(), request, response)
    }

    fn execute(&self, request: CtcpRequest) -> (r: Option<CtcpResponse>) {
        proof {
            lemma_tokens_differ();
        }
        if same_text(request.command.as_str(), "FINGER") {
            Some(respond(&request, "FINGER", request.server.ctcp.version.as_str()))
        } else {
            None
        }
    }
}

impl CtcpEvent for SourceCtcpResponse {
    open spec fn answers(&self, request: CtcpRequestView, response: Option<CtcpResponseView>) -> bool {
        token_answers("SOURCE"@, Seq::empty(), request, response)
    }

    fn execute(&self, request: CtcpRequest) -> (r: Option<CtcpResponse>) {
        proof {
            lemma_tokens_differ();
        }
        if same_text(request.command.as_str(), "SOURCE") {
            Some(respond(&request, "SOURCE", request.server.ctcp.source.as_str()))
        } else {
            None
        }
    }
}

/// `chrono`: the time of the system clock as a `DateTime<Utc>`, written by
/// `format` with `%c`. Nothing is claimed of the text.
#[verifier::external_body]
fn utc_now_text() -> (r: String) {
    let datetime: chrono::DateTime<chrono::Utc> = std::time::SystemTime::now().into();
    datetime.format("%c").to_string()
}

impl TimeCtcpResponse {
    /// The answer to `request` when the clock reads `now`.
    pub fn stamp(&self, request: &CtcpRequest, now: &str) -> (r: Option<CtcpResponse>)
        ensures
            response_view(r) == echo(request@, "TIME"@, now@),
    {
        if same_text(request.command.as_str(), "TIME") {
            Some(respond(request, "TIME", now))
        } else {
            None
        }
    }
}

impl CtcpEvent for TimeCtcpResponse {
    open spec fn answers(&self, request: CtcpRequestView, response: Option<CtcpResponseView>) -> bool {
        token_answers("TIME"@, Seq::empty(), request, response)
    }

    fn execute(&self, request: CtcpRequest) -> (r: Option<CtcpResponse>) {
        proof {
            lemma_tokens_differ();
        }
        if same_text(request.command.as_str(), "TIME") {
            let now = utc_now_text();
            let r = self.stamp(&request, now.as_str());
            assert(("TIME"@.push(' ') + now@).take("TIME"@.push(' ').len() as int) =~= "TIME"@.push(
                ' ',
            ));
            r
        } else {
            None
        }
    }
}

impl CtcpEvent for UserInfoCtcpResponse {
    open spec fn answers(&self, request: CtcpRequestView, response: Option<CtcpResponseView>) -> bool {
        token_answers("USERINFO"@, Seq::empty(), request, response)
    }

    fn execute(&self, request: CtcpRequest) -> (r: Option<CtcpResponse>) {
        proof {
            lemma_tokens_differ();
        }
        if same_text(request.command.as_str(), "USERINFO") {
            let head = followed_by(request.server.user_data.nickname.as_str(), " (");
            let body = followed_by(head.as_str(), request.server.user_data.realname.as_str());
            let text = followed_by(body.as_str(), ")");
            Some(respond(&request, "USERINFO", text.as_str()))
        } else {
            None
        }
    }
}

/// The responders of this library, as one type: what a registry holds.
pub enum CtcpPlugin {
    ClientInfo(ClientInfoCtcpResponse),
    Finger(FingerCtcpResponse),
    Ping(PingCtcpResponse),
    Source(SourceCtcpResponse),
    Time(TimeCtcpResponse),
    Version(VersionCtcpResponse),
    UserInfo(UserInfoCtcpResponse),
}

impl CtcpPlugin {
    /// The token that the responder knows.
    pub open spec fn token(&self) -> Seq<char> {
        match self {
            CtcpPlugin::ClientInfo(_) => "CLIENTINFO"@,
            CtcpPlugin::Finger(_) => "FINGER"@,
            CtcpPlugin::Ping(_) => "PING"@,
            CtcpPlugin::Source(_) => "SOURCE"@,
            CtcpPlugin::Time(_) => "TIME"@,
            CtcpPlugin::Version(_) => "VERSION"@,
            CtcpPlugin::UserInfo(_) => "USERINFO"@,
        }
    }

    /// The tokens that the responder lists, where it lists any.
    pub open spec fn available(&self) -> Seq<Seq<char>> {
        match self {
            CtcpPlugin::ClientInfo(c) => texts(c.available_ctcp@),
            _ => Seq::empty(),
        }
    }

    /// The responder that the settings enable under `name`, if the name is
    /// that of one.
    pub fn named(name: &str, config: &CtcpConfig) -> (r: Option<CtcpPlugin>)
        ensures
            r is Some <==> known_token(name@),
            r matches Some(p) ==> p.token() == name@ && p.available() == if name@
                == "CLIENTINFO"@ {
                texts(config.enabled@)
            } else {
                Seq::empty()
            },
    {
        if same_text(name, "CLIENTINFO") {
            Some(
                CtcpPlugin::ClientInfo(
                    ClientInfoCtcpResponse { available_ctcp: copy_texts(&config.enabled) },
                ),
            )
        } else if same_text(name, "FINGER") {
            Some(CtcpPlugin::Finger(FingerCtcpResponse {  }))
        } else if same_text(name, "PING") {
            Some(CtcpPlugin::Ping(PingCtcpResponse {  }))
        } else if same_text(name, "SOURCE") {
            Some(CtcpPlugin::Source(SourceCtcpResponse {  }))
        } else if same_text(name, "TIME") {
            Some(CtcpPlugin::Time(TimeCtcpResponse {  }))
        } else if same_text(name, "VERSION") {
            Some(CtcpPlugin::Version(VersionCtcpResponse {  }))
        } else if same_text(name, "USERINFO") {
            Some(CtcpPlugin::UserInfo(UserInfoCtcpResponse {  }))
        } else {
            None
        }
    }
}

impl CtcpEvent for CtcpPlugin {
    open spec fn answers(&self, request: CtcpRequestView, response: Option<CtcpResponseView>) -> bool {
        token_answers(self.token(), self.available(), request, response)
    }

    fn execute(&self, request: CtcpRequest) -> (r: Option<CtcpResponse>) {
        match self {
            CtcpPlugin::ClientInfo(p) => p.execute(request),
            CtcpPlugin::Finger(p) => p.execute(request),
            CtcpPlugin::Ping(p) => p.execute(request),
            CtcpPlugin::Source(p) => p.execute(request),
            CtcpPlugin::Time(p) => p.execute(request),
            CtcpPlugin::Version(p) => p.execute(request),
            CtcpPlugin::UserInfo(p) => p.execute(request),
        }
    }
}

/// The names among `names` that are tokens of responders, in order.
pub open spec fn known_tokens(names: Seq<Seq<char>>) -> Seq<Seq<char>> {
    names.filter(|t: Seq<char>| known_token(t))
}

/// Whether `r` is the registry that the settings ask for: one responder
/// for each enabled name that is the token of one, in the order of the
/// names, and the one that lists the tokens lists all enabled names.
pub open spec fn is_ctcp_registry(config: CtcpConfig, r: Seq<CtcpPlugin>) -> bool {
    let names = texts(config.enabled@);
    &&& r.len() == known_tokens(names).len()
    &&& forall|i: int| 0 <= i < r.len() ==> (#[trigger] r[i]).token() == known_tokens(names)[i]
    &&& forall|i: int|
        0 <= i < r.len() && r[i].token() == "CLIENTINFO"@ ==> (#[trigger] r[i]).available()
            == names
}

/// The registry that the settings ask for. Names that are no token of a
/// responder are passed over.
pub fn ctcp_plugins(config: &CtcpConfig) -> (r: Vec<CtcpPlugin>)
    ensures
        is_ctcp_registry(*config, r@),
{
    let mut r: Vec<CtcpPlugin> = Vec::new();
    let ghost names = texts(config.enabled@);
    let mut i: usize = 0;
    while i < config.enabled.len()
        invariant
            i <= config.enabled.len(),
            names == texts(config.enabled@),
            r@.len() == known_tokens(names.take(i as int)).len(),
            forall|k: int|
                0 <= k < r@.len() ==> (#[trigger] r@[k]).token() == known_tokens(
                    names.take(i as int),
                )[k],
            forall|k: int|
                0 <= k < r@.len() && r@[k].token() == "CLIENTINFO"@ ==> (#[trigger] r@[k]).available()
                    == names,
        decreases config.enabled.len() - i,
    {
        proof {
            assert(names.take(i + 1).drop_last() == names.take(i as int));
            reveal(Seq::filter);
        }
        match CtcpPlugin::named(config.enabled[i].as_str(), config) {
            Some(p) => {
                r.push(p);
            },
            None => {},
        }
        i += 1;
    }
    assert(names.take(names.len() as int) == names);
    r
}

/// The seven tokens are seven different texts.
pub proof fn lemma_tokens_differ()
    ensures
        "VERSION"@.len() == 7,
        "PING"@.len() == 4,
        "CLIENTINFO"@.len() == 10,
        "FINGER"@.len() == 6,
        "SOURCE"@.len() == 6,
        "TIME"@.len() == 4,
        "USERINFO"@.len() == 8,
        "FINGER"@[0] == 'F',
        "SOURCE"@[0] == 'S',
        "PING"@[0] == 'P',
        "TIME"@[0] == 'T',
{
    reveal_strlit("VERSION");
    reveal_strlit("PING");
    reveal_strlit("CLIENTINFO");
    reveal_strlit("FINGER");
    reveal_strlit("SOURCE");
    reveal_strlit("TIME");
    reveal_strlit("USERINFO");
}

} // verus!

//! What one connection remembers between messages: where registration
//! stands and which capabilities were asked for, offered and granted.

use vstd::prelude::*;
use crate::config::Server;
use crate::text::texts;

verus! {

pub struct IrcState {
    /// True until the registration burst has been sent.
    pub initial_connection: bool,
    pub negotiating_cap: bool,
    pub negotiating_sasl: bool,
    pub sent_user: bool,
    /// The capabilities the client wants, in the order it asks for them.
    pub cap_requested: Vec<String>,
    /// The wanted capabilities that the server offers.
    pub cap_negotiated: Vec<String>,
    /// The capabilities that the server has acknowledged.
    pub cap_accepted: Vec<String>,
}

pub ghost struct IrcStateView {
    pub initial_connection: bool,
    pub negotiating_cap: bool,
    pub negotiating_sasl: bool,
    pub sent_user: bool,
    pub cap_requested: Seq<Seq<char>>,
    pub cap_negotiated: Seq<Seq<char>>,
    pub cap_accepted: Seq<Seq<char>>,
}

impl View for IrcState {
    type V = IrcStateView;

    open spec fn view(&self) -> IrcStateView {
        IrcStateView {
            initial_connection: self.initial_connection,
            negotiating_cap: self.negotiating_cap,
            negotiating_sasl: self.negotiating_sasl,
            sent_user: self.sent_user,
            cap_requested: texts(self.cap_requested@),
            cap_negotiated: texts(self.cap_negotiated@),
            cap_accepted: texts(self.cap_accepted@),
        }
    }
}

/// The capabilities that every session asks for.
pub open spec fn base_capabilities() -> Seq<Seq<char>> {
    seq!["multi-prefix"@, "userhost-in-names"@]
}

/// The state of a session that has not yet sent anything and wants the
/// capabilities `wanted`.
pub open spec fn fresh_state(wanted: Seq<Seq<char>>) -> IrcStateView {
    IrcStateView {
        initial_connection: true,
        negotiating_cap: false,
        negotiating_sasl: false,
        sent_user: false,
        cap_requested: wanted,
        cap_negotiated: Seq::empty(),
        cap_accepted: Seq::empty(),
    }
}

/// The capabilities that a session with `server` asks for: the base ones,
/// and `sasl` after them where SASL is enabled.
pub open spec fn wanted_capabilities(server: Server) -> Seq<Seq<char>> {
    if server.sasl.enabled {
        base_capabilities().push("sasl"@)
    } else {
        base_capabilities()
    }
}

impl Default for IrcState {
    fn default() -> (s: IrcState)
        ensures
            s@ == fresh_state(base_capabilities()),
    {
        let mut cap_requested: Vec<String> = Vec::new();
        cap_requested.push("multi-prefix".to_owned());
        cap_requested.push("userhost-in-names".to_owned());
        let s = IrcState {
            initial_connection: true,
            negotiating_cap: false,
            negotiating_sasl: false,
            sent_user: false,
            cap_requested,
            cap_negotiated: Vec::new(),
            cap_accepted: Vec::new(),
        };
        assert(s@.cap_requested =~= base_capabilities());
        assert(s@.cap_negotiated =~= Seq::empty());
        s
    }
}

impl IrcState {
    /// The state with which a connection to `server` starts.
    pub fn for_server(server: &Server) -> (s: IrcState)
        ensures
            s@ == fresh_state(wanted_capabilities(*server)),
    {
        let mut s = IrcState::default();
        if server.sasl.enabled {
            s.cap_requested.push("sasl".to_owned());
            assert(s@.cap_requested =~= base_capabilities().push("sasl"@));
        }
        s
    }

    /// Whether registration is over: neither capabilities nor SASL are
    /// being negotiated, and the burst has been sent.
    pub fn is_registered(&self) -> (r: bool)
        ensures
            r == (!self.initial_connection && !self.negotiating_cap && !self.negotiating_sasl),
    {
        !self.initial_connection && !self.negotiating_cap && !self.negotiating_sasl
    }
}

} // verus!

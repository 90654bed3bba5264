//! The engine of one connection: registration, capability negotiation and
//! SASL as transitions of the session state, and the routing of each
//! inbound message to its handler. Nothing here reads or writes a stream:
//! every handler returns what is to be sent.

use vstd::prelude::*;
use vstd::utf8::encode_utf8;
use crate::config::ChannelConfig;
use crate::config::Server;
use crate::ctcp::CtcpEvent;
use crate::ctcp::CtcpPlugin;
use crate::ctcp::CtcpRequest;
use crate::ctcp::CtcpRequestView;
use crate::ctcp::CtcpResponseView;
use crate::ctcp::ctcp_plugins;
use crate::ctcp::is_ctcp_registry;
use crate::irc_ext::IrcExt;
use crate::irc_ext::channel_name;
use crate::irc_ext::ctcp_framed;
use crate::irc_state::IrcState;
use crate::irc_state::IrcStateView;
use crate::irc_state::fresh_state;
use crate::irc_state::wanted_capabilities;
use crate::message::Message;
use crate::message::MessageView;
use crate::message::line_ending;
use crate::message::parsed_line;
use crate::message::plain;
use crate::message::views;
use crate::message::wire_form;
use crate::privmsg::GeoIpQuery;
use crate::privmsg::PrivMsgEvent;
use crate::privmsg::PrivMsgPlugin;
use crate::privmsg::PrivMsgReply;
use crate::privmsg::PrivMsgReplyView;
use crate::privmsg::PrivMsgRequest;
use crate::privmsg::PrivMsgRequestView;
use crate::privmsg::is_privmsg_registry;
use crate::privmsg::privmsg_plugins;
use crate::text::chars_of;
use crate::text::copy_texts;
use crate::text::find_from;
use crate::text::first_index;
use crate::text::followed_by;
use crate::text::join;
use crate::text::join_with;
use crate::text::remove_char;
use crate::text::same_text;
use crate::text::slice_text;
use crate::text::texts;
use crate::text::tokens;
use crate::text::trim_from;
use crate::text::trimmed;
use crate::text::without;
use crate::text::words;

verus! {

/// One connection's engine: the server's settings, the session state, and
/// the responders in the order in which they are asked.
pub struct IrcHandler<C: CtcpEvent, P: PrivMsgEvent> {
    pub server: Server,
    pub irc_state: IrcState,
    pub ctcp_event: Vec<C>,
    pub privmsg_event: Vec<P>,
}

/// Something for the connection's owner to do.
#[derive(Debug, PartialEq, Eq)]
pub enum Action {
    /// Write this message to the stream.
    Send(Message),
    /// Look this host up, then send what `GeoIpPrivMsgEvent::finish` makes
    /// of the result.
    Lookup(GeoIpQuery),
}

pub ghost enum ActionView {
    Send(MessageView),
    Lookup { target: Seq<char>, host: Seq<char> },
}

impl View for Action {
    type V = ActionView;

    open spec fn view(&self) -> ActionView {
        match self {
            Action::Send(m) => ActionView::Send(m@),
            Action::Lookup(q) => ActionView::Lookup { target: q.target@, host: q.host@ },
        }
    }
}

/// The actions that a vector holds, in order.
pub open spec fn action_views(v: Seq<Action>) -> Seq<ActionView> {
    Seq::new(v.len(), |i: int| v[i]@)
}

/// The actions that send the given messages, in order.
pub open spec fn sends(messages: Seq<MessageView>) -> Seq<ActionView> {
    Seq::new(messages.len(), |i: int| ActionView::Send(messages[i]))
}

/// What base64 makes of a sequence of bytes (standard alphabet, padded).
pub uninterp spec fn base64_text(bytes: Seq<u8>) -> Seq<char>;

/// Whether the base64 text of `len` bytes has a length that fits the
/// machine.
pub open spec fn encodable(len: nat) -> bool {
    (len / 3) * 4 + 4 <= usize::MAX
}

/// `base64::encode`: the standard, padded base64 text of the bytes. It
/// panics where the length of the text overflows, which `requires` leaves
/// out.
#[verifier::external_body]
fn base64_encode(bytes: &[u8]) -> (r: String)
    requires
        encodable(bytes@.len()),
    ensures
        r@ == base64_text(bytes@),
{
    base64::encode(bytes)
}

/// The messages that open a registration: the capability listing, the
/// server password where there is one, then nickname and user.
pub open spec fn registration_burst(server: Server) -> Seq<MessageView> {
    let nick = server.user_data.nickname@;
    seq![plain("CAP"@, seq!["LS"@, "302"@])] + (if server.password@.len() > 0 {
        seq![plain("PASS"@, seq![server.password@])]
    } else {
        Seq::empty()
    }) + seq![
        plain("NICK"@, seq![nick]),
        plain("USER"@, seq![nick, "0"@, "*"@, server.user_data.realname@]),
    ]
}

/// The session once the burst is sent.
pub open spec fn after_burst(s: IrcStateView) -> IrcStateView {
    IrcStateView { initial_connection: false, negotiating_cap: true, ..s }
}

/// The wanted capabilities that are among the available ones, in the order
/// in which they are wanted.
pub open spec fn offered(wanted: Seq<Seq<char>>, available: Seq<Seq<char>>) -> Seq<Seq<char>> {
    wanted.filter(|c: Seq<char>| available.contains(c))
}

/// `CAP END`, which closes the negotiation.
pub open spec fn cap_end() -> MessageView {
    plain("CAP"@, seq!["END"@])
}

/// The session after the server has listed its capabilities in `list`, and
/// the request for those of them that are wanted. The capabilities of a
/// list are its words: white space of any kind and length parts them, and
/// none is empty.
pub open spec fn cap_listed(s: IrcStateView, list: Seq<char>) -> (IrcStateView, Seq<MessageView>) {
    let negotiated = s.cap_negotiated + offered(s.cap_requested, tokens(list));
    (
        IrcStateView { cap_negotiated: negotiated, ..s },
        seq![plain("CAP"@, seq!["REQ"@, join_with(negotiated, ' ')])],
    )
}

/// The session after the server has acknowledged the capabilities in
/// `list`, which are its words. With `sasl` among all that were
/// acknowledged, and enabled,
/// authentication starts. Once as many are acknowledged as were requested
/// the negotiation is over, and is closed unless authentication is under
/// way.
pub open spec fn cap_acknowledged(s: IrcStateView, sasl_enabled: bool, list: Seq<char>) -> (
    IrcStateView,
    Seq<MessageView>,
) {
    let accepted = s.cap_accepted + tokens(list);
    let start_sasl = sasl_enabled && accepted.contains("sasl"@);
    let negotiating_sasl = s.negotiating_sasl || start_sasl;
    let done = s.cap_negotiated.len() == accepted.len();
    (
        IrcStateView {
            cap_accepted: accepted,
            negotiating_sasl,
            negotiating_cap: !done,
            ..s
        },
        (if start_sasl {
            seq![plain("AUTHENTICATE"@, seq!["PLAIN"@])]
        } else {
            Seq::empty()
        }) + (if done && !negotiating_sasl {
            seq![cap_end()]
        } else {
            Seq::empty()
        }),
    )
}

/// What a `CAP` message does to the session, and what is sent in answer.
/// Outside the negotiation, and for any message but a listing or an
/// acknowledgement with its list, that is nothing.
pub open spec fn cap_step(s: IrcStateView, sasl_enabled: bool, m: MessageView) -> (
    IrcStateView,
    Seq<MessageView>,
) {
    if !s.negotiating_cap || m.params.len() < 3 {
        (s, Seq::empty())
    } else if m.params[1] == "LS"@ {
        cap_listed(s, m.params[2])
    } else if m.params[1] == "ACK"@ {
        cap_acknowledged(s, sasl_enabled, m.params[2])
    } else {
        (s, Seq::empty())
    }
}

/// The credentials of SASL PLAIN: the user twice, as who acts and as who
/// authenticates, then the password, with a zero character between them.
pub open spec fn sasl_plain(user: Seq<char>, password: Seq<char>) -> Seq<char> {
    user.push('\0') + user.push('\0') + password
}

/// The answer to an `AUTHENTICATE` message: to the challenge `+`, while
/// authentication is under way, the encoded credentials.
pub open spec fn authenticate_step(s: IrcStateView, server: Server, m: MessageView) -> Seq<
    MessageView,
> {
    let bytes = encode_utf8(sasl_plain(server.sasl.user@, server.sasl.password@));
    if s.negotiating_sasl && m.params.len() > 0 && m.params[0] == "+"@ && encodable(bytes.len()) {
        seq![plain("AUTHENTICATE"@, seq![base64_text(bytes)])]
    } else {
        Seq::empty()
    }
}

/// The message that leaves the server after a failed authentication.
pub open spec fn quit_message() -> MessageView {
    plain("QUIT"@, seq!["SASL Authentication failed"@])
}

/// What the numeric that reports a failed authentication does: while
/// authentication is under way it ends it, where the settings say so with
/// `QUIT` and the end of the connection (the third component), else with
/// `CAP END`. At any other time it does nothing.
pub open spec fn sasl_failed(s: IrcStateView, terminate: bool) -> (
    IrcStateView,
    Seq<MessageView>,
    bool,
) {
    if !s.negotiating_sasl {
        (s, Seq::empty(), false)
    } else if terminate {
        (IrcStateView { negotiating_sasl: false, ..s }, seq![quit_message()], true)
    } else {
        (IrcStateView { negotiating_sasl: false, ..s }, seq![cap_end()], false)
    }
}

/// What the numeric that reports a successful authentication does: while
/// authentication is under way it ends it and closes the negotiation.
pub open spec fn sasl_succeeded(s: IrcStateView) -> (IrcStateView, Seq<MessageView>) {
    if s.negotiating_sasl {
        (IrcStateView { negotiating_sasl: false, ..s }, seq![cap_end()])
    } else {
        (s, Seq::empty())
    }
}

/// Whether a `MODE` message sets the flag `r`: its second parameter begins
/// with `+` and has an `r` after it.
pub open spec fn registers(m: MessageView) -> bool {
    m.params.len() >= 2 && m.params[1].len() > 0 && m.params[1][0] == '+' && m.params[1].skip(
        1,
    ).contains('r')
}

/// One `JOIN` for each channel, with its key, which may be empty.
pub open spec fn join_messages(channels: Seq<ChannelConfig>) -> Seq<MessageView> {
    Seq::new(channels.len(), |i: int| plain("JOIN"@, seq![channels[i].name@, channels[i].password@]))
}

/// The word to HostServ that turns the virtual host on.
pub open spec fn hostserv_notice() -> MessageView {
    plain("PRIVMSG"@, seq!["HostServ"@, "ON"@])
}

/// What is sent on a `MODE` message: once the nickname is registered, the
/// word to HostServ where it is in use, then the joins.
pub open spec fn mode_step(server: Server, m: MessageView) -> Seq<MessageView> {
    if registers(m) {
        (if server.use_hostserv {
            seq![hostserv_notice()]
        } else {
            Seq::empty()
        }) + join_messages(server.channels@)
    } else {
        Seq::empty()
    }
}

/// A message with one parameter.
fn message1(command: &str, a: String) -> (m: Message)
    ensures
        m@ == plain(command@, seq![a@]),
{
    let mut params: Vec<String> = Vec::new();
    params.push(a);
    assert(texts(params@) =~= seq![a@]);
    Message::new(command.to_owned(), params)
}

/// A message with two parameters.
fn message2(command: &str, a: String, b: String) -> (m: Message)
    ensures
        m@ == plain(command@, seq![a@, b@]),
{
    let mut params: Vec<String> = Vec::new();
    params.push(a);
    params.push(b);
    assert(texts(params@) =~= seq![a@, b@]);
    Message::new(command.to_owned(), params)
}

/// Whether `s` is among the strings of `v`.
fn holds(v: &Vec<String>, s: &str) -> (r: bool)
    ensures
        r == texts(v@).contains(s@),
{
    let mut i: usize = 0;
    while i < v.len()
        invariant
            i <= v.len(),
            forall|k: int| 0 <= k < i ==> texts(v@)[k] != s@,
        decreases v.len() - i,
    {
        if same_text(v[i].as_str(), s) {
            assert(texts(v@)[i as int] == s@);
            return true;
        }
        i += 1;
    }
    false
}

/// Appends to `list` the strings of `more`, in order.
fn extend(list: &mut Vec<String>, more: Vec<String>)
    ensures
        texts(final(list)@) == texts(old(list)@) + texts(more@),
{
    let ghost before = texts(list@);
    let mut i: usize = 0;
    while i < more.len()
        invariant
            i <= more.len(),
            texts(list@) == before + texts(more@).take(i as int),
        decreases more.len() - i,
    {
        let ghost now = texts(list@);
        list.push(more[i].clone());
        assert(texts(list@) =~= now.push(more@[i as int]@));
        i += 1;
    }
}

impl<C: CtcpEvent, P: PrivMsgEvent> IrcHandler<C, P> {
    /// Opens the registration: returns the burst, and the session is then
    /// negotiating capabilities.
    pub fn handle_initial_connection(&mut self) -> (out: Vec<Message>)
        ensures
            views(out@) == registration_burst(old(self).server),
            final(self).irc_state@ == after_burst(old(self).irc_state@),
            final(self).server == old(self).server,
            final(self).ctcp_event == old(self).ctcp_event,
            final(self).privmsg_event == old(self).privmsg_event,
    {
        let mut out: Vec<Message> = Vec::new();
        out.push(message2("CAP", "LS".to_owned(), "302".to_owned()));
        if self.server.password.as_str().unicode_len() > 0 {
            out.push(message1("PASS", self.server.password.clone()));
        }
        out.push(message1("NICK", self.server.user_data.nickname.clone()));
        let mut params: Vec<String> = Vec::new();
        params.push(self.server.user_data.nickname.clone());
        params.push("0".to_owned());
        params.push("*".to_owned());
        params.push(self.server.user_data.realname.clone());
        assert(texts(params@) =~= seq![
            self.server.user_data.nickname@,
            "0"@,
            "*"@,
            self.server.user_data.realname@,
        ]);
        out.push(Message::new("USER".to_owned(), params));
        self.irc_state.initial_connection = false;
        self.irc_state.negotiating_cap = true;
        out
    }

    /// Takes one `CAP` message: see `cap_step`.
    pub fn handle_cap(&mut self, message: &Message) -> (out: Vec<Message>)
        ensures
            (final(self).irc_state@, views(out@)) == cap_step(
                old(self).irc_state@,
                old(self).server.sasl.enabled,
                message@,
            ),
            final(self).server == old(self).server,
            final(self).ctcp_event == old(self).ctcp_event,
            final(self).privmsg_event == old(self).privmsg_event,
    {
        let mut out: Vec<Message> = Vec::new();
        if !self.irc_state.negotiating_cap || message.params.len() < 3 {
            return out;
        }
        let ghost s = self.irc_state@;
        if same_text(message.params[1].as_str(), "LS") {
            let available_caps = words(message.params[2].as_str());
            let ghost available = texts(available_caps@);
            let ghost wanted = s.cap_requested;
            let mut i: usize = 0;
            while i < self.irc_state.cap_requested.len()
                invariant
                    i <= self.irc_state.cap_requested.len(),
                    available == texts(available_caps@),
                    wanted == texts(self.irc_state.cap_requested@),
                    self.irc_state@ == (IrcStateView {
                        cap_negotiated: s.cap_negotiated + offered(wanted.take(i as int), available),
                        ..s
                    }),
                    self.server == old(self).server,
                    self.ctcp_event == old(self).ctcp_event,
                    self.privmsg_event == old(self).privmsg_event,
                decreases self.irc_state.cap_requested.len() - i,
            {
                proof {
                    assert(wanted.take(i + 1).drop_last() == wanted.take(i as int));
                    reveal(Seq::filter);
                }
                let ghost now = texts(self.irc_state.cap_negotiated@);
                if holds(&available_caps, self.irc_state.cap_requested[i].as_str()) {
                    let cap = self.irc_state.cap_requested[i].clone();
                    self.irc_state.cap_negotiated.push(cap);
                    assert(texts(self.irc_state.cap_negotiated@) =~= now.push(wanted[i as int]));
                }
                i += 1;
            }
            assert(wanted.take(wanted.len() as int) == wanted);
            out.push(message2("CAP", "REQ".to_owned(), join(&self.irc_state.cap_negotiated, ' ')));
        } else if same_text(message.params[1].as_str(), "ACK") {
            proof {
                reveal_strlit("LS");
                reveal_strlit("ACK");
            }
            let cap_accepted = words(message.params[2].as_str());
            extend(&mut self.irc_state.cap_accepted, cap_accepted);
            if self.server.sasl.enabled && holds(&self.irc_state.cap_accepted, "sasl") {
                self.irc_state.negotiating_sasl = true;
                out.push(message1("AUTHENTICATE", "PLAIN".to_owned()));
            }
            if self.irc_state.cap_negotiated.len() == self.irc_state.cap_accepted.len() {
                self.irc_state.negotiating_cap = false;
                if !self.irc_state.negotiating_sasl {
                    out.push(self.finish_cap());
                }
            }
        }
        out
    }

    /// Answers the challenge of SASL PLAIN: see `authenticate_step`.
    pub fn handle_authenticate(&self, message: &Message) -> (out: Vec<Message>)
        ensures
            views(out@) == authenticate_step(self.irc_state@, self.server, message@),
    {
        let mut out: Vec<Message> = Vec::new();
        if self.irc_state.negotiating_sasl && message.params.len() > 0 && same_text(
            message.params[0].as_str(),
            "+",
        ) {
            let credentials = sasl_plain_text(
                self.server.sasl.user.as_str(),
                self.server.sasl.password.as_str(),
            );
            let bytes = credentials.as_str().as_bytes();
            if bytes.len() / 3 <= (usize::MAX - 4) / 4 {
                let encoded = base64_encode(bytes);
                out.push(message1("AUTHENTICATE", encoded));
            }
        }
        out
    }

    /// Takes the numeric that reports a failed authentication: see
    /// `sasl_failed`. The flag returned says that the connection is to end.
    pub fn handle_authenticate_fail(&mut self) -> (r: (Vec<Message>, bool))
        ensures
            (final(self).irc_state@, views(r.0@), r.1) == sasl_failed(
                old(self).irc_state@,
                old(self).server.sasl.terminate_failed,
            ),
            final(self).server == old(self).server,
            final(self).ctcp_event == old(self).ctcp_event,
            final(self).privmsg_event == old(self).privmsg_event,
    {
        let mut out: Vec<Message> = Vec::new();
        if !self.irc_state.negotiating_sasl {
            return (out, false);
        }
        self.irc_state.negotiating_sasl = false;
        if self.server.sasl.terminate_failed {
            out.push(message1("QUIT", "SASL Authentication failed".to_owned()));
            (out, true)
        } else {
            out.push(self.finish_cap());
            (out, false)
        }
    }

    /// Takes the numeric that reports a successful authentication: see
    /// `sasl_succeeded`.
    pub fn handle_authenticate_success(&mut self) -> (out: Vec<Message>)
        ensures
            (final(self).irc_state@, views(out@)) == sasl_succeeded(old(self).irc_state@),
            final(self).server == old(self).server,
            final(self).ctcp_event == old(self).ctcp_event,
            final(self).privmsg_event == old(self).privmsg_event,
    {
        let mut out: Vec<Message> = Vec::new();
        if self.irc_state.negotiating_sasl {
            self.irc_state.negotiating_sasl = false;
            out.push(self.finish_cap());
        }
        out
    }

    /// The message that closes the capability negotiation.
    pub fn finish_cap(&self) -> (m: Message)
        ensures
            m@ == cap_end(),
    {
        message1("CAP", "END".to_owned())
    }

    /// The end of the message of the day asks for nothing.
    pub fn handle_end_motd(&self, _message: &Message) -> (out: Vec<Message>)
        ensures
            out@.len() == 0,
    {
        Vec::new()
    }

    /// Reacts to a change of mode: see `mode_step`.
    pub fn handle_mode(&self, message: &Message) -> (out: Vec<Message>)
        ensures
            views(out@) == mode_step(self.server, message@),
    {
        let mut out: Vec<Message> = Vec::new();
        if message.params.len() < 2 {
            return out;
        }
        let mode = crate::text::chars_of(message.params[1].as_str());
        if mode.len() == 0 || mode[0] != '+' {
            return out;
        }
        let mut k: usize = 1;
        let mut found = false;
        while k < mode.len() && !found
            invariant
                1 <= k <= mode.len(),
                found ==> mode@.skip(1).contains('r'),
                !found ==> forall|j: int| 1 <= j < k ==> mode@[j] != 'r',
            decreases mode.len() - k, if found { 0int } else { 1int },
        {
            if mode[k] == 'r' {
                found = true;
                assert(mode@.skip(1)[k - 1] == 'r');
            } else {
                k += 1;
            }
        }
        if !found {
            assert(!mode@.skip(1).contains('r')) by {
                if mode@.skip(1).contains('r') {
                    let j = choose|j: int| 0 <= j < mode@.skip(1).len() && mode@.skip(1)[j] == 'r';
                    assert(mode@[j + 1] == 'r');
                }
            }
            return out;
        }
        if self.server.use_hostserv {
            out.push(self.send_privmsg("HostServ".to_owned(), "ON".to_owned()));
        }
        let ghost head = views(out@);
        let mut i: usize = 0;
        while i < self.server.channels.len()
            invariant
                i <= self.server.channels.len(),
                views(out@) == head + join_messages(self.server.channels@).take(i as int),
            decreases self.server.channels.len() - i,
        {
            let ghost now = views(out@);
            let channel = &self.server.channels[i];
            let m = message2("JOIN", channel.name.clone(), channel.password.clone());
            out.push(m);
            assert(views(out@) =~= now.push(m@));
            i += 1;
        }
        out
    }

    /// Answers a `PING` with a `PONG` that carries the same parameters.
    pub fn handle_ping(&self, message: &Message) -> (m: Message)
        ensures
            m@ == plain("PONG"@, message@.params),
    {
        Message::new("PONG".to_owned(), copy_texts(&message.params))
    }

    /// The message that says `message` to `target`.
    pub fn send_privmsg(&self, target: String, message: String) -> (m: Message)
        ensures
            m@ == plain("PRIVMSG"@, seq![target@, message@]),
    {
        message2("PRIVMSG", target, message)
    }

    /// The message that notifies `target` of `message`.
    pub fn send_notice(&self, target: String, message: String) -> (m: Message)
        ensures
            m@ == plain("NOTICE"@, seq![target@, message@]),
    {
        message2("NOTICE", target, message)
    }

    /// The line that carries `message` on the wire: its wire form and the
    /// line ending.
    pub fn write_message(&self, message: &Message) -> (line: String)
        ensures
            line@ == wire_form(message@) + line_ending(),
    {
        let text = message.serialize();
        proof {
            reveal_strlit("\r\n");
        }
        followed_by(text.as_str(), "\r\n")
    }
}

/// The text of the SASL PLAIN credentials.
pub fn sasl_plain_text(user: &str, password: &str) -> (r: String)
    ensures
        r@ == sasl_plain(user@, password@),
{
    let mut r = user.to_owned();
    r.push('\0');
    r.append(user);
    r.push('\0');
    r.append(password);
    r
}

/// The handlers that a command may be routed to.
#[derive(Debug, Clone, Copy, PartialEq, Eq, Structural)]
pub enum Command {
    Cap,
    Authenticate,
    /// Numeric 904.
    SaslFailed,
    /// Numeric 903.
    SaslSucceeded,
    /// Numeric 376.
    EndOfMotd,
    Mode,
    PrivMsg,
    Ping,
    /// Known, and nothing to do.
    Ignored,
    Unknown,
}

/// The commands that are known and ask for nothing: the numerics of
/// welcome, statistics, message of the day, names, topic and who, and
/// `NOTICE` and `JOIN`.
pub open spec fn ignored_command(c: Seq<char>) -> bool {
    ||| c == "900"@
    ||| c == "NOTICE"@
    ||| c == "001"@
    ||| c == "002"@
    ||| c == "003"@
    ||| c == "004"@
    ||| c == "005"@
    ||| c == "251"@
    ||| c == "252"@
    ||| c == "253"@
    ||| c == "254"@
    ||| c == "255"@
    ||| c == "265"@
    ||| c == "266"@
    ||| c == "375"@
    ||| c == "372"@
    ||| c == "JOIN"@
    ||| c == "353"@
    ||| c == "366"@
    ||| c == "333"@
    ||| c == "332"@
    ||| c == "354"@
    ||| c == "315"@
}

/// The handler of a command, by its exact text.
pub open spec fn command_kind(c: Seq<char>) -> Command {
    if c == "CAP"@ {
        Command::Cap
    } else if c == "AUTHENTICATE"@ {
        Command::Authenticate
    } else if c == "904"@ {
        Command::SaslFailed
    } else if c == "903"@ {
        Command::SaslSucceeded
    } else if c == "376"@ {
        Command::EndOfMotd
    } else if c == "MODE"@ {
        Command::Mode
    } else if c == "PRIVMSG"@ {
        Command::PrivMsg
    } else if c == "PING"@ {
        Command::Ping
    } else if ignored_command(c) {
        Command::Ignored
    } else {
        Command::Unknown
    }
}

/// Whether a command is known and asks for nothing.
fn is_ignored(c: &str) -> (r: bool)
    ensures
        r == ignored_command(c@),
{
    same_text(c, "900") || same_text(c, "NOTICE") || same_text(c, "001") || same_text(c, "002")
        || same_text(c, "003") || same_text(c, "004") || same_text(c, "005") || same_text(c, "251")
        || same_text(c, "252") || same_text(c, "253") || same_text(c, "254") || same_text(c, "255")
        || same_text(c, "265") || same_text(c, "266") || same_text(c, "375") || same_text(c, "372")
        || same_text(c, "JOIN") || same_text(c, "353") || same_text(c, "366") || same_text(c, "333")
        || same_text(c, "332") || same_text(c, "354") || same_text(c, "315")
}

/// The handler of a command.
pub fn classify(command: &str) -> (r: Command)
    ensures
        r == command_kind(command@),
{
    if same_text(command, "CAP") {
        Command::Cap
    } else if same_text(command, "AUTHENTICATE") {
        Command::Authenticate
    } else if same_text(command, "904") {
        Command::SaslFailed
    } else if same_text(command, "903") {
        Command::SaslSucceeded
    } else if same_text(command, "376") {
        Command::EndOfMotd
    } else if same_text(command, "MODE") {
        Command::Mode
    } else if same_text(command, "PRIVMSG") {
        Command::PrivMsg
    } else if same_text(command, "PING") {
        Command::Ping
    } else if is_ignored(command) {
        Command::Ignored
    } else {
        Command::Unknown
    }
}

/// Where the answer to a `PRIVMSG` goes: to the channel that it was
/// written in, or, where its target is no channel, to who wrote it.
pub open spec fn reply_target(m: MessageView) -> Seq<char>
    recommends
        m.params.len() > 0,
        m.prefix is Some,
{
    if channel_name(m.params[0]) {
        m.params[0]
    } else {
        m.prefix.unwrap().nick
    }
}

/// The command token of a CTCP text: the text without its delimiters, up
/// to the first space.
pub open spec fn ctcp_command(text: Seq<char>) -> Seq<char> {
    let body = without(text, '\u{1}');
    body.take(first_index(body, ' '))
}

/// What follows the command token of a CTCP text, without the white space
/// around it.
pub open spec fn ctcp_argument(text: Seq<char>) -> Seq<char> {
    let body = without(text, '\u{1}');
    trimmed(body.skip(first_index(body, ' ')))
}

/// A text between CTCP delimiters.
pub open spec fn ctcp_wrapped(text: Seq<char>) -> Seq<char> {
    seq!['\u{1}'] + text.push('\u{1}')
}

/// The notice that carries a CTCP response.
pub open spec fn ctcp_notice(r: CtcpResponseView) -> MessageView {
    plain("NOTICE"@, seq![r.target, ctcp_wrapped(r.message)])
}

/// What is done about a reply to a `PRIVMSG`: words are sent, a lookup is
/// handed on.
pub open spec fn reply_action(r: PrivMsgReplyView) -> ActionView {
    match r {
        PrivMsgReplyView::Response(x) => ActionView::Send(
            plain("PRIVMSG"@, seq![x.target, x.message]),
        ),
        PrivMsgReplyView::Lookup { target, host } => ActionView::Lookup { target, host },
    }
}

/// Whether `out` is what asking the CTCP responders in order may give: the
/// notice of the first one that answers, and nothing where none does.
pub open spec fn ctcp_dispatched<C: CtcpEvent>(
    events: Seq<C>,
    request: CtcpRequestView,
    out: Seq<ActionView>,
) -> bool {
    ||| out.len() == 0 && forall|j: int|
        0 <= j < events.len() ==> (#[trigger] events[j]).answers(request, None)
    ||| exists|i: int, response: CtcpResponseView|
        {
            &&& 0 <= i < events.len()
            &&& forall|j: int| 0 <= j < i ==> (#[trigger] events[j]).answers(request, None)
            &&& #[trigger] events[i].answers(request, Some(response))
            &&& out == seq![ActionView::Send(ctcp_notice(response))]
        }
}

/// Whether `out` is what asking the PRIVMSG responders in order may give:
/// one action for each that replies, in their order.
pub open spec fn privmsg_dispatched<P: PrivMsgEvent>(
    events: Seq<P>,
    request: PrivMsgRequestView,
    out: Seq<ActionView>,
) -> bool
    decreases events.len(),
{
    if events.len() == 0 {
        out.len() == 0
    } else {
        ||| events.last().answers(request, None) && privmsg_dispatched(
            events.drop_last(),
            request,
            out,
        )
        ||| out.len() > 0 && privmsg_dispatched(events.drop_last(), request, out.drop_last())
            && exists|reply: PrivMsgReplyView| #[trigger]
                events.last().answers(request, Some(reply)) && out.last() == reply_action(reply)
    }
}

/// Whether `out` is what a `PRIVMSG` may lead to. A message without a
/// sender or with fewer than two parameters leads to nothing. A text that
/// begins with the CTCP delimiter goes to the CTCP responders, any other
/// to the PRIVMSG responders.
pub open spec fn privmsg_handled<C: CtcpEvent, P: PrivMsgEvent>(
    server: Server,
    ctcp_event: Seq<C>,
    privmsg_event: Seq<P>,
    state: IrcStateView,
    m: MessageView,
    out: Seq<ActionView>,
) -> bool {
    if m.params.len() < 2 || m.prefix is None {
        out.len() == 0
    } else if ctcp_framed(m.params[1]) {
        ctcp_dispatched(
            ctcp_event,
            CtcpRequestView {
                server,
                irc_state: state,
                user: m.prefix.unwrap(),
                source: reply_target(m),
                command: ctcp_command(m.params[1]),
                message: ctcp_argument(m.params[1]),
            },
            out,
        )
    } else {
        privmsg_dispatched(
            privmsg_event,
            PrivMsgRequestView {
                server,
                irc_state: state,
                user: m.prefix.unwrap(),
                source: reply_target(m),
                message: m.params[1],
            },
            out,
        )
    }
}

/// Something about a line that the operator should be told. Nothing is
/// sent on its account.
#[derive(Debug, PartialEq, Eq)]
pub enum Remark {
    /// A wanted capability that the server does not offer.
    UnavailableCapability(String),
    /// A `CAP` subcommand that is neither a listing nor an acknowledgement.
    UnknownCapType(String),
    /// An `AUTHENTICATE` parameter that is not the challenge.
    UnknownAuthenticateType(String),
    AuthenticationFailed,
    AuthenticationSucceeded,
    /// A command that has no handler and is not known.
    UnknownCommand(String),
    /// A line that does not parse.
    MalformedLine(String),
}

pub ghost enum RemarkView {
    UnavailableCapability(Seq<char>),
    UnknownCapType(Seq<char>),
    UnknownAuthenticateType(Seq<char>),
    AuthenticationFailed,
    AuthenticationSucceeded,
    UnknownCommand(Seq<char>),
    MalformedLine(Seq<char>),
}

impl View for Remark {
    type V = RemarkView;

    open spec fn view(&self) -> RemarkView {
        match self {
            Remark::UnavailableCapability(c) => RemarkView::UnavailableCapability(c@),
            Remark::UnknownCapType(t) => RemarkView::UnknownCapType(t@),
            Remark::UnknownAuthenticateType(t) => RemarkView::UnknownAuthenticateType(t@),
            Remark::AuthenticationFailed => RemarkView::AuthenticationFailed,
            Remark::AuthenticationSucceeded => RemarkView::AuthenticationSucceeded,
            Remark::UnknownCommand(c) => RemarkView::UnknownCommand(c@),
            Remark::MalformedLine(l) => RemarkView::MalformedLine(l@),
        }
    }
}

/// How much a remark matters.
#[derive(Debug, Clone, Copy, PartialEq, Eq, Structural)]
pub enum Level {
    Error,
    Warning,
    Info,
}

/// The level of a remark: a failed authentication and a line that does
/// not parse are errors, a successful authentication is information, and
/// all that is unknown or unavailable is a warning.
pub open spec fn level_of(r: RemarkView) -> Level {
    match r {
        RemarkView::AuthenticationFailed => Level::Error,
        RemarkView::MalformedLine(_) => Level::Error,
        RemarkView::AuthenticationSucceeded => Level::Info,
        _ => Level::Warning,
    }
}

impl Remark {
    /// The level at which the remark is to be reported.
    pub fn level(&self) -> (l: Level)
        ensures
            l == level_of(self@),
    {
        match self {
            Remark::AuthenticationFailed => Level::Error,
            Remark::MalformedLine(_) => Level::Error,
            Remark::AuthenticationSucceeded => Level::Info,
            _ => Level::Warning,
        }
    }
}

/// The remarks that a vector holds, in order.
pub open spec fn remark_views(v: Seq<Remark>) -> Seq<RemarkView> {
    Seq::new(v.len(), |i: int| v[i]@)
}

/// The wanted capabilities that are not among the available ones, in the
/// order in which they are wanted.
pub open spec fn unavailable(wanted: Seq<Seq<char>>, available: Seq<Seq<char>>) -> Seq<Seq<char>> {
    wanted.filter(|c: Seq<char>| !available.contains(c))
}

/// One remark for each capability that is not offered.
pub open spec fn unavailable_remarks(caps: Seq<Seq<char>>) -> Seq<RemarkView> {
    Seq::new(caps.len(), |i: int| RemarkView::UnavailableCapability(caps[i]))
}

/// What there is to remark on a message that reaches a session in state
/// `s`, before the message changes the session. During the negotiation:
/// each wanted capability that a listing lacks, and a `CAP` subcommand
/// that is unknown. During authentication: a parameter that is not the
/// challenge, and the numerics of failure and success. At any time: an
/// unknown command.
pub open spec fn remarks_on(s: IrcStateView, m: MessageView) -> Seq<RemarkView> {
    match command_kind(m.command) {
        Command::Cap => if !s.negotiating_cap || m.params.len() < 2 {
            Seq::empty()
        } else if m.params[1] == "LS"@ {
            if m.params.len() >= 3 {
                unavailable_remarks(unavailable(s.cap_requested, tokens(m.params[2])))
            } else {
                Seq::empty()
            }
        } else if m.params[1] == "ACK"@ {
            Seq::empty()
        } else {
            seq![RemarkView::UnknownCapType(m.params[1])]
        },
        Command::Authenticate => if s.negotiating_sasl && m.params.len() > 0 && m.params[0]
            != "+"@ {
            seq![RemarkView::UnknownAuthenticateType(m.params[0])]
        } else {
            Seq::empty()
        },
        Command::SaslFailed => if s.negotiating_sasl {
            seq![RemarkView::AuthenticationFailed]
        } else {
            Seq::empty()
        },
        Command::SaslSucceeded => if s.negotiating_sasl {
            seq![RemarkView::AuthenticationSucceeded]
        } else {
            Seq::empty()
        },
        Command::Unknown => seq![RemarkView::UnknownCommand(m.command)],
        _ => Seq::empty(),
    }
}

/// What handling one line asks of the connection's owner.
#[derive(Debug, PartialEq, Eq)]
pub struct Outcome {
    /// What to do, in this order.
    pub actions: Vec<Action>,
    /// What to tell the operator.
    pub remarks: Vec<Remark>,
    /// Whether the connection is to end once that is done.
    pub fatal: bool,
}

pub ghost struct OutcomeView {
    pub actions: Seq<ActionView>,
    pub remarks: Seq<RemarkView>,
    pub fatal: bool,
}

impl View for Outcome {
    type V = OutcomeView;

    open spec fn view(&self) -> OutcomeView {
        OutcomeView {
            actions: action_views(self.actions@),
            remarks: remark_views(self.remarks@),
            fatal: self.fatal,
        }
    }
}

/// Whether a session in state `before` may go to `after` with `out` on the
/// message `m`. What there is to remark is decided by the state before.
/// All but the responders' answers is decided by the message:
/// each command has its handler, known commands without one and unknown
/// commands change and send nothing, and only a failed authentication can
/// end the connection.
pub open spec fn dispatched<C: CtcpEvent, P: PrivMsgEvent>(
    server: Server,
    ctcp_event: Seq<C>,
    privmsg_event: Seq<P>,
    before: IrcStateView,
    m: MessageView,
    after: IrcStateView,
    out: OutcomeView,
) -> bool {
    &&& out.remarks == remarks_on(before, m)
    &&& match command_kind(m.command) {
        Command::Cap => {
            let step = cap_step(before, server.sasl.enabled, m);
            after == step.0 && out.actions == sends(step.1) && !out.fatal
        },
        Command::Authenticate => after == before && out.actions == sends(
            authenticate_step(before, server, m),
        ) && !out.fatal,
        Command::SaslFailed => {
            let step = sasl_failed(before, server.sasl.terminate_failed);
            after == step.0 && out.actions == sends(step.1) && out.fatal == step.2
        },
        Command::SaslSucceeded => {
            let step = sasl_succeeded(before);
            after == step.0 && out.actions == sends(step.1) && !out.fatal
        },
        Command::Mode => after == before && out.actions == sends(mode_step(server, m))
            && !out.fatal,
        Command::Ping => after == before && out.actions == sends(seq![plain("PONG"@, m.params)])
            && !out.fatal,
        Command::PrivMsg => after == before && !out.fatal && privmsg_handled(
            server,
            ctcp_event,
            privmsg_event,
            before,
            m,
            out.actions,
        ),
        _ => after == before && out.actions == Seq::<ActionView>::empty() && !out.fatal,
    }
}

/// What is sent before the first line is looked at: the burst, where the
/// session has not sent it yet.
pub open spec fn opening(server: Server, s: IrcStateView) -> Seq<ActionView> {
    if s.initial_connection {
        sends(registration_burst(server))
    } else {
        Seq::empty()
    }
}

/// The session once `opening` is sent.
pub open spec fn opened(s: IrcStateView) -> IrcStateView {
    if s.initial_connection {
        after_burst(s)
    } else {
        s
    }
}

/// Whether a session in state `before` may go to `after` with `out` on the
/// line `line`: first the opening, then, where the line parses, what its
/// message leads to. A line that does not parse is remarked on and passed
/// over.
pub open spec fn handled<C: CtcpEvent, P: PrivMsgEvent>(
    server: Server,
    ctcp_event: Seq<C>,
    privmsg_event: Seq<P>,
    before: IrcStateView,
    line: Seq<char>,
    after: IrcStateView,
    out: OutcomeView,
) -> bool {
    let first = opening(server, before);
    &&& first.len() <= out.actions.len()
    &&& out.actions.take(first.len() as int) == first
    &&& match parsed_line(line) {
        Some(m) => dispatched(
            server,
            ctcp_event,
            privmsg_event,
            opened(before),
            m,
            after,
            OutcomeView { actions: out.actions.skip(first.len() as int), ..out },
        ),
        None => after == opened(before) && out.actions.len() == first.len() && out.remarks
            == seq![RemarkView::MalformedLine(line)] && !out.fatal,
    }
}

/// The actions that send the given messages.
fn as_actions(messages: Vec<Message>) -> (out: Vec<Action>)
    ensures
        action_views(out@) == sends(views(messages@)),
{
    let mut out: Vec<Action> = Vec::new();
    let ghost all = messages@;
    for m in it: messages
        invariant
            it.seq() == all,
            out@.len() == it.index(),
            forall|k: int| 0 <= k < out@.len() ==> (#[trigger] out@[k])@ == ActionView::Send(all[k]@),
    {
        out.push(Action::Send(m));
    }
    out
}

/// The one action that sends `m`.
fn one_action(m: Message) -> (out: Vec<Action>)
    ensures
        action_views(out@) == sends(seq![m@]),
{
    let mut out: Vec<Action> = Vec::new();
    out.push(Action::Send(m));
    out
}

impl<C: CtcpEvent, P: PrivMsgEvent> IrcHandler<C, P> {
    /// Where the answer to a `PRIVMSG` goes, if the message has a target
    /// and a sender: see `reply_target`.
    pub fn reply_target(message: &Message) -> (r: Option<String>)
        ensures
            r is Some <==> message@.params.len() > 0 && message@.prefix is Some,
            r matches Some(t) ==> t@ == reply_target(message@),
    {
        if message.params.len() == 0 {
            return None;
        }
        match &message.prefix {
            Some(user) => {
                if message.params[0].is_channel_name() {
                    Some(message.params[0].clone())
                } else {
                    Some(user.nick.clone())
                }
            },
            None => None,
        }
    }

    /// Asks the CTCP responders, in order, about a CTCP text.
    fn ask_ctcp(&self, user: &crate::message::Prefix, source: &String, text: &str) -> (out: Vec<
        Action,
    >)
        ensures
            ctcp_dispatched(
                self.ctcp_event@,
                CtcpRequestView {
                    server: self.server,
                    irc_state: self.irc_state@,
                    user: user@,
                    source: source@,
                    command: ctcp_command(text@),
                    message: ctcp_argument(text@),
                },
                action_views(out@),
            ),
    {
        let body = remove_char(text, '\u{1}');
        let v = chars_of(body.as_str());
        assert(v@.skip(0) == v@);
        let j = find_from(&v, 0, ' ');
        let command = slice_text(&v, 0, j);
        let argument = trim_from(&v, j);
        let ghost request = CtcpRequestView {
            server: self.server,
            irc_state: self.irc_state@,
            user: user@,
            source: source@,
            command: ctcp_command(text@),
            message: ctcp_argument(text@),
        };
        let mut out: Vec<Action> = Vec::new();
        let mut i: usize = 0;
        while i < self.ctcp_event.len()
            invariant
                i <= self.ctcp_event.len(),
                out@.len() == 0,
                command@ == request.command,
                argument@ == request.message,
                request == (CtcpRequestView {
                    server: self.server,
                    irc_state: self.irc_state@,
                    user: user@,
                    source: source@,
                    command: ctcp_command(text@),
                    message: ctcp_argument(text@),
                }),
                forall|j: int| 0 <= j < i ==> (#[trigger] self.ctcp_event@[j]).answers(request, None),
            decreases self.ctcp_event.len() - i,
        {
            let asked = CtcpRequest {
                server: &self.server,
                irc_state: &self.irc_state,
                user,
                source,
                command: &command,
                message: &argument,
            };
            match self.ctcp_event[i].execute(asked) {
                Some(response) => {
                    let ghost said = response@;
                    let mut wrapped = String::new();
                    wrapped.push('\u{1}');
                    wrapped.append(response.message.as_str());
                    wrapped.push('\u{1}');
                    let notice = self.send_notice(response.target, wrapped);
                    out.push(Action::Send(notice));
                    assert(action_views(out@) =~= seq![ActionView::Send(ctcp_notice(said))]);
                    return out;
                },
                None => {},
            }
            i += 1;
        }
        out
    }

    /// Asks the PRIVMSG responders, in order, about a text.
    fn ask_privmsg(&self, user: &crate::message::Prefix, source: &String, text: &String) -> (out:
        Vec<Action>)
        ensures
            privmsg_dispatched(
                self.privmsg_event@,
                PrivMsgRequestView {
                    server: self.server,
                    irc_state: self.irc_state@,
                    user: user@,
                    source: source@,
                    message: text@,
                },
                action_views(out@),
            ),
    {
        let ghost request = PrivMsgRequestView {
            server: self.server,
            irc_state: self.irc_state@,
            user: user@,
            source: source@,
            message: text@,
        };
        let mut out: Vec<Action> = Vec::new();
        let mut i: usize = 0;
        while i < self.privmsg_event.len()
            invariant
                i <= self.privmsg_event.len(),
                request == (PrivMsgRequestView {
                    server: self.server,
                    irc_state: self.irc_state@,
                    user: user@,
                    source: source@,
                    message: text@,
                }),
                privmsg_dispatched(self.privmsg_event@.take(i as int), request, action_views(out@)),
            decreases self.privmsg_event.len() - i,
        {
            let ghost events = self.privmsg_event@.take(i + 1);
            let ghost before = action_views(out@);
            assert(events.drop_last() == self.privmsg_event@.take(i as int));
            let asked = PrivMsgRequest {
                server: &self.server,
                irc_state: &self.irc_state,
                user,
                source,
                message: text,
            };
            match self.privmsg_event[i].execute(asked) {
                Some(PrivMsgReply::Response(response)) => {
                    out.push(Action::Send(self.send_privmsg(response.target, response.message)));
                    assert(action_views(out@).drop_last() == before);
                },
                Some(PrivMsgReply::Lookup(query)) => {
                    out.push(Action::Lookup(query));
                    assert(action_views(out@).drop_last() == before);
                },
                None => {},
            }
            i += 1;
        }
        assert(self.privmsg_event@.take(self.privmsg_event.len() as int) == self.privmsg_event@);
        out
    }

    /// Takes one `PRIVMSG`: see `privmsg_handled`.
    pub fn handle_privmsg(&self, message: &Message) -> (out: Vec<Action>)
        ensures
            privmsg_handled(
                self.server,
                self.ctcp_event@,
                self.privmsg_event@,
                self.irc_state@,
                message@,
                action_views(out@),
            ),
    {
        if message.params.len() < 2 {
            return Vec::new();
        }
        let user = match &message.prefix {
            Some(user) => user,
            None => {
                return Vec::new();
            },
        };
        let source = if message.params[0].is_channel_name() {
            message.params[0].clone()
        } else {
            user.nick.clone()
        };
        let msg = &message.params[1];
        if msg.is_ctcp() {
            self.ask_ctcp(user, &source, msg.as_str())
        } else {
            self.ask_privmsg(user, &source, msg)
        }
    }

    /// What there is to remark on a message: see `remarks_on`.
    pub fn remarks(&self, message: &Message) -> (out: Vec<Remark>)
        ensures
            remark_views(out@) == remarks_on(self.irc_state@, message@),
    {
        let mut out: Vec<Remark> = Vec::new();
        assert(remark_views(out@) =~= Seq::empty());
        match classify(message.command.as_str()) {
            Command::Cap => {
                if self.irc_state.negotiating_cap && message.params.len() >= 2 {
                    if same_text(message.params[1].as_str(), "LS") {
                        if message.params.len() >= 3 {
                            let available_caps = words(message.params[2].as_str());
                            let ghost available = texts(available_caps@);
                            let ghost wanted = texts(self.irc_state.cap_requested@);
                            let mut i: usize = 0;
                            assert(wanted.take(0) =~= Seq::empty());
                            assert(unavailable_remarks(unavailable(wanted.take(0), available))
                                =~= Seq::empty()) by {
                                reveal(Seq::filter);
                            }
                            while i < self.irc_state.cap_requested.len()
                                invariant
                                    i <= self.irc_state.cap_requested.len(),
                                    available == texts(available_caps@),
                                    wanted == texts(self.irc_state.cap_requested@),
                                    remark_views(out@) == unavailable_remarks(
                                        unavailable(wanted.take(i as int), available),
                                    ),
                                decreases self.irc_state.cap_requested.len() - i,
                            {
                                let ghost now = remark_views(out@);
                                let ghost done = unavailable(wanted.take(i as int), available);
                                proof {
                                    assert(wanted.take(i + 1).drop_last() == wanted.take(i as int));
                                    reveal(Seq::filter);
                                }
                                if !holds(&available_caps, self.irc_state.cap_requested[i].as_str()) {
                                    out.push(
                                        Remark::UnavailableCapability(
                                            self.irc_state.cap_requested[i].clone(),
                                        ),
                                    );
                                    assert(remark_views(out@) =~= now.push(
                                        RemarkView::UnavailableCapability(wanted[i as int]),
                                    ));
                                    assert(unavailable_remarks(done.push(wanted[i as int]))
                                        =~= unavailable_remarks(done).push(
                                        RemarkView::UnavailableCapability(wanted[i as int]),
                                    ));
                                }
                                i += 1;
                            }
                            assert(wanted.take(wanted.len() as int) == wanted);
                        }
                    } else if same_text(message.params[1].as_str(), "ACK") {
                    } else {
                        out.push(Remark::UnknownCapType(message.params[1].clone()));
                        assert(remark_views(out@) =~= seq![
                            RemarkView::UnknownCapType(message@.params[1]),
                        ]);
                    }
                }
            },
            Command::Authenticate => {
                if self.irc_state.negotiating_sasl && message.params.len() > 0 && !same_text(
                    message.params[0].as_str(),
                    "+",
                ) {
                    out.push(Remark::UnknownAuthenticateType(message.params[0].clone()));
                    assert(remark_views(out@) =~= seq![
                        RemarkView::UnknownAuthenticateType(message@.params[0]),
                    ]);
                }
            },
            Command::SaslFailed => {
                if self.irc_state.negotiating_sasl {
                    out.push(Remark::AuthenticationFailed);
                    assert(remark_views(out@) =~= seq![RemarkView::AuthenticationFailed]);
                }
            },
            Command::SaslSucceeded => {
                if self.irc_state.negotiating_sasl {
                    out.push(Remark::AuthenticationSucceeded);
                    assert(remark_views(out@) =~= seq![RemarkView::AuthenticationSucceeded]);
                }
            },
            Command::Unknown => {
                out.push(Remark::UnknownCommand(message.command.clone()));
                assert(remark_views(out@) =~= seq![RemarkView::UnknownCommand(message@.command)]);
            },
            _ => {},
        }
        out
    }

    /// Routes one message to its handler: see `dispatched`.
    pub fn dispatch(&mut self, message: &Message) -> (out: Outcome)
        ensures
            dispatched(
                old(self).server,
                old(self).ctcp_event@,
                old(self).privmsg_event@,
                old(self).irc_state@,
                message@,
                final(self).irc_state@,
                out@,
            ),
            final(self).server == old(self).server,
            final(self).ctcp_event == old(self).ctcp_event,
            final(self).privmsg_event == old(self).privmsg_event,
    {
        let remarks = self.remarks(message);
        match classify(message.command.as_str()) {
            Command::Cap => {
                let sent = self.handle_cap(message);
                Outcome { actions: as_actions(sent), remarks, fatal: false }
            },
            Command::Authenticate => {
                let sent = self.handle_authenticate(message);
                Outcome { actions: as_actions(sent), remarks, fatal: false }
            },
            Command::SaslFailed => {
                let (sent, fatal) = self.handle_authenticate_fail();
                Outcome { actions: as_actions(sent), remarks, fatal }
            },
            Command::SaslSucceeded => {
                let sent = self.handle_authenticate_success();
                Outcome { actions: as_actions(sent), remarks, fatal: false }
            },
            Command::EndOfMotd => {
                let sent = self.handle_end_motd(message);
                let out = Outcome { actions: as_actions(sent), remarks, fatal: false };
                assert(out@.actions =~= Seq::empty());
                out
            },
            Command::Mode => {
                let sent = self.handle_mode(message);
                Outcome { actions: as_actions(sent), remarks, fatal: false }
            },
            Command::PrivMsg => {
                Outcome { actions: self.handle_privmsg(message), remarks, fatal: false }
            },
            Command::Ping => {
                Outcome { actions: one_action(self.handle_ping(message)), remarks, fatal: false }
            },
            Command::Ignored | Command::Unknown => {
                let out = Outcome { actions: Vec::new(), remarks, fatal: false };
                assert(out@.actions =~= Seq::empty());
                out
            },
        }
    }

    /// Takes one line from the server: see `handled`.
    pub fn handle(&mut self, line: &str) -> (out: Outcome)
        ensures
            handled(
                old(self).server,
                old(self).ctcp_event@,
                old(self).privmsg_event@,
                old(self).irc_state@,
                line@,
                final(self).irc_state@,
                out@,
            ),
            final(self).server == old(self).server,
            final(self).ctcp_event == old(self).ctcp_event,
            final(self).privmsg_event == old(self).privmsg_event,
    {
        let ghost first = opening(self.server, self.irc_state@);
        let mut actions: Vec<Action> = if self.irc_state.initial_connection {
            let burst = self.handle_initial_connection();
            as_actions(burst)
        } else {
            let none: Vec<Action> = Vec::new();
            assert(action_views(none@) =~= Seq::empty());
            none
        };
        match Message::parse(line) {
            Some(message) => {
                let mut rest = self.dispatch(&message);
                let ghost tail = action_views(rest.actions@);
                actions.append(&mut rest.actions);
                assert(action_views(actions@) =~= first + tail);
                assert((first + tail).take(first.len() as int) =~= first);
                assert((first + tail).skip(first.len() as int) =~= tail);
                Outcome { actions, remarks: rest.remarks, fatal: rest.fatal }
            },
            None => {
                assert(first.take(first.len() as int) =~= first);
                let mut remarks: Vec<Remark> = Vec::new();
                remarks.push(Remark::MalformedLine(line.to_owned()));
                assert(remark_views(remarks@) =~= seq![RemarkView::MalformedLine(line@)]);
                Outcome { actions, remarks, fatal: false }
            },
        }
    }
}

/// The engine for a new connection to `server`: a fresh session that wants
/// the server's capabilities, and the registries that its settings ask
/// for.
pub fn handler_for(server: Server) -> (h: IrcHandler<CtcpPlugin, PrivMsgPlugin>)
    ensures
        h.server == server,
        h.irc_state@ == fresh_state(wanted_capabilities(server)),
        is_ctcp_registry(server.ctcp, h.ctcp_event@),
        is_privmsg_registry(texts(server.privmsg_plugins@), h.privmsg_event@),
{
    let irc_state = IrcState::for_server(&server);
    let ctcp_event = ctcp_plugins(&server.ctcp);
    let privmsg_event = privmsg_plugins(&server.privmsg_plugins);
    IrcHandler { server, irc_state, ctcp_event, privmsg_event }
}

} // verus!

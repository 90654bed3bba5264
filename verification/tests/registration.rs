use jomp16_bot_own::config::ChannelConfig;
use jomp16_bot_own::config::CtcpConfig;
use jomp16_bot_own::config::IrcConfig;
use jomp16_bot_own::config::NickServConfig;
use jomp16_bot_own::config::SaslConfig;
use jomp16_bot_own::config::Server;
use jomp16_bot_own::config::UserData;
use jomp16_bot_own::ctcp::CtcpPlugin;
use jomp16_bot_own::irc_handler::handler_for;
use jomp16_bot_own::irc_handler::sasl_plain_text;
use jomp16_bot_own::irc_handler::Action;
use jomp16_bot_own::irc_handler::IrcHandler;
use jomp16_bot_own::irc_handler::Remark;
use jomp16_bot_own::irc_state::IrcState;
use jomp16_bot_own::message::Message;
use jomp16_bot_own::privmsg::PrivMsgPlugin;

type Handler = IrcHandler<CtcpPlugin, PrivMsgPlugin>;

fn strings(items: &[&str]) -> Vec<String> {
    items.iter().map(|s| s.to_string()).collect()
}

fn server() -> Server {
    Server {
        user_data: UserData {
            nickname: "bot".to_string(),
            username: "botuser".to_string(),
            realname: "A Bot".to_string(),
        },
        hostname: "irc.example.org".to_string(),
        port: 6697,
        password: String::new(),
        use_tls: true,
        use_hostserv: false,
        sasl: SaslConfig {
            enabled: false,
            user: "bob".to_string(),
            password: "pw".to_string(),
            terminate_failed: false,
        },
        nickserv: NickServConfig { enabled: false, password: String::new() },
        ctcp: CtcpConfig {
            enabled: strings(&["VERSION", "PING"]),
            version: "bot 1.0".to_string(),
            source: "https://example.org/bot".to_string(),
        },
        channels: vec![ChannelConfig { name: "#chan".to_string(), password: String::new() }],
        privmsg_plugins: vec![],
    }
}

fn sasl_server(terminate_failed: bool) -> Server {
    let mut s = server();
    s.sasl.enabled = true;
    s.sasl.terminate_failed = terminate_failed;
    s
}

fn wire(messages: &[Message]) -> Vec<String> {
    messages.iter().map(|m| m.serialize()).collect()
}

fn sent(actions: &[Action]) -> Vec<String> {
    actions
        .iter()
        .map(|a| match a {
            Action::Send(m) => m.serialize(),
            Action::Lookup(q) => format!("lookup {} for {}", q.host, q.target),
        })
        .collect()
}

fn negotiating(server: Server) -> Handler {
    let mut h = handler_for(server);
    h.handle_initial_connection();
    h
}

fn cap(sub: &str, list: &str) -> Message {
    Message::new("CAP".to_string(), strings(&["*", sub, list]))
}

#[test]
fn default_state_wants_the_base_capabilities() {
    let s = IrcState::default();
    assert!(s.initial_connection);
    assert!(!s.negotiating_cap);
    assert!(!s.negotiating_sasl);
    assert!(!s.sent_user);
    assert_eq!(s.cap_requested, strings(&["multi-prefix", "userhost-in-names"]));
    assert!(s.cap_negotiated.is_empty());
    assert!(s.cap_accepted.is_empty());
    assert!(!s.is_registered());
}

#[test]
fn session_wants_sasl_only_where_enabled() {
    assert_eq!(
        IrcState::for_server(&server()).cap_requested,
        strings(&["multi-prefix", "userhost-in-names"])
    );
    let s = IrcState::for_server(&sasl_server(false));
    assert_eq!(s.cap_requested, strings(&["multi-prefix", "userhost-in-names", "sasl"]));
    assert!(s.initial_connection);
    assert!(s.cap_negotiated.is_empty());
}

#[test]
fn settings_without_servers_have_nothing_to_run() {
    assert!(!IrcConfig { servers: vec![] }.has_servers());
    assert!(IrcConfig { servers: vec![server()] }.has_servers());
}

#[test]
fn burst_without_password() {
    let mut h = handler_for(server());
    let out = h.handle_initial_connection();
    assert_eq!(wire(&out), strings(&["CAP LS :302", "NICK :bot", "USER bot 0 * :A Bot"]));
    assert!(!h.irc_state.initial_connection);
    assert!(h.irc_state.negotiating_cap);
    assert!(!h.irc_state.negotiating_sasl);
}

#[test]
fn burst_with_password() {
    let mut s = server();
    s.password = "hunter2".to_string();
    let mut h = handler_for(s);
    let out = h.handle_initial_connection();
    assert_eq!(
        wire(&out),
        strings(&["CAP LS :302", "PASS :hunter2", "NICK :bot", "USER bot 0 * :A Bot"])
    );
}

#[test]
fn first_line_is_preceded_by_the_burst() {
    let mut h = handler_for(server());
    let out = h.handle(":irc.example.org NOTICE * :*** Looking up your hostname");
    assert_eq!(sent(&out.actions), strings(&["CAP LS :302", "NICK :bot", "USER bot 0 * :A Bot"]));
    assert!(!out.fatal);
    assert!(h.irc_state.negotiating_cap);
    let again = h.handle(":irc.example.org NOTICE * :*** Found your hostname");
    assert!(again.actions.is_empty());
}

#[test]
fn first_line_is_handled_after_the_burst() {
    let mut h = handler_for(server());
    let out = h.handle("PING :abc");
    assert_eq!(
        sent(&out.actions),
        strings(&["CAP LS :302", "NICK :bot", "USER bot 0 * :A Bot", "PONG :abc"])
    );
}

#[test]
fn listing_negotiates_wanted_and_offered_in_wanted_order() {
    let mut h = negotiating(sasl_server(false));
    let out = h.handle_cap(&cap("LS", "sasl account-notify userhost-in-names multi-prefix"));
    assert_eq!(h.irc_state.cap_negotiated, strings(&["multi-prefix", "userhost-in-names", "sasl"]));
    assert_eq!(wire(&out), strings(&["CAP REQ :multi-prefix userhost-in-names sasl"]));
    assert!(h.irc_state.negotiating_cap);
}

#[test]
fn listing_leaves_out_what_is_not_offered() {
    let mut h = negotiating(sasl_server(false));
    let out = h.handle_cap(&cap("LS", "sasl away-notify"));
    assert_eq!(h.irc_state.cap_negotiated, strings(&["sasl"]));
    assert_eq!(wire(&out), strings(&["CAP REQ :sasl"]));
}

#[test]
fn listing_with_nothing_wanted_requests_nothing() {
    let mut h = negotiating(server());
    let out = h.handle_cap(&cap("LS", "away-notify"));
    assert!(h.irc_state.cap_negotiated.is_empty());
    assert_eq!(wire(&out), strings(&["CAP REQ :"]));
}

#[test]
fn listing_with_tabs_and_repeated_spaces() {
    let mut h = negotiating(sasl_server(false));
    let out = h.handle_cap(&cap("LS", " sasl\taway-notify  multi-prefix "));
    assert_eq!(h.irc_state.cap_negotiated, strings(&["multi-prefix", "sasl"]));
    assert_eq!(wire(&out), strings(&["CAP REQ :multi-prefix sasl"]));
}

#[test]
fn empty_listing_offers_nothing() {
    let mut h = negotiating(server());
    let out = h.handle_cap(&cap("LS", ""));
    assert!(h.irc_state.cap_negotiated.is_empty());
    assert_eq!(wire(&out), strings(&["CAP REQ :"]));
    let out = h.handle_cap(&cap("ACK", " "));
    assert!(h.irc_state.cap_accepted.is_empty());
    assert_eq!(wire(&out), strings(&["CAP :END"]));
    assert!(!h.irc_state.negotiating_cap);
}

#[test]
fn acknowledgement_with_a_trailing_space_ends_the_negotiation() {
    let mut h = negotiating(server());
    h.handle_cap(&cap("LS", "multi-prefix"));
    assert_eq!(h.irc_state.cap_negotiated, strings(&["multi-prefix"]));
    let out = h.handle_cap(&cap("ACK", "multi-prefix "));
    assert_eq!(h.irc_state.cap_accepted, strings(&["multi-prefix"]));
    assert!(!h.irc_state.negotiating_cap);
    assert_eq!(wire(&out), strings(&["CAP :END"]));
}

#[test]
fn acknowledgement_with_tabs_and_repeated_spaces() {
    let mut h = negotiating(sasl_server(false));
    h.handle_cap(&cap("LS", "multi-prefix userhost-in-names sasl"));
    let out = h.handle_cap(&cap("ACK", "  multi-prefix\tuserhost-in-names   sasl\t"));
    assert_eq!(h.irc_state.cap_accepted, strings(&["multi-prefix", "userhost-in-names", "sasl"]));
    assert_eq!(h.irc_state.cap_negotiated, strings(&["multi-prefix", "userhost-in-names", "sasl"]));
    assert_eq!(h.irc_state.cap_requested, strings(&["multi-prefix", "userhost-in-names", "sasl"]));
    assert!(!h.irc_state.negotiating_cap);
    assert!(h.irc_state.negotiating_sasl);
    assert_eq!(wire(&out), strings(&["AUTHENTICATE :PLAIN"]));
}

#[test]
fn acknowledgement_line_with_a_trailing_space() {
    let mut h = negotiating(server());
    h.handle(":irc.example.org CAP * LS :multi-prefix ");
    let out = h.handle(":irc.example.org CAP bot ACK :multi-prefix ");
    assert_eq!(sent(&out.actions), strings(&["CAP :END"]));
    assert!(h.irc_state.is_registered());
}

#[test]
fn unavailable_capabilities_are_remarked_on() {
    let mut h = negotiating(sasl_server(false));
    let out = h.handle(":irc.example.org CAP * LS :userhost-in-names away-notify");
    assert_eq!(
        out.remarks,
        vec![
            Remark::UnavailableCapability("multi-prefix".to_string()),
            Remark::UnavailableCapability("sasl".to_string()),
        ]
    );
    assert_eq!(sent(&out.actions), strings(&["CAP REQ :userhost-in-names"]));
    let all = h.remarks(&cap("LS", "sasl multi-prefix userhost-in-names"));
    assert!(all.is_empty());
}

#[test]
fn unknown_negotiation_traffic_is_remarked_on() {
    let mut h = negotiating(sasl_server(false));
    assert_eq!(h.remarks(&cap("NAK", "sasl")), vec![Remark::UnknownCapType("NAK".to_string())]);
    assert_eq!(
        h.remarks(&Message::new("CAP".to_string(), strings(&["*", "LIST"]))),
        vec![Remark::UnknownCapType("LIST".to_string())]
    );
    assert!(h.remarks(&cap("ACK", "sasl")).is_empty());
    assert!(h.remarks(&Message::new("CAP".to_string(), strings(&["*", "LS"]))).is_empty());
    assert!(h.remarks(&Message::new("CAP".to_string(), strings(&["*"]))).is_empty());
    let odd = Message::new("AUTHENTICATE".to_string(), strings(&["PLAIN"]));
    assert!(h.remarks(&odd).is_empty());
    h.irc_state.negotiating_sasl = true;
    assert_eq!(h.remarks(&odd), vec![Remark::UnknownAuthenticateType("PLAIN".to_string())]);
    assert!(h.remarks(&Message::new("AUTHENTICATE".to_string(), strings(&["+"]))).is_empty());
    h.irc_state.negotiating_cap = false;
    assert!(h.remarks(&cap("NAK", "sasl")).is_empty());
}

#[test]
fn end_of_authentication_is_remarked_on() {
    for terminate in [false, true] {
        let mut h = negotiating(sasl_server(terminate));
        assert!(h.handle(":irc.example.org 904 bot :failed").remarks.is_empty());
        assert!(h.handle(":irc.example.org 903 bot :done").remarks.is_empty());
        h.irc_state.negotiating_sasl = true;
        let failed = h.handle(":irc.example.org 904 bot :failed");
        assert_eq!(failed.remarks, vec![Remark::AuthenticationFailed]);
        assert_eq!(failed.fatal, terminate);
        h.irc_state.negotiating_sasl = true;
        let done = h.handle(":irc.example.org 903 bot :done");
        assert_eq!(done.remarks, vec![Remark::AuthenticationSucceeded]);
    }
}

#[test]
fn listing_matches_whole_names_only() {
    let mut h = negotiating(sasl_server(false));
    h.handle_cap(&cap("LS", "sasl=PLAIN multi-prefix-2"));
    assert!(h.irc_state.cap_negotiated.is_empty());
}

#[test]
fn acknowledgement_of_all_ends_the_negotiation() {
    let mut h = negotiating(server());
    h.handle_cap(&cap("LS", "multi-prefix userhost-in-names"));
    let out = h.handle_cap(&cap("ACK", "multi-prefix userhost-in-names"));
    assert_eq!(h.irc_state.cap_accepted, strings(&["multi-prefix", "userhost-in-names"]));
    assert!(!h.irc_state.negotiating_cap);
    assert_eq!(wire(&out), strings(&["CAP :END"]));
    assert!(h.irc_state.is_registered());
}

#[test]
fn acknowledgements_in_two_messages_add_up() {
    let mut h = negotiating(server());
    h.handle_cap(&cap("LS", "multi-prefix userhost-in-names"));
    let first = h.handle_cap(&cap("ACK", "multi-prefix"));
    assert!(first.is_empty());
    assert!(h.irc_state.negotiating_cap);
    assert_eq!(h.irc_state.cap_accepted.len(), 1);
    let second = h.handle_cap(&cap("ACK", "userhost-in-names"));
    assert_eq!(wire(&second), strings(&["CAP :END"]));
    assert!(!h.irc_state.negotiating_cap);
    assert_eq!(h.irc_state.cap_accepted.len(), h.irc_state.cap_negotiated.len());
}

#[test]
fn acknowledgement_of_sasl_starts_authentication() {
    let mut h = negotiating(sasl_server(false));
    h.handle_cap(&cap("LS", "multi-prefix userhost-in-names sasl"));
    let out = h.handle_cap(&cap("ACK", "multi-prefix userhost-in-names sasl"));
    assert_eq!(wire(&out), strings(&["AUTHENTICATE :PLAIN"]));
    assert!(h.irc_state.negotiating_sasl);
    assert!(!h.irc_state.negotiating_cap);
    assert!(!h.irc_state.is_registered());
}

#[test]
fn acknowledged_sasl_is_not_used_where_disabled() {
    let mut h = negotiating(server());
    h.handle_cap(&cap("LS", "multi-prefix"));
    let out = h.handle_cap(&cap("ACK", "sasl"));
    assert_eq!(wire(&out), strings(&["CAP :END"]));
    assert!(!h.irc_state.negotiating_sasl);
}

#[test]
fn cap_outside_the_negotiation_is_passed_over() {
    let mut h = handler_for(server());
    let out = h.handle_cap(&cap("LS", "multi-prefix"));
    assert!(out.is_empty());
    assert!(h.irc_state.cap_negotiated.is_empty());
    assert!(h.irc_state.initial_connection);
}

#[test]
fn other_cap_messages_are_passed_over() {
    let mut h = negotiating(server());
    assert!(h.handle_cap(&cap("NAK", "multi-prefix")).is_empty());
    assert!(h.handle_cap(&cap("ls", "multi-prefix")).is_empty());
    assert!(h.handle_cap(&Message::new("CAP".to_string(), strings(&["*", "LS"]))).is_empty());
    assert!(h.handle_cap(&Message::new("CAP".to_string(), strings(&[]))).is_empty());
    assert!(h.irc_state.cap_negotiated.is_empty());
    assert!(h.irc_state.negotiating_cap);
}

#[test]
fn sasl_plain_payload_for_bob() {
    let mut h = negotiating(sasl_server(false));
    h.handle_cap(&cap("LS", "sasl"));
    h.handle_cap(&cap("ACK", "sasl"));
    let out = h.handle_authenticate(&Message::new("AUTHENTICATE".to_string(), strings(&["+"])));
    assert_eq!(out.len(), 1);
    assert_eq!(out[0].command, "AUTHENTICATE");
    assert_eq!(out[0].params, strings(&["Ym9iAGJvYgBwdw=="])); // bob\0bob\0pw
    assert_eq!(base64::decode(&out[0].params[0]).unwrap(), b"bob\0bob\0pw".to_vec());
}

#[test]
fn sasl_plain_payload_of_other_credentials() {
    let mut s = sasl_server(false);
    s.sasl.user = "j\u{f6}e".to_string();
    s.sasl.password = "s3cret".to_string();
    let mut h = negotiating(s);
    h.irc_state.negotiating_sasl = true;
    let out = h.handle_authenticate(&Message::new("AUTHENTICATE".to_string(), strings(&["+"])));
    assert_eq!(wire(&out), strings(&["AUTHENTICATE :asO2ZQBqw7ZlAHMzY3JldA=="]));
}

#[test]
fn sasl_plain_credentials_text() {
    assert_eq!(sasl_plain_text("bob", "pw"), "bob\0bob\0pw");
    assert_eq!(sasl_plain_text("", ""), "\0\0");
}

#[test]
fn authenticate_is_answered_only_to_the_challenge_and_while_authenticating() {
    let mut h = negotiating(sasl_server(false));
    let plus = Message::new("AUTHENTICATE".to_string(), strings(&["+"]));
    assert!(h.handle_authenticate(&plus).is_empty());
    h.irc_state.negotiating_sasl = true;
    assert!(h.handle_authenticate(&Message::new("AUTHENTICATE".to_string(), strings(&["PLAIN"]))).is_empty());
    assert!(h.handle_authenticate(&Message::new("AUTHENTICATE".to_string(), vec![])).is_empty());
    assert_eq!(h.handle_authenticate(&plus).len(), 1);
}

#[test]
fn failed_authentication_with_termination_quits() {
    let mut h = negotiating(sasl_server(true));
    h.irc_state.negotiating_sasl = true;
    let out = h.handle(":irc.example.org 904 bot :SASL authentication failed");
    assert_eq!(sent(&out.actions), strings(&["QUIT :SASL Authentication failed"]));
    assert!(out.fatal);
    assert!(!h.irc_state.negotiating_sasl);
}

#[test]
fn failed_authentication_without_termination_goes_on() {
    let mut h = negotiating(sasl_server(false));
    h.irc_state.negotiating_sasl = true;
    let out = h.handle(":irc.example.org 904 bot :SASL authentication failed");
    assert_eq!(sent(&out.actions), strings(&["CAP :END"]));
    assert!(!out.fatal);
    assert!(!h.irc_state.negotiating_sasl);
}

#[test]
fn failure_outside_authentication_is_passed_over() {
    let mut h = negotiating(sasl_server(true));
    let (out, fatal) = h.handle_authenticate_fail();
    assert!(out.is_empty());
    assert!(!fatal);
}

#[test]
fn successful_authentication_closes_the_negotiation() {
    let mut h = negotiating(sasl_server(true));
    h.irc_state.negotiating_sasl = true;
    let out = h.handle(":irc.example.org 903 bot :SASL authentication successful");
    assert_eq!(sent(&out.actions), strings(&["CAP :END"]));
    assert!(!out.fatal);
    assert!(!h.irc_state.negotiating_sasl);
    assert!(h.handle_authenticate_success().is_empty());
}

#[test]
fn whole_registration_with_sasl() {
    let mut h = handler_for(sasl_server(true));
    let mut log: Vec<String> = Vec::new();
    for line in [
        ":irc.example.org NOTICE * :*** Looking up your hostname",
        ":irc.example.org CAP * LS :account-notify multi-prefix sasl",
        ":irc.example.org CAP bot ACK :multi-prefix sasl",
        "AUTHENTICATE +",
        ":irc.example.org 900 bot bot!u@h bob :You are now logged in as bob",
        ":irc.example.org 903 bot :SASL authentication successful",
    ] {
        let out = h.handle(line);
        assert!(!out.fatal);
        log.extend(sent(&out.actions));
    }
    assert_eq!(
        log,
        strings(&[
            "CAP LS :302",
            "NICK :bot",
            "USER bot 0 * :A Bot",
            "CAP REQ :multi-prefix sasl",
            "AUTHENTICATE :PLAIN",
            "AUTHENTICATE :Ym9iAGJvYgBwdw==",
            "CAP :END",
        ])
    );
    assert!(h.irc_state.is_registered());
}

#[test]
fn finish_cap_is_cap_end() {
    let h = handler_for(server());
    let m = h.finish_cap();
    assert_eq!(m.command, "CAP");
    assert_eq!(m.params, strings(&["END"]));
}

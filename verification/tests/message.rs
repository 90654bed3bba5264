use jomp16_bot_own::message::Message;
use jomp16_bot_own::message::Prefix;

fn strings(items: &[&str]) -> Vec<String> {
    items.iter().map(|s| s.to_string()).collect()
}

#[test]
fn parse_reads_prefix_command_and_params() {
    let m = Message::parse(":nick!user@host PRIVMSG #chan :hello there").unwrap();
    assert_eq!(
        m.prefix,
        Some(Prefix {
            nick: "nick".to_string(),
            user: Some("user".to_string()),
            host: Some("host".to_string()),
        })
    );
    assert_eq!(m.command, "PRIVMSG");
    assert_eq!(m.params, strings(&["#chan", "hello there"]));
}

#[test]
fn parse_without_prefix() {
    let m = Message::parse("PING :irc.example.org").unwrap();
    assert_eq!(m.prefix, None);
    assert_eq!(m.command, "PING");
    assert_eq!(m.params, strings(&["irc.example.org"]));
}

#[test]
fn parse_drops_the_line_ending() {
    let crlf = Message::parse("CAP * LS :multi-prefix sasl\r\n").unwrap();
    let lf = Message::parse("CAP * LS :multi-prefix sasl\n").unwrap();
    let bare = Message::parse("CAP * LS :multi-prefix sasl").unwrap();
    assert_eq!(crlf, bare);
    assert_eq!(lf, bare);
    assert_eq!(bare.params, strings(&["*", "LS", "multi-prefix sasl"]));
}

#[test]
fn parse_server_name_prefix() {
    let m = Message::parse(":irc.example.org 001 bot :Welcome").unwrap();
    assert_eq!(
        m.prefix,
        Some(Prefix { nick: "irc.example.org".to_string(), user: None, host: None })
    );
    assert_eq!(m.command, "001");
    assert_eq!(m.params, strings(&["bot", "Welcome"]));
}

#[test]
fn parse_passes_over_message_tags() {
    let m = Message::parse("@time=2020-01-01T00:00:00Z :n!u@h PRIVMSG #c :hi").unwrap();
    assert_eq!(m.command, "PRIVMSG");
    assert_eq!(m.params, strings(&["#c", "hi"]));
    assert_eq!(m.prefix.unwrap().nick, "n");
}

#[test]
fn parse_of_an_empty_line_is_a_message_without_command() {
    let m = Message::parse("").unwrap();
    assert_eq!(m.command, "");
    assert!(m.params.is_empty());
    assert_eq!(m.prefix, None);
}

#[test]
fn serialize_writes_the_last_parameter_as_trailing() {
    assert_eq!(Message::new("CAP".to_string(), strings(&["LS", "302"])).serialize(), "CAP LS :302");
    assert_eq!(Message::new("NICK".to_string(), strings(&["bot"])).serialize(), "NICK :bot");
    assert_eq!(Message::new("QUIT".to_string(), strings(&[])).serialize(), "QUIT");
    assert_eq!(
        Message::new("USER".to_string(), strings(&["bot", "0", "*", "A Bot"])).serialize(),
        "USER bot 0 * :A Bot"
    );
    assert_eq!(Message::new("JOIN".to_string(), strings(&["#chan", ""])).serialize(), "JOIN #chan :");
}

#[test]
fn serialize_writes_the_prefix() {
    let full = Message {
        prefix: Some(Prefix {
            nick: "nick".to_string(),
            user: Some("user".to_string()),
            host: Some("host".to_string()),
        }),
        command: "PRIVMSG".to_string(),
        params: strings(&["#chan", "hello there"]),
    };
    assert_eq!(full.serialize(), ":nick!user@host PRIVMSG #chan :hello there");
    let host_only = Message {
        prefix: Some(Prefix { nick: "nick".to_string(), user: None, host: Some("host".to_string()) }),
        command: "AWAY".to_string(),
        params: vec![],
    };
    assert_eq!(host_only.serialize(), ":nick@host AWAY");
}

#[test]
fn serialize_then_parse_gives_the_message_back() {
    let m = Message {
        prefix: Some(Prefix {
            nick: "n".to_string(),
            user: Some("u".to_string()),
            host: Some("h".to_string()),
        }),
        command: "NOTICE".to_string(),
        params: strings(&["target", "\u{1}VERSION bot 1.0\u{1}"]),
    };
    assert_eq!(Message::parse(&m.serialize()), Some(m));
}

#[test]
fn new_has_no_prefix() {
    let m = Message::new("PONG".to_string(), strings(&["abc"]));
    assert_eq!(m.prefix, None);
    assert_eq!(m.command, "PONG");
    assert_eq!(m.params, strings(&["abc"]));
}

fn outside(m: &Message) -> String {
    let mut out = simple_irc::Message::new(m.command.clone(), m.params.clone());
    out.prefix = m.prefix.as_ref().map(|p| simple_irc::Prefix {
        nick: p.nick.clone(),
        user: p.user.clone(),
        host: p.host.clone(),
    });
    out.to_string()
}

#[test]
fn serialize_agrees_with_the_parser_crate() {
    let prefixes = [
        None,
        Some(Prefix { nick: "n".to_string(), user: None, host: None }),
        Some(Prefix { nick: "n".to_string(), user: Some("u".to_string()), host: None }),
        Some(Prefix { nick: "n".to_string(), user: None, host: Some("h".to_string()) }),
        Some(Prefix { nick: "".to_string(), user: Some("u".to_string()), host: Some("h".to_string()) }),
    ];
    let lists = [
        strings(&[]),
        strings(&[""]),
        strings(&["a"]),
        strings(&["a", "b"]),
        strings(&["a", "", "c d"]),
        strings(&[":a", "b c", ":d"]),
    ];
    for prefix in prefixes.iter() {
        for params in lists.iter() {
            for command in ["PRIVMSG", "001", ""] {
                let m = Message { prefix: prefix.clone(), command: command.to_string(), params: params.clone() };
                assert_eq!(m.serialize(), outside(&m));
            }
        }
    }
}


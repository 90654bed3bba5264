use jomp16_bot_own::config::CtcpConfig;
use jomp16_bot_own::config::NickServConfig;
use jomp16_bot_own::config::SaslConfig;
use jomp16_bot_own::config::Server;
use jomp16_bot_own::config::UserData;
use jomp16_bot_own::ctcp::ctcp_plugins;
use jomp16_bot_own::ctcp::ClientInfoCtcpResponse;
use jomp16_bot_own::ctcp::CtcpEvent;
use jomp16_bot_own::ctcp::CtcpPlugin;
use jomp16_bot_own::ctcp::CtcpRequest;
use jomp16_bot_own::ctcp::CtcpResponse;
use jomp16_bot_own::ctcp::FingerCtcpResponse;
use jomp16_bot_own::ctcp::PingCtcpResponse;
use jomp16_bot_own::ctcp::SourceCtcpResponse;
use jomp16_bot_own::ctcp::TimeCtcpResponse;
use jomp16_bot_own::ctcp::UserInfoCtcpResponse;
use jomp16_bot_own::ctcp::VersionCtcpResponse;
use jomp16_bot_own::geoip_response::ip_to_geoip;
use jomp16_bot_own::geoip_response::locate;
use jomp16_bot_own::geoip_response::AsnRecord;
use jomp16_bot_own::geoip_response::CityRecord;
use jomp16_bot_own::geoip_response::CountryRecord;
use jomp16_bot_own::geoip_response::GeoIpAsnResponse;
use jomp16_bot_own::geoip_response::GeoIpCityResponse;
use jomp16_bot_own::geoip_response::GeoIpDataResponse;
use jomp16_bot_own::geoip_response::GeoIpResponse;
use jomp16_bot_own::geoip_response::HostLookup;
use jomp16_bot_own::geoip_response::HostRecord;
use jomp16_bot_own::irc_state::IrcState;
use jomp16_bot_own::message::Prefix;
use jomp16_bot_own::privmsg::privmsg_plugins;
use jomp16_bot_own::privmsg::GeoIpPrivMsgEvent;
use jomp16_bot_own::privmsg::GeoIpQuery;
use jomp16_bot_own::privmsg::Iai55Chan;
use jomp16_bot_own::privmsg::PrivMsgEvent;
use jomp16_bot_own::privmsg::PrivMsgPlugin;
use jomp16_bot_own::privmsg::PrivMsgReply;
use jomp16_bot_own::privmsg::PrivMsgRequest;
use jomp16_bot_own::privmsg::PrivMsgResponse;

fn strings(items: &[&str]) -> Vec<String> {
    items.iter().map(|s| s.to_string()).collect()
}

fn server() -> Server {
    Server {
        user_data: UserData {
            nickname: "bot".to_string(),
            username: "botuser".to_string(),
            realname: "A Bot".to_string(),
        },
        hostname: "irc.example.org".to_string(),
        port: 6667,
        password: String::new(),
        use_tls: false,
        use_hostserv: false,
        sasl: SaslConfig {
            enabled: false,
            user: String::new(),
            password: String::new(),
            terminate_failed: false,
        },
        nickserv: NickServConfig { enabled: false, password: String::new() },
        ctcp: CtcpConfig {
            enabled: strings(&["VERSION", "TIME"]),
            version: "bot 1.0".to_string(),
            source: "https://example.org/bot".to_string(),
        },
        channels: vec![],
        privmsg_plugins: vec![],
    }
}

fn alice() -> Prefix {
    Prefix { nick: "alice".to_string(), user: Some("a".to_string()), host: Some("host".to_string()) }
}

fn ask(responder: &dyn CtcpEvent, command: &str, message: &str) -> Option<CtcpResponse> {
    let server = server();
    let state = IrcState::default();
    let user = alice();
    let source = "alice".to_string();
    let command = command.to_string();
    let message = message.to_string();
    responder.execute(CtcpRequest {
        server: &server,
        irc_state: &state,
        user: &user,
        source: &source,
        command: &command,
        message: &message,
    })
}

fn say(responder: &dyn PrivMsgEvent, source: &str, message: &str) -> Option<PrivMsgReply> {
    let server = server();
    let state = IrcState::default();
    let user = alice();
    let source = source.to_string();
    let message = message.to_string();
    responder.execute(PrivMsgRequest {
        server: &server,
        irc_state: &state,
        user: &user,
        source: &source,
        message: &message,
    })
}

fn to_alice(message: &str) -> Option<CtcpResponse> {
    Some(CtcpResponse { target: "alice".to_string(), message: message.to_string() })
}

fn mountain_view() -> HostRecord {
    HostRecord {
        ip: "8.8.8.8".to_string(),
        ptr: "dns.google".to_string(),
        city: Some(CityRecord {
            city: Some("Mountain View".to_string()),
            state: Some("California".to_string()),
            country: Some(CountryRecord {
                name: "United States".to_string(),
                iso_code: "US".to_string(),
            }),
        }),
        asn: Some(AsnRecord { number: 15169, organization: "GOOGLE".to_string() }),
    }
}

fn bare(ip: &str) -> HostRecord {
    HostRecord { ip: ip.to_string(), ptr: ip.to_string(), city: None, asn: None }
}

#[test]
fn version_responder() {
    assert_eq!(ask(&VersionCtcpResponse {}, "VERSION", ""), to_alice("VERSION bot 1.0"));
    assert_eq!(ask(&VersionCtcpResponse {}, "VERSION", "ignored"), to_alice("VERSION bot 1.0"));
    assert_eq!(ask(&VersionCtcpResponse {}, "version", ""), None);
    assert_eq!(ask(&VersionCtcpResponse {}, "PING", ""), None);
}

#[test]
fn ping_responder() {
    assert_eq!(ask(&PingCtcpResponse {}, "PING", "12345"), to_alice("PING 12345"));
    assert_eq!(ask(&PingCtcpResponse {}, "PING", ""), to_alice("PING "));
    assert_eq!(ask(&PingCtcpResponse {}, "PONG", "12345"), None);
}

#[test]
fn clientinfo_responder() {
    let r = ClientInfoCtcpResponse { available_ctcp: strings(&["CLIENTINFO", "PING", "TIME"]) };
    assert_eq!(ask(&r, "CLIENTINFO", ""), to_alice("CLIENTINFO CLIENTINFO PING TIME"));
    assert_eq!(ask(&r, "TIME", ""), None);
    let empty = ClientInfoCtcpResponse { available_ctcp: vec![] };
    assert_eq!(ask(&empty, "CLIENTINFO", ""), to_alice("CLIENTINFO "));
}

#[test]
fn finger_and_source_responders() {
    assert_eq!(ask(&FingerCtcpResponse {}, "FINGER", ""), to_alice("FINGER bot 1.0"));
    assert_eq!(ask(&FingerCtcpResponse {}, "SOURCE", ""), None);
    assert_eq!(ask(&SourceCtcpResponse {}, "SOURCE", ""), to_alice("SOURCE https://example.org/bot"));
    assert_eq!(ask(&SourceCtcpResponse {}, "FINGER", ""), None);
}

#[test]
fn userinfo_responder() {
    assert_eq!(ask(&UserInfoCtcpResponse {}, "USERINFO", ""), to_alice("USERINFO bot (A Bot)"));
    assert_eq!(ask(&UserInfoCtcpResponse {}, "USER", ""), None);
}

#[test]
fn time_responder_writes_the_clock_after_the_token() {
    let r = ask(&TimeCtcpResponse {}, "TIME", "").unwrap();
    assert_eq!(r.target, "alice");
    assert!(r.message.starts_with("TIME "));
    assert!(r.message.len() > "TIME ".len());
    assert_eq!(ask(&TimeCtcpResponse {}, "DATE", ""), None);
}

#[test]
fn time_responder_with_a_given_clock() {
    let server = server();
    let state = IrcState::default();
    let user = alice();
    let source = "#chan".to_string();
    let message = String::new();
    let time = "TIME".to_string();
    let request = CtcpRequest {
        server: &server,
        irc_state: &state,
        user: &user,
        source: &source,
        command: &time,
        message: &message,
    };
    assert_eq!(
        TimeCtcpResponse {}.stamp(&request, "Thu Jan  1 00:00:00 1970"),
        Some(CtcpResponse {
            target: "#chan".to_string(),
            message: "TIME Thu Jan  1 00:00:00 1970".to_string(),
        })
    );
    let other = "VERSION".to_string();
    let request = CtcpRequest {
        server: &server,
        irc_state: &state,
        user: &user,
        source: &source,
        command: &other,
        message: &message,
    };
    assert_eq!(TimeCtcpResponse {}.stamp(&request, "now"), None);
}

#[test]
fn plugin_answers_as_its_responder() {
    assert_eq!(ask(&CtcpPlugin::Version(VersionCtcpResponse {}), "VERSION", ""), to_alice("VERSION bot 1.0"));
    assert_eq!(ask(&CtcpPlugin::Ping(PingCtcpResponse {}), "PING", "1"), to_alice("PING 1"));
    assert_eq!(ask(&CtcpPlugin::Finger(FingerCtcpResponse {}), "FINGER", ""), to_alice("FINGER bot 1.0"));
    assert_eq!(ask(&CtcpPlugin::Source(SourceCtcpResponse {}), "VERSION", ""), None);
    assert_eq!(ask(&CtcpPlugin::UserInfo(UserInfoCtcpResponse {}), "USERINFO", ""), to_alice("USERINFO bot (A Bot)"));
    assert!(ask(&CtcpPlugin::Time(TimeCtcpResponse {}), "TIME", "").is_some());
}

#[test]
fn named_responders() {
    let config = server().ctcp;
    for name in ["CLIENTINFO", "FINGER", "PING", "SOURCE", "TIME", "VERSION", "USERINFO"] {
        let p = CtcpPlugin::named(name, &config).unwrap();
        assert!(ask(&p, name, "").unwrap().message.starts_with(name));
    }
    assert!(CtcpPlugin::named("ACTION", &config).is_none());
    assert!(CtcpPlugin::named("version", &config).is_none());
    assert!(CtcpPlugin::named("", &config).is_none());
}

#[test]
fn ctcp_registry_follows_the_settings() {
    let config = CtcpConfig {
        enabled: strings(&["PING", "DCC", "CLIENTINFO", "VERSION", "PING"]),
        version: "v".to_string(),
        source: "s".to_string(),
    };
    let r = ctcp_plugins(&config);
    assert_eq!(r.len(), 4);
    assert!(matches!(r[0], CtcpPlugin::Ping(_)));
    assert!(matches!(r[2], CtcpPlugin::Version(_)));
    assert!(matches!(r[3], CtcpPlugin::Ping(_)));
    match &r[1] {
        CtcpPlugin::ClientInfo(c) => assert_eq!(c.available_ctcp, config.enabled),
        _ => panic!("the second responder lists the tokens"),
    }
    assert!(ctcp_plugins(&CtcpConfig { enabled: vec![], version: String::new(), source: String::new() }).is_empty());
}

#[test]
fn named_privmsg_responder() {
    assert!(matches!(PrivMsgPlugin::named("geoip"), Some(PrivMsgPlugin::GeoIp(_))));
    assert!(PrivMsgPlugin::named("iai").is_none());
    assert!(PrivMsgPlugin::named("").is_none());
}

#[test]
fn privmsg_registry_knows_geoip_only() {
    let r = privmsg_plugins(&strings(&["geoip", "iai", "GeoIP", "geoip"]));
    assert_eq!(r.len(), 2);
    assert!(matches!(r[0], PrivMsgPlugin::GeoIp(_)));
    assert!(matches!(r[1], PrivMsgPlugin::GeoIp(_)));
    assert!(privmsg_plugins(&vec![]).is_empty());
}

#[test]
fn greeting_responder() {
    assert_eq!(
        say(&Iai55Chan {}, "#chan", "IAI"),
        Some(PrivMsgReply::Response(PrivMsgResponse {
            target: "#chan".to_string(),
            message: "DA HORA?!".to_string(),
        }))
    );
    assert_eq!(say(&Iai55Chan {}, "#chan", "IAI "), None);
    assert_eq!(say(&Iai55Chan {}, "#chan", "iai"), None);
    assert_eq!(say(&PrivMsgPlugin::Iai55Chan(Iai55Chan {}), "#chan", "hello"), None);
}

#[test]
fn geoip_trigger_asks_for_a_lookup() {
    for text in [".geoip 8.8.8.8", ".geoip   8.8.8.8  ", ".geoip8.8.8.8", ".geoip\t8.8.8.8"] {
        assert_eq!(
            say(&GeoIpPrivMsgEvent {}, "#chan", text),
            Some(PrivMsgReply::Lookup(GeoIpQuery {
                target: "#chan".to_string(),
                host: "8.8.8.8".to_string(),
            })),
            "{:?}",
            text
        );
    }
}

#[test]
fn geoip_trigger_without_host() {
    for text in [".geoip", ".geoip ", ".geoip \t "] {
        assert_eq!(
            say(&GeoIpPrivMsgEvent {}, "alice", text),
            Some(PrivMsgReply::Response(PrivMsgResponse {
                target: "alice".to_string(),
                message: "No IP specified".to_string(),
            }))
        );
    }
}

#[test]
fn geoip_is_silent_without_its_trigger() {
    for text in ["", "geoip 8.8.8.8", " .geoip 8.8.8.8", ".GEOIP 8.8.8.8", ".geoi"] {
        assert_eq!(say(&GeoIpPrivMsgEvent {}, "#chan", text), None);
        assert_eq!(say(&PrivMsgPlugin::GeoIp(GeoIpPrivMsgEvent {}), "#chan", text), None);
    }
}

#[test]
fn located_host_with_every_record() {
    assert_eq!(
        locate(&mountain_view()),
        GeoIpResponse {
            ip: GeoIpDataResponse { ip: "8.8.8.8".to_string(), ptr: "dns.google".to_string() },
            city: GeoIpCityResponse {
                name: "Mountain View".to_string(),
                state: "California".to_string(),
                country: "United States".to_string(),
                country_iso_code: "US".to_string(),
            },
            asn: GeoIpAsnResponse { number: "AS15169".to_string(), name: "GOOGLE".to_string() },
        }
    );
}

#[test]
fn located_host_without_records() {
    assert_eq!(
        locate(&bare("192.0.2.1")),
        GeoIpResponse {
            ip: GeoIpDataResponse { ip: "192.0.2.1".to_string(), ptr: "No PTR".to_string() },
            city: GeoIpCityResponse {
                name: "No City".to_string(),
                state: "No State".to_string(),
                country: "No Country".to_string(),
                country_iso_code: "No Country".to_string(),
            },
            asn: GeoIpAsnResponse { number: "No ASN".to_string(), name: "No ASN".to_string() },
        }
    );
}

#[test]
fn located_host_with_an_empty_city_record() {
    let mut h = bare("192.0.2.1");
    h.ptr = "host.example.org".to_string();
    h.city = Some(CityRecord { city: None, state: Some("Bavaria".to_string()), country: None });
    h.asn = Some(AsnRecord { number: 0, organization: String::new() });
    let g = locate(&h);
    assert_eq!(g.ip.ptr, "host.example.org");
    assert_eq!(g.city.name, "No City");
    assert_eq!(g.city.state, "Bavaria");
    assert_eq!(g.city.country, "No Country");
    assert_eq!(g.city.country_iso_code, "No Country");
    assert_eq!(g.asn.number, "AS0");
    assert_eq!(g.asn.name, "");
}

#[test]
fn lookups_are_located_in_order() {
    let found = ip_to_geoip(&vec![
        HostLookup::Resolved(mountain_view()),
        HostLookup::Resolved(bare("192.0.2.1")),
    ]);
    assert_eq!(found, Ok(vec![locate(&mountain_view()), locate(&bare("192.0.2.1"))]));
    assert_eq!(ip_to_geoip(&vec![]), Ok(vec![]));
}

#[test]
fn first_failed_lookup_ends_the_work() {
    let found = ip_to_geoip(&vec![
        HostLookup::Resolved(mountain_view()),
        HostLookup::Failed("no such host".to_string()),
        HostLookup::Failed("later".to_string()),
        HostLookup::Resolved(bare("192.0.2.1")),
    ]);
    assert_eq!(found, Err("no such host".to_string()));
}

#[test]
fn geoip_answer_to_a_lookup() {
    let query = GeoIpQuery { target: "#chan".to_string(), host: "dns.google".to_string() };
    assert_eq!(
        GeoIpPrivMsgEvent::finish(&query, HostLookup::Resolved(mountain_view())),
        PrivMsgResponse {
            target: "#chan".to_string(),
            message: "^ GOOGLE / AS15169 / 8.8.8.8 / dns.google / United States - California - Mountain View"
                .to_string(),
        }
    );
}

#[test]
fn geoip_answer_to_a_failed_lookup() {
    let query = GeoIpQuery { target: "alice".to_string(), host: "nowhere.invalid".to_string() };
    assert_eq!(
        GeoIpPrivMsgEvent::finish(&query, HostLookup::Failed("failed to lookup address".to_string())),
        PrivMsgResponse {
            target: "alice".to_string(),
            message: "An error happened while geolocating IP: nowhere.invalid, message: failed to lookup address"
                .to_string(),
        }
    );
}

#[test]
fn geoip_text_of_what_was_found() {
    assert_eq!(
        GeoIpPrivMsgEvent::describe("192.0.2.1", &Ok(vec![locate(&bare("192.0.2.1"))])),
        "^ No ASN / No ASN / 192.0.2.1 / No PTR / No Country - No State - No City"
    );
    assert_eq!(GeoIpPrivMsgEvent::describe("192.0.2.1", &Ok(vec![])), "");
    assert_eq!(
        GeoIpPrivMsgEvent::describe("x", &Err("boom".to_string())),
        "An error happened while geolocating IP: x, message: boom"
    );
}

//! What holds of the engine whatever the server sends: properties of the
//! transitions and of the dispatch, proved from their definitions.

use vstd::prelude::*;
use crate::config::Server;
use crate::ctcp::CtcpEvent;
use crate::ctcp::CtcpPlugin;
use crate::ctcp::CtcpRequestView;
use crate::ctcp::CtcpResponseView;
use crate::ctcp::lemma_tokens_differ;
use crate::irc_ext::channel_name;
use crate::irc_handler::ActionView;
use crate::irc_handler::Command;
use crate::irc_handler::OutcomeView;
use crate::irc_handler::authenticate_step;
use crate::irc_handler::cap_acknowledged;
use crate::irc_handler::cap_end;
use crate::irc_handler::cap_listed;
use crate::irc_handler::cap_step;
use crate::irc_handler::command_kind;
use crate::irc_handler::ctcp_dispatched;
use crate::irc_handler::ctcp_notice;
use crate::irc_handler::dispatched;
use crate::irc_handler::handled;
use crate::irc_handler::hostserv_notice;
use crate::irc_handler::mode_step;
use crate::irc_handler::offered;
use crate::irc_handler::opened;
use crate::irc_handler::privmsg_dispatched;
use crate::irc_handler::quit_message;
use crate::irc_handler::registers;
use crate::irc_handler::remarks_on;
use crate::irc_handler::reply_action;
use crate::irc_handler::reply_target;
use crate::irc_handler::sasl_failed;
use crate::irc_handler::sasl_succeeded;
use crate::irc_handler::sends;
use crate::irc_handler::unavailable;
use crate::irc_handler::unavailable_remarks;
use crate::irc_state::IrcStateView;
use crate::irc_state::fresh_state;
use crate::message::MessageView;
use crate::message::plain;
use crate::privmsg::PrivMsgEvent;
use crate::privmsg::PrivMsgPlugin;
use crate::privmsg::PrivMsgReplyView;
use crate::privmsg::PrivMsgRequestView;
use crate::text::is_space;
use crate::text::join_with;
use crate::text::leading_space;
use crate::text::leading_word;
use crate::text::lemma_tokens_are_words;
use crate::text::lemma_tokens_joined;
use crate::text::lemma_tokens_of_word;
use crate::text::tokens;

verus! {

/// A capability is among the offered ones exactly if it is both wanted and
/// available.
pub proof fn law_offered_is_wanted_and_available(
    wanted: Seq<Seq<char>>,
    available: Seq<Seq<char>>,
    c: Seq<char>,
)
    ensures
        offered(wanted, available).contains(c) <==> wanted.contains(c) && available.contains(c),
    decreases wanted.len(),
{
    reveal(Seq::filter);
    if wanted.len() > 0 {
        let rest = wanted.drop_last();
        law_offered_is_wanted_and_available(rest, available, c);
        let kept = offered(rest, available);
        if available.contains(wanted.last()) {
            assert(offered(wanted, available) == kept.push(wanted.last()));
            if kept.push(wanted.last()).contains(c) {
                let i = choose|i: int|
                    0 <= i < kept.push(wanted.last()).len() && kept.push(wanted.last())[i] == c;
                if i < kept.len() {
                    assert(kept[i] == c);
                }
            }
            if kept.contains(c) {
                let i = choose|i: int| 0 <= i < kept.len() && kept[i] == c;
                assert(kept.push(wanted.last())[i] == c);
            }
            assert(kept.push(wanted.last())[kept.len() as int] == wanted.last());
        }
        if wanted.contains(c) {
            let i = choose|i: int| 0 <= i < wanted.len() && wanted[i] == c;
            if i < rest.len() {
                assert(rest[i] == c);
            }
        }
        if rest.contains(c) {
            let i = choose|i: int| 0 <= i < rest.len() && rest[i] == c;
            assert(wanted[i] == c);
        }
    }
}

/// After the server's listing, a session that had negotiated nothing has
/// negotiated the wanted capabilities that the server offers, in the order
/// in which they are wanted, and asks for exactly these.
pub proof fn law_listing_negotiates_offered(
    s: IrcStateView,
    sasl_enabled: bool,
    m: MessageView,
)
    requires
        s.negotiating_cap,
        s.cap_negotiated.len() == 0,
        m.params.len() >= 3,
        m.params[1] == "LS"@,
    ensures
        ({
            let available = tokens(m.params[2]);
            let step = cap_step(s, sasl_enabled, m);
            &&& step.0.cap_negotiated == s.cap_requested.filter(
                |c: Seq<char>| available.contains(c),
            )
            &&& step.1 == seq![
                plain("CAP"@, seq!["REQ"@, join_with(step.0.cap_negotiated, ' ')]),
            ]
            &&& forall|c: Seq<char>| #[trigger]
                step.0.cap_negotiated.contains(c) <==> s.cap_requested.contains(c)
                    && available.contains(c)
        }),
{
    let available = tokens(m.params[2]);
    let negotiated = offered(s.cap_requested, available);
    assert(s.cap_negotiated + negotiated =~= negotiated);
    assert forall|c: Seq<char>| #[trigger]
        negotiated.contains(c) <==> s.cap_requested.contains(c) && available.contains(c) by {
        law_offered_is_wanted_and_available(s.cap_requested, available, c);
    }
}

/// A wanted capability that a listing lacks is remarked on and never asked
/// for: the remarks on the listing are the wanted capabilities that are
/// not available, in the order in which they are wanted, and each wanted
/// capability is either negotiated or remarked on, never both.
pub proof fn law_unavailable_capabilities_are_remarked(s: IrcStateView, m: MessageView)
    requires
        s.negotiating_cap,
        m.command == "CAP"@,
        m.params.len() >= 3,
        m.params[1] == "LS"@,
    ensures
        ({
            let available = tokens(m.params[2]);
            let missing = s.cap_requested.filter(|c: Seq<char>| !available.contains(c));
            &&& remarks_on(s, m) == unavailable_remarks(missing)
            &&& forall|c: Seq<char>|
                s.cap_requested.contains(c) ==> (#[trigger] missing.contains(c)
                    <==> !offered(s.cap_requested, available).contains(c))
            &&& forall|c: Seq<char>| #[trigger]
                missing.contains(c) ==> s.cap_requested.contains(c) && !available.contains(c)
        }),
{
    let available = tokens(m.params[2]);
    let missing = unavailable(s.cap_requested, available);
    assert forall|c: Seq<char>| #[trigger]
        missing.contains(c) <==> s.cap_requested.contains(c) && !available.contains(c) by {
        lemma_unavailable_is_wanted_and_missing(s.cap_requested, available, c);
    }
    assert forall|c: Seq<char>|
        offered(s.cap_requested, available).contains(c) <==> s.cap_requested.contains(c)
            && available.contains(c) by {
        law_offered_is_wanted_and_available(s.cap_requested, available, c);
    }
}

/// A capability is among the unavailable ones exactly if it is wanted and
/// not available.
pub proof fn lemma_unavailable_is_wanted_and_missing(
    wanted: Seq<Seq<char>>,
    available: Seq<Seq<char>>,
    c: Seq<char>,
)
    ensures
        unavailable(wanted, available).contains(c) <==> wanted.contains(c) && !available.contains(
            c,
        ),
    decreases wanted.len(),
{
    reveal(Seq::filter);
    if wanted.len() > 0 {
        let rest = wanted.drop_last();
        lemma_unavailable_is_wanted_and_missing(rest, available, c);
        let kept = unavailable(rest, available);
        if !available.contains(wanted.last()) {
            assert(unavailable(wanted, available) == kept.push(wanted.last()));
            if kept.push(wanted.last()).contains(c) {
                let i = choose|i: int|
                    0 <= i < kept.push(wanted.last()).len() && kept.push(wanted.last())[i] == c;
                if i < kept.len() {
                    assert(kept[i] == c);
                }
            }
            if kept.contains(c) {
                let i = choose|i: int| 0 <= i < kept.len() && kept[i] == c;
                assert(kept.push(wanted.last())[i] == c);
            }
            assert(kept.push(wanted.last())[kept.len() as int] == wanted.last());
        }
        if wanted.contains(c) {
            let i = choose|i: int| 0 <= i < wanted.len() && wanted[i] == c;
            if i < rest.len() {
                assert(rest[i] == c);
            }
        }
        if rest.contains(c) {
            let i = choose|i: int| 0 <= i < rest.len() && rest[i] == c;
            assert(wanted[i] == c);
        }
    }
}

/// An acknowledgement appends the words of its list to what was accepted,
/// in their order: none of them is empty and none holds white space. What
/// is wanted and what was negotiated stay as they were.
pub proof fn law_acknowledgement_appends_words(
    s: IrcStateView,
    sasl_enabled: bool,
    m: MessageView,
)
    requires
        s.negotiating_cap,
        m.params.len() >= 3,
        m.params[1] == "ACK"@,
    ensures
        ({
            let next = cap_step(s, sasl_enabled, m).0;
            let added = tokens(m.params[2]);
            &&& next.cap_accepted == s.cap_accepted + added
            &&& next.cap_negotiated == s.cap_negotiated
            &&& next.cap_requested == s.cap_requested
            &&& forall|i: int|
                0 <= i < added.len() ==> (#[trigger] added[i]).len() > 0 && forall|k: int|
                    0 <= k < added[i].len() ==> !is_space(#[trigger] added[i][k])
        }),
{
    reveal_strlit("LS");
    reveal_strlit("ACK");
    assert("LS"@.len() != "ACK"@.len());
    lemma_tokens_are_words(m.params[2]);
}

/// White space after the last capability of a list adds no capability:
/// the list counts as it does without it, in a listing and in an
/// acknowledgement.
pub proof fn law_trailing_space_adds_no_capability(
    s: IrcStateView,
    sasl_enabled: bool,
    list: Seq<char>,
    c: char,
)
    requires
        is_space(c),
    ensures
        tokens(list.push(c)) == tokens(list),
        cap_listed(s, list.push(c)) == cap_listed(s, list),
        cap_acknowledged(s, sasl_enabled, list.push(c)) == cap_acknowledged(s, sasl_enabled, list),
{
    let nothing = Seq::<char>::empty();
    lemma_tokens_joined(list, c, nothing);
    assert(list.push(c) + nothing == list.push(c));
    assert(leading_space(nothing) == 0);
    assert(nothing.skip(0) == nothing);
    assert(leading_word(nothing) == 0);
    assert(tokens(nothing) == Seq::<Seq<char>>::empty());
    assert(tokens(list) + Seq::<Seq<char>>::empty() == tokens(list));
}

/// Capabilities that white space of any kind parts are counted one by
/// one: two lists with white space between them count as the first and
/// then the second.
pub proof fn law_capabilities_are_parted_by_white_space(a: Seq<char>, c: char, b: Seq<char>)
    requires
        is_space(c),
    ensures
        tokens(a.push(c) + b) == tokens(a) + tokens(b),
{
    lemma_tokens_joined(a, c, b);
}

/// The acknowledgement of the one capability that was negotiated ends the
/// negotiation, also with white space after the name: the name is
/// accepted, and without authentication under way `CAP END` is sent.
pub proof fn law_acknowledged_capability_completes(s: IrcStateView, name: Seq<char>, c: char)
    requires
        s.negotiating_cap,
        !s.negotiating_sasl,
        s.cap_negotiated.len() == 1,
        s.cap_accepted.len() == 0,
        name.len() > 0,
        forall|k: int| 0 <= k < name.len() ==> !is_space(name[k]),
        is_space(c),
    ensures
        cap_acknowledged(s, false, name.push(c)) == (
            IrcStateView { cap_accepted: seq![name], negotiating_cap: false, ..s },
            seq![cap_end()],
        ),
        cap_acknowledged(s, false, name) == cap_acknowledged(s, false, name.push(c)),
{
    law_trailing_space_adds_no_capability(s, false, name, c);
    lemma_tokens_of_word(name);
    assert(s.cap_accepted + seq![name] == seq![name]);
    assert(Seq::<MessageView>::empty() + seq![cap_end()] == seq![cap_end()]);
}

/// A `CAP` message ends the negotiation only with as many capabilities
/// acknowledged as were negotiated; an acknowledgement ends it exactly
/// then.
pub proof fn law_negotiation_ends_on_equal_counts(
    s: IrcStateView,
    sasl_enabled: bool,
    m: MessageView,
)
    requires
        s.negotiating_cap,
    ensures
        ({
            let next = cap_step(s, sasl_enabled, m).0;
            &&& !next.negotiating_cap ==> next.cap_negotiated.len() == next.cap_accepted.len()
            &&& m.params.len() >= 3 && m.params[1] == "ACK"@ ==> (!next.negotiating_cap
                <==> next.cap_negotiated.len() == next.cap_accepted.len())
        }),
{
    reveal_strlit("LS");
    reveal_strlit("ACK");
    assert("LS"@.len() != "ACK"@.len());
    if !(!s.negotiating_cap || m.params.len() < 3) {
        if m.params[1] == "LS"@ {
            assert(cap_step(s, sasl_enabled, m) == cap_listed(s, m.params[2]));
        } else if m.params[1] == "ACK"@ {
            assert(cap_step(s, sasl_enabled, m) == cap_acknowledged(s, sasl_enabled, m.params[2]));
        }
    }
}

/// Acknowledgements that come in two messages count together: after the
/// second, all of both lists are accepted, and the negotiation is over
/// exactly if their total is what was negotiated.
pub proof fn law_acknowledgements_add_up(
    s: IrcStateView,
    sasl_enabled: bool,
    first: Seq<char>,
    second: Seq<char>,
)
    requires
        s.negotiating_cap,
        cap_acknowledged(s, sasl_enabled, first).0.negotiating_cap,
    ensures
        ({
            let after = cap_acknowledged(
                cap_acknowledged(s, sasl_enabled, first).0,
                sasl_enabled,
                second,
            ).0;
            &&& after.cap_accepted == s.cap_accepted + tokens(first) + tokens(second)
            &&& after.cap_negotiated == s.cap_negotiated
            &&& !after.negotiating_cap <==> s.cap_negotiated.len() == s.cap_accepted.len()
                + tokens(first).len() + tokens(second).len()
        }),
{
}

/// `PING` is answered by one `PONG` with the same parameters, whatever
/// they are, and changes nothing.
pub proof fn law_ping_is_echoed<C: CtcpEvent, P: PrivMsgEvent>(
    server: Server,
    ctcp_event: Seq<C>,
    privmsg_event: Seq<P>,
    before: IrcStateView,
    m: MessageView,
    after: IrcStateView,
    out: OutcomeView,
)
    requires
        m.command == "PING"@,
        dispatched(server, ctcp_event, privmsg_event, before, m, after, out),
    ensures
        out.actions == seq![ActionView::Send(plain("PONG"@, m.params))],
        !out.fatal,
        after == before,
{
    reveal_strlit("PING");
    reveal_strlit("CAP");
    reveal_strlit("AUTHENTICATE");
    reveal_strlit("904");
    reveal_strlit("903");
    reveal_strlit("376");
    reveal_strlit("MODE");
    reveal_strlit("PRIVMSG");
    assert("PING"@.len() == 4 && "PING"@[0] == 'P');
    assert("CAP"@.len() == 3);
    assert("AUTHENTICATE"@.len() == 12);
    assert("904"@.len() == 3);
    assert("903"@.len() == 3);
    assert("376"@.len() == 3);
    assert("MODE"@[0] == 'M');
    assert("PRIVMSG"@.len() == 7);
    assert(command_kind(m.command) == Command::Ping);
    assert(sends(seq![plain("PONG"@, m.params)]) =~= seq![
        ActionView::Send(plain("PONG"@, m.params)),
    ]);
}

/// How many words go to HostServ when the nickname is registered.
pub open spec fn words_to_hostserv(server: Server) -> int {
    if server.use_hostserv {
        1
    } else {
        0
    }
}

/// Once the nickname is registered, every configured channel is joined,
/// in order and with its key as it is, after exactly one word to HostServ
/// where HostServ is in use and none where it is not.
pub proof fn law_registered_joins_every_channel(server: Server, m: MessageView)
    requires
        registers(m),
    ensures
        ({
            let out = mode_step(server, m);
            let first = words_to_hostserv(server);
            &&& out.len() == first + server.channels@.len()
            &&& server.use_hostserv ==> out[0] == hostserv_notice()
            &&& forall|i: int|
                0 <= i < server.channels@.len() ==> out[first + i] == plain(
                    "JOIN"@,
                    seq![(#[trigger] server.channels@[i]).name@, server.channels@[i].password@],
                )
            &&& forall|i: int|
                first <= i < out.len() ==> (#[trigger] out[i]).command == "JOIN"@
        }),
{
}

/// Asking the CTCP responders gives at most one notice, and none where no
/// responder has an answer.
pub proof fn law_ctcp_at_most_one_notice<C: CtcpEvent>(
    events: Seq<C>,
    request: CtcpRequestView,
    out: Seq<ActionView>,
)
    requires
        ctcp_dispatched(events, request, out),
    ensures
        out.len() <= 1,
        (forall|j: int, response: CtcpResponseView|
            0 <= j < events.len() ==> !#[trigger] events[j].answers(request, Some(response)))
            ==> out.len() == 0,
{
}

/// A responder of this library stays silent exactly on the commands that
/// are not its token, and what it says goes to the request's source.
pub proof fn law_plugin_answers_its_token(
    plugin: CtcpPlugin,
    request: CtcpRequestView,
    response: Option<CtcpResponseView>,
)
    requires
        plugin.answers(request, response),
    ensures
        response is None <==> plugin.token() != request.command,
        response matches Some(r) ==> r.target == request.source,
{
    lemma_tokens_differ();
}

/// In a registry of this library's responders a CTCP command is answered
/// by the first responder whose token it is, with one notice, and by
/// nobody where it is no responder's token.
pub proof fn law_ctcp_plugins_answer_by_token(
    events: Seq<CtcpPlugin>,
    request: CtcpRequestView,
    out: Seq<ActionView>,
)
    requires
        ctcp_dispatched(events, request, out),
    ensures
        (forall|j: int| 0 <= j < events.len() ==> events[j].token() != request.command)
            ==> out.len() == 0,
        forall|i: int|
            0 <= i < events.len() && events[i].token() == request.command && (forall|j: int|
                0 <= j < i ==> events[j].token() != request.command) ==> exists|
                response: CtcpResponseView,
            |
                #[trigger] events[i].answers(request, Some(response)) && out == seq![
                    ActionView::Send(ctcp_notice(response)),
                ],
{
    if out.len() == 0 && forall|j: int|
        0 <= j < events.len() ==> (#[trigger] events[j]).answers(request, None) {
        assert forall|j: int| 0 <= j < events.len() implies events[j].token()
            != request.command by {
            law_plugin_answers_its_token(events[j], request, None);
        }
    } else {
        let (k, response) = choose|k: int, response: CtcpResponseView|
            {
                &&& 0 <= k < events.len()
                &&& forall|j: int| 0 <= j < k ==> (#[trigger] events[j]).answers(request, None)
                &&& #[trigger] events[k].answers(request, Some(response))
                &&& out == seq![ActionView::Send(ctcp_notice(response))]
            };
        law_plugin_answers_its_token(events[k], request, Some(response));
        assert forall|j: int| 0 <= j < k implies events[j].token() != request.command by {
            law_plugin_answers_its_token(events[j], request, None);
        }
    }
}

/// Where every responder has exactly one reaction to the request, the
/// outcome is decided: nothing if all stay silent, else the notice of the
/// first that does not.
pub proof fn law_ctcp_first_answer_only<C: CtcpEvent>(
    events: Seq<C>,
    request: CtcpRequestView,
    reactions: Seq<Option<CtcpResponseView>>,
    out: Seq<ActionView>,
)
    requires
        reactions.len() == events.len(),
        forall|j: int, x: Option<CtcpResponseView>|
            0 <= j < events.len() ==> (#[trigger] events[j].answers(request, x) <==> x
                == reactions[j]),
        ctcp_dispatched(events, request, out),
    ensures
        out.len() <= 1,
        (forall|j: int| 0 <= j < reactions.len() ==> reactions[j] is None) ==> out.len() == 0,
        forall|i: int|
            0 <= i < reactions.len() && reactions[i] is Some && (forall|j: int|
                0 <= j < i ==> reactions[j] is None) ==> out == seq![
                ActionView::Send(ctcp_notice(reactions[i].unwrap())),
            ],
{
    if out.len() == 0 && forall|j: int|
        0 <= j < events.len() ==> (#[trigger] events[j]).answers(request, None) {
        assert forall|j: int| 0 <= j < reactions.len() implies reactions[j] is None by {
            assert(events[j].answers(request, None));
        }
    } else {
        let (k, response) = choose|k: int, response: CtcpResponseView|
            {
                &&& 0 <= k < events.len()
                &&& forall|j: int| 0 <= j < k ==> (#[trigger] events[j]).answers(request, None)
                &&& #[trigger] events[k].answers(request, Some(response))
                &&& out == seq![ActionView::Send(ctcp_notice(response))]
            };
        assert(reactions[k] == Some(response));
        assert forall|j: int| 0 <= j < k implies reactions[j] is None by {
            assert(events[j].answers(request, None));
        }
    }
}

/// The actions that replies lead to: one for each responder that replies,
/// in the responders' order.
pub open spec fn actions_of(replies: Seq<Option<PrivMsgReplyView>>) -> Seq<ActionView>
    decreases replies.len(),
{
    if replies.len() == 0 {
        Seq::empty()
    } else {
        match replies.last() {
            Some(r) => actions_of(replies.drop_last()).push(reply_action(r)),
            None => actions_of(replies.drop_last()),
        }
    }
}

/// Every PRIVMSG responder that replies is heard, in the order of the
/// registry: where each responder has exactly one reaction to the request,
/// the outcome is the actions of all the replies, in that order.
pub proof fn law_privmsg_all_answers_in_order<P: PrivMsgEvent>(
    events: Seq<P>,
    request: PrivMsgRequestView,
    replies: Seq<Option<PrivMsgReplyView>>,
    out: Seq<ActionView>,
)
    requires
        replies.len() == events.len(),
        forall|j: int, x: Option<PrivMsgReplyView>|
            0 <= j < events.len() ==> (#[trigger] events[j].answers(request, x) <==> x
                == replies[j]),
        privmsg_dispatched(events, request, out),
    ensures
        out == actions_of(replies),
    decreases events.len(),
{
    if events.len() > 0 {
        let rest = events.drop_last();
        let earlier = replies.drop_last();
        assert forall|j: int, x: Option<PrivMsgReplyView>| 0 <= j < rest.len() implies (
        #[trigger] rest[j].answers(request, x) <==> x == earlier[j]) by {
            assert(rest[j] == events[j]);
            assert(events[j].answers(request, x) <==> x == replies[j]);
        }
        let last = events.len() - 1;
        assert(events.last() == events[last]);
        if events.last().answers(request, None) && privmsg_dispatched(rest, request, out) {
            assert(events[last].answers(request, None) <==> None::<PrivMsgReplyView>
                == replies[last]);
            law_privmsg_all_answers_in_order(rest, request, earlier, out);
        } else {
            let reply = choose|reply: PrivMsgReplyView| #[trigger]
                events.last().answers(request, Some(reply)) && out.last() == reply_action(reply);
            assert(events[last].answers(request, Some(reply)) <==> Some(reply) == replies[last]);
            law_privmsg_all_answers_in_order(rest, request, earlier, out.drop_last());
            assert(out =~= out.drop_last().push(out.last()));
        }
    }
}

/// In a registry of this library's responders, what a message leads to is
/// decided: the actions of the replies of all responders, in their order.
pub proof fn law_privmsg_plugins_all_answer(
    events: Seq<PrivMsgPlugin>,
    request: PrivMsgRequestView,
    out: Seq<ActionView>,
)
    requires
        privmsg_dispatched(events, request, out),
    ensures
        out == actions_of(Seq::new(events.len(), |i: int| events[i].reply(request))),
{
    law_privmsg_all_answers_in_order(
        events,
        request,
        Seq::new(events.len(), |i: int| events[i].reply(request)),
        out,
    );
}

/// Two responders that both reply are both heard, the first one first.
pub proof fn law_two_matching_responders_both_answer<P: PrivMsgEvent>(
    events: Seq<P>,
    request: PrivMsgRequestView,
    first: PrivMsgReplyView,
    second: PrivMsgReplyView,
    out: Seq<ActionView>,
)
    requires
        events.len() == 2,
        forall|x: Option<PrivMsgReplyView>| #[trigger]
            events[0].answers(request, x) <==> x == Some(first),
        forall|x: Option<PrivMsgReplyView>| #[trigger]
            events[1].answers(request, x) <==> x == Some(second),
        privmsg_dispatched(events, request, out),
    ensures
        out == seq![reply_action(first), reply_action(second)],
{
    let replies = seq![Some(first), Some(second)];
    law_privmsg_all_answers_in_order(events, request, replies, out);
    assert(replies.drop_last() =~= seq![Some(first)]);
    assert(replies.drop_last().drop_last() =~= Seq::empty());
    reveal_with_fuel(actions_of, 3);
    assert(actions_of(replies) =~= seq![reply_action(first), reply_action(second)]);
}

/// The answer to a message that is addressed to a nickname, not to a
/// channel, goes to who wrote it.
pub proof fn law_private_message_answers_sender(m: MessageView)
    requires
        m.params.len() > 0,
        m.prefix is Some,
        !channel_name(m.params[0]),
    ensures
        reply_target(m) == m.prefix.unwrap().nick,
{
}

/// A failed authentication ends in one of two ways. Where the settings
/// say to terminate, `QUIT` is sent, nothing else, and the connection
/// ends. Where they do not, `CAP END` is sent and the connection goes on.
/// Either way authentication is over.
pub proof fn law_failed_authentication(s: IrcStateView, terminate: bool)
    requires
        s.negotiating_sasl,
    ensures
        ({
            let step = sasl_failed(s, terminate);
            &&& !step.0.negotiating_sasl
            &&& terminate ==> step.1 == seq![quit_message()] && step.2 && !step.1.contains(
                cap_end(),
            )
            &&& !terminate ==> step.1 == seq![cap_end()] && !step.2
        }),
{
    reveal_strlit("QUIT");
    reveal_strlit("CAP");
    let step = sasl_failed(s, terminate);
    if terminate {
        assert(quit_message().command != cap_end().command) by {
            assert("QUIT"@.len() != "CAP"@.len());
        }
        if step.1.contains(cap_end()) {
            let i = choose|i: int| 0 <= i < step.1.len() && step.1[i] == cap_end();
            assert(step.1[i] == quit_message());
        }
    }
}

/// A new session asks for the base capabilities, and for `sasl` after them
/// exactly where SASL is enabled.
pub proof fn law_session_wants_sasl_when_enabled(server: Server)
    ensures
        crate::irc_state::wanted_capabilities(server).contains("sasl"@) <==> server.sasl.enabled,
        fresh_state(crate::irc_state::wanted_capabilities(server)).cap_negotiated.len() == 0,
{
    reveal_strlit("sasl");
    reveal_strlit("multi-prefix");
    reveal_strlit("userhost-in-names");
    let base = crate::irc_state::base_capabilities();
    if server.sasl.enabled {
        assert(base.push("sasl"@)[2] == "sasl"@);
    } else {
        if base.contains("sasl"@) {
            let i = choose|i: int| 0 <= i < base.len() && base[i] == "sasl"@;
            assert("sasl"@.len() == 4);
            assert(base[i].len() != 4);
        }
    }
}

/// Whether the counts of a session agree with where it stands: once the
/// burst is sent and the negotiation is over, as many capabilities are
/// acknowledged as were negotiated.
pub open spec fn settled(s: IrcStateView) -> bool {
    s.initial_connection || s.negotiating_cap || s.cap_negotiated.len() == s.cap_accepted.len()
}

/// A new session is settled, and no line from the server unsettles one:
/// whatever arrives, a session that is past the negotiation has as many
/// capabilities acknowledged as negotiated.
pub proof fn law_sessions_stay_settled<C: CtcpEvent, P: PrivMsgEvent>(
    server: Server,
    ctcp_event: Seq<C>,
    privmsg_event: Seq<P>,
    before: IrcStateView,
    line: Seq<char>,
    after: IrcStateView,
    out: OutcomeView,
)
    requires
        settled(before),
        handled(server, ctcp_event, privmsg_event, before, line, after, out),
    ensures
        settled(after),
        forall|wanted: Seq<Seq<char>>| settled(#[trigger] fresh_state(wanted)),
{
    assert(settled(opened(before)));
}

/// Negotiation traffic that arrives outside its negotiation changes
/// nothing and is not answered.
pub proof fn law_traffic_outside_negotiation_is_ignored(
    s: IrcStateView,
    server: Server,
    m: MessageView,
)
    ensures
        !s.negotiating_cap ==> cap_step(s, server.sasl.enabled, m) == (s, Seq::<MessageView>::empty()),
        !s.negotiating_sasl ==> authenticate_step(s, server, m) == Seq::<MessageView>::empty(),
        !s.negotiating_sasl ==> sasl_failed(s, server.sasl.terminate_failed) == (
            s,
            Seq::<MessageView>::empty(),
            false,
        ),
        !s.negotiating_sasl ==> sasl_succeeded(s) == (s, Seq::<MessageView>::empty()),
{
}

/// Nothing but a failed authentication under the policy of termination
/// ends a connection.
pub proof fn law_only_failed_authentication_is_fatal<C: CtcpEvent, P: PrivMsgEvent>(
    server: Server,
    ctcp_event: Seq<C>,
    privmsg_event: Seq<P>,
    before: IrcStateView,
    m: MessageView,
    after: IrcStateView,
    out: OutcomeView,
)
    requires
        dispatched(server, ctcp_event, privmsg_event, before, m, after, out),
        out.fatal,
    ensures
        m.command == "904"@,
        before.negotiating_sasl,
        server.sasl.terminate_failed,
        out.actions == seq![ActionView::Send(quit_message())],
{
    assert(sends(seq![quit_message()]) =~= seq![ActionView::Send(quit_message())]);
}

} // verus!

//! IRC messages: sender prefix, command and parameters, and their wire form.

use vstd::prelude::*;
use crate::text::texts;

verus! {

/// Who sent a message: `nick [ [ "!" user ] "@" host ]`.
#[derive(Debug, Clone, PartialEq, Eq)]
pub struct Prefix {
    pub nick: String,
    pub user: Option<String>,
    pub host: Option<String>,
}

/// One protocol message.
#[derive(Debug, Clone, PartialEq, Eq)]
pub struct Message {
    pub prefix: Option<Prefix>,
    pub command: String,
    pub params: Vec<String>,
}

pub ghost struct PrefixView {
    pub nick: Seq<char>,
    pub user: Option<Seq<char>>,
    pub host: Option<Seq<char>>,
}

pub ghost struct MessageView {
    pub prefix: Option<PrefixView>,
    pub command: Seq<char>,
    pub params: Seq<Seq<char>>,
}

/// The text of an optional string.
pub open spec fn opt_text(s: Option<String>) -> Option<Seq<char>> {
    match s {
        Some(t) => Some(t@),
        None => None,
    }
}

impl View for Prefix {
    type V = PrefixView;

    open spec fn view(&self) -> PrefixView {
        PrefixView { nick: self.nick@, user: opt_text(self.user), host: opt_text(self.host) }
    }
}

impl View for Message {
    type V = MessageView;

    open spec fn view(&self) -> MessageView {
        MessageView {
            prefix: match self.prefix {
                Some(p) => Some(p@),
                None => None,
            },
            command: self.command@,
            params: texts(self.params@),
        }
    }
}

/// The messages that a vector holds, in order.
pub open spec fn views(v: Seq<Message>) -> Seq<MessageView> {
    Seq::new(v.len(), |i: int| v[i]@)
}

/// A message without a prefix, as the client sends them.
pub open spec fn plain(command: Seq<char>, params: Seq<Seq<char>>) -> MessageView {
    MessageView { prefix: None, command, params }
}

/// The wire form of a prefix.
pub open spec fn prefix_text(p: PrefixView) -> Seq<char> {
    p.nick + (match p.user {
        Some(u) => seq!['!'] + u,
        None => Seq::empty(),
    }) + (match p.host {
        Some(h) => seq!['@'] + h,
        None => Seq::empty(),
    })
}

/// The parameters but the last, each after a space.
pub open spec fn middle_text(params: Seq<Seq<char>>) -> Seq<char>
    decreases params.len(),
{
    if params.len() == 0 {
        Seq::empty()
    } else {
        middle_text(params.drop_last()) + seq![' '] + params.last()
    }
}

/// The wire form of a parameter list: the last one is always written as a
/// trailing parameter, after ` :`.
pub open spec fn params_text(params: Seq<Seq<char>>) -> Seq<char> {
    if params.len() == 0 {
        Seq::empty()
    } else {
        middle_text(params.drop_last()) + seq![' ', ':'] + params.last()
    }
}

/// The wire form of a message, without the line ending.
pub open spec fn wire_form(m: MessageView) -> Seq<char> {
    (match m.prefix {
        Some(p) => seq![':'] + prefix_text(p) + seq![' '],
        None => Seq::empty(),
    }) + m.command + params_text(m.params)
}

/// What `simple_irc` reads out of a line: prefix, command and parameters, or
/// nothing where it rejects the line.
pub uninterp spec fn parsed_line(line: Seq<char>) -> Option<MessageView>;

/// `simple_irc::Error`: why a line was rejected. Nothing is read out of
/// it.
#[verifier::external_type_specification]
#[verifier::external_body]
pub struct ExParseError(simple_irc::Error);

/// `<simple_irc::Message as FromStr>::from_str`: the parse of one line. Its
/// prefix, command and parameters are handed on as they were read; message
/// tags are dropped.
#[verifier::external_body]
fn parse_line(line: &str) -> (r: Result<Message, simple_irc::Error>)
    ensures
        r is Ok <==> parsed_line(line@) is Some,
        r matches Ok(m) ==> parsed_line(line@) == Some(m@),
{
    let m = line.parse::<simple_irc::Message>()?;
    Ok(
        Message {
            prefix: m.prefix.map(|p| Prefix { nick: p.nick, user: p.user, host: p.host }),
            command: m.command,
            params: m.params,
        },
    )
}

/// Appends the wire form of a prefix.
fn write_prefix(r: &mut String, p: &Prefix)
    ensures
        final(r)@ == old(r)@ + prefix_text(p@),
{
    let ghost before = r@;
    r.append(p.nick.as_str());
    match &p.user {
        Some(user) => {
            r.push('!');
            r.append(user.as_str());
            assert(r@ == before + (p@.nick + (seq!['!'] + user@)));
        },
        None => {
            assert(r@ == before + (p@.nick + Seq::<char>::empty()));
        },
    }
    let ghost named = r@;
    match &p.host {
        Some(host) => {
            r.push('@');
            r.append(host.as_str());
            assert(r@ == named + (seq!['@'] + host@));
        },
        None => {
            assert(r@ == named + Seq::<char>::empty());
        },
    }
    assert(r@ == before + prefix_text(p@));
}

impl Message {
    /// A message without a prefix.
    pub fn new(command: String, params: Vec<String>) -> (m: Message)
        ensures
            m@ == plain(command@, texts(params@)),
    {
        Message { prefix: None, command, params }
    }

    /// Reads one line. `None` where the line is rejected.
    pub fn parse(line: &str) -> (r: Option<Message>)
        ensures
            match r {
                Some(m) => parsed_line(line@) == Some(m@),
                None => parsed_line(line@) is None,
            },
    {
        match parse_line(line) {
            Ok(m) => Some(m),
            Err(_) => None,
        }
    }

    /// The wire form, without the line ending.
    pub fn serialize(&self) -> (r: String)
        ensures
            r@ == wire_form(self@),
    {
        let mut r = String::new();
        match &self.prefix {
            Some(p) => {
                r.push(':');
                write_prefix(&mut r, p);
                r.push(' ');
                assert(r@ == seq![':'] + prefix_text(p@) + seq![' ']);
            },
            None => {},
        }
        r.append(self.command.as_str());
        let ghost head = r@;
        let ghost params = texts(self.params@);
        if self.params.len() > 0 {
            let last: usize = self.params.len() - 1;
            let mut i: usize = 0;
            assert(head + middle_text(params.take(0)) == head);
            while i < last
                invariant
                    i <= last < self.params.len(),
                    params == texts(self.params@),
                    r@ == head + middle_text(params.take(i as int)),
                decreases last - i,
            {
                let ghost done = params.take(i as int);
                let ghost next = params.take(i + 1);
                assert(next.drop_last() == done);
                assert(next.last() == self.params@[i as int]@);
                r.push(' ');
                r.append(self.params[i].as_str());
                assert(r@ == head + (middle_text(done) + seq![' '] + self.params@[i as int]@));
                i += 1;
            }
            assert(params.take(last as int) == params.drop_last());
            r.push(' ');
            r.push(':');
            r.append(self.params[last].as_str());
            assert(r@ == head + (middle_text(params.drop_last()) + seq![' ', ':'] + params.last()));
        } else {
            assert(r@ == head + Seq::<char>::empty());
        }
        r
    }
}

/// The characters that end a line on the wire.
pub open spec fn line_ending() -> Seq<char> {
    seq!['\r', '\n']
}

} // verus!

//! What the engine asks of a piece of IRC text.

use vstd::prelude::*;
use crate::message::opt_text;
use crate::text::begins_with_char;

verus! {

/// The regular expression that matches one formatting code: bold,
/// underline, reverse, reset, and a colour with its optional numbers.
pub open spec fn formatting_codes() -> Seq<char> {
    "\\x1f|\\x02|\\x12|\\x0f|\\x16|\\x03(?:\\d{1,2}(?:,\\d{1,2})?)?"@
}

/// Whether a name begins with one of the characters that mark a channel.
pub open spec fn channel_name(s: Seq<char>) -> bool {
    s.len() > 0 && (s[0] == '#' || s[0] == '&' || s[0] == '+' || s[0] == '!')
}

/// Whether a text begins with the CTCP delimiter.
pub open spec fn ctcp_framed(s: Seq<char>) -> bool {
    s.len() > 0 && s[0] == '\u{1}'
}

/// What `regex` makes of `text` when every match of `pattern` in it is
/// replaced by `replacement`; nothing where it rejects the pattern.
pub uninterp spec fn regex_replaced(
    pattern: Seq<char>,
    text: Seq<char>,
    replacement: Seq<char>,
) -> Option<Seq<char>>;

/// `regex::Regex::new` followed by `Regex::replace_all` on the compiled
/// expression. `None` where the pattern does not compile.
#[verifier::external_body]
fn replace_all(pattern: &str, text: &str, replacement: &str) -> (r: Option<String>)
    ensures
        opt_text(r) == regex_replaced(pattern@, text@, replacement@),
{
    match regex::Regex::new(pattern) {
        Ok(re) => Some(re.replace_all(text, replacement).into_owned()),
        Err(_) => None,
    }
}

/// `text` without its formatting codes, given what the replacement made
/// of it: the replaced text, or `text` itself where there is none.
pub open spec fn uncoloured(text: Seq<char>, replaced: Option<Seq<char>>) -> Seq<char> {
    match replaced {
        Some(t) => t,
        None => text,
    }
}

pub trait IrcExt {
    /// The text that the value holds.
    spec fn content(&self) -> Seq<char>;

    fn is_channel_name(&self) -> (r: bool)
        ensures
            r == channel_name(self.content()),
    ;

    fn is_ctcp(&self) -> (r: bool)
        ensures
            r == ctcp_framed(self.content()),
    ;

    fn remove_colorization(&self) -> (r: String)
        ensures
            r@ == uncoloured(
                self.content(),
                regex_replaced(formatting_codes(), self.content(), ""@),
            ),
    ;
}

impl<'a> IrcExt for &'a str {
    open spec fn content(&self) -> Seq<char> {
        self@
    }

    fn is_channel_name(&self) -> (r: bool) {
        begins_with_char(self, '#') || begins_with_char(self, '&') || begins_with_char(self, '+')
            || begins_with_char(self, '!')
    }

    fn is_ctcp(&self) -> (r: bool) {
        begins_with_char(self, '\u{1}')
    }

    fn remove_colorization(&self) -> (r: String) {
        let pattern = "\\x1f|\\x02|\\x12|\\x0f|\\x16|\\x03(?:\\d{1,2}(?:,\\d{1,2})?)?";
        match replace_all(pattern, self, "") {
            Some(t) => t,
            None => (*self).to_owned(),
        }
    }
}

impl IrcExt for String {
    open spec fn content(&self) -> Seq<char> {
        self@
    }

    fn is_channel_name(&self) -> (r: bool) {
        self.as_str().is_channel_name()
    }

    fn is_ctcp(&self) -> (r: bool) {
        self.as_str().is_ctcp()
    }

    fn remove_colorization(&self) -> (r: String) {
        self.as_str().remove_colorization()
    }
}

} // verus!

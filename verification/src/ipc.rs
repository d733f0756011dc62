use vstd::prelude::*;

use crate::text::{
    ascii_lower, ascii_lowercase, ascii_upper, upper_char, chars_equal, chars_of, contains, is_white_space, lossy_utf8, string_from_chars, trim,
    trim_chars, trim_end, trim_start, trim_str, upper, upper_chars, utf8_lossy,
};
use vstd::utf8::is_ascii_chars;

verus! {

/// A command that one overlay process sends to the running daemon.
#[derive(Debug, Clone, Copy, PartialEq, Eq, Structural)]
pub enum IpcCommand {
    Toggle,
    Cycle,
    Settings,
    Quit,
    Ping,
}

/// The wire keyword of a command.
pub open spec fn keyword(c: IpcCommand) -> Seq<char> {
    match c {
        IpcCommand::Toggle => seq!['T', 'O', 'G', 'G', 'L', 'E'],
        IpcCommand::Cycle => seq!['C', 'Y', 'C', 'L', 'E'],
        IpcCommand::Settings => seq!['S', 'E', 'T', 'T', 'I', 'N', 'G', 'S'],
        IpcCommand::Quit => seq!['Q', 'U', 'I', 'T'],
        IpcCommand::Ping => seq!['P', 'I', 'N', 'G'],
    }
}

/// The command whose keyword is exactly `k`, if any.
pub open spec fn command_named(k: Seq<char>) -> Option<IpcCommand> {
    if k == keyword(IpcCommand::Toggle) {
        Some(IpcCommand::Toggle)
    } else if k == keyword(IpcCommand::Cycle) {
        Some(IpcCommand::Cycle)
    } else if k == keyword(IpcCommand::Settings) {
        Some(IpcCommand::Settings)
    } else if k == keyword(IpcCommand::Quit) {
        Some(IpcCommand::Quit)
    } else if k == keyword(IpcCommand::Ping) {
        Some(IpcCommand::Ping)
    } else {
        None
    }
}

/// The command that a request text denotes: its keyword after trimming white
/// space and mapping to upper case.
pub open spec fn parse_command(s: Seq<char>) -> Option<IpcCommand> {
    command_named(upper(trim(s)))
}

impl IpcCommand {
    /// The wire keyword of this command.
    pub fn as_str(&self) -> (r: &'static str)
        ensures
            r@ == keyword(*self),
    {
        match self {
            IpcCommand::Toggle => {
                proof {
                    reveal_strlit("TOGGLE");
                }
                "TOGGLE"
            },
            IpcCommand::Cycle => {
                proof {
                    reveal_strlit("CYCLE");
                }
                "CYCLE"
            },
            IpcCommand::Settings => {
                proof {
                    reveal_strlit("SETTINGS");
                }
                "SETTINGS"
            },
            IpcCommand::Quit => {
                proof {
                    reveal_strlit("QUIT");
                }
                "QUIT"
            },
            IpcCommand::Ping => {
                proof {
                    reveal_strlit("PING");
                }
                "PING"
            },
        }
    }

    /// Reads a command from request text: surrounding white space is ignored
    /// and letters may be in any case. `None` when the text names no command.
    pub fn parse(s: &str) -> (r: Option<Self>)
        ensures
            r == parse_command(s@),
    {
        let cs = chars_of(s);
        let t = trim_chars(cs.as_slice());
        let u = upper_chars(t.as_slice());
        let toggle = chars_of(IpcCommand::Toggle.as_str());
        if chars_equal(u.as_slice(), toggle.as_slice()) {
            return Some(IpcCommand::Toggle);
        }
        let cycle = chars_of(IpcCommand::Cycle.as_str());
        if chars_equal(u.as_slice(), cycle.as_slice()) {
            return Some(IpcCommand::Cycle);
        }
        let settings = chars_of(IpcCommand::Settings.as_str());
        if chars_equal(u.as_slice(), settings.as_slice()) {
            return Some(IpcCommand::Settings);
        }
        let quit = chars_of(IpcCommand::Quit.as_str());
        if chars_equal(u.as_slice(), quit.as_slice()) {
            return Some(IpcCommand::Quit);
        }
        let ping = chars_of(IpcCommand::Ping.as_str());
        if chars_equal(u.as_slice(), ping.as_slice()) {
            return Some(IpcCommand::Ping);
        }
        None
    }
}


// ---------------------------------------------------------------------------
// Client side
// ---------------------------------------------------------------------------

/// The line a client sends for `cmd`: its keyword and a newline.
pub fn request_line(cmd: IpcCommand) -> (r: String)
    ensures
        r@ == keyword(cmd).push('\n'),
{
    let mut v = chars_of(cmd.as_str());
    v.push('\n');
    string_from_chars(v.as_slice())
}

/// The text a client reports for the raw answer of the daemon: the answer
/// without surrounding white space.
pub fn read_response(raw: &str) -> (r: String)
    ensures
        r@ == trim(raw@),
{
    trim_str(raw)
}

/// The word by which a running daemon answers a ping.
pub open spec fn pong_word() -> Seq<char> {
    seq!['P', 'O', 'N', 'G']
}

/// Whether an answer shows that a daemon is already running: it holds the
/// word `PONG`.
pub fn reports_running(answer: &str) -> (r: bool)
    ensures
        r == contains(answer@, pong_word()),
{
    let a = chars_of(answer);
    let p: Vec<char> = vec!['P', 'O', 'N', 'G'];
    assert(p@ =~= pong_word());
    crate::text::contains_chars(a.as_slice(), p.as_slice())
}

// ---------------------------------------------------------------------------
// Server side
// ---------------------------------------------------------------------------

/// What the daemon does with one request.
#[derive(Debug, Clone, Copy, PartialEq, Eq, Structural)]
pub enum ServerReply {
    /// The request names no command: nothing is answered.
    Ignore,
    /// A ping: answered with `PONG` at once.
    Pong,
    /// Any other command: handed to the overlay, whose result is answered.
    Dispatch(IpcCommand),
}

/// The daemon's decision for request text `s`.
pub open spec fn server_reply(s: Seq<char>) -> ServerReply {
    match parse_command(s) {
        None => ServerReply::Ignore,
        Some(IpcCommand::Ping) => ServerReply::Pong,
        Some(c) => ServerReply::Dispatch(c),
    }
}

/// Decides how the daemon answers a request text.
pub fn classify_request(request: &str) -> (r: ServerReply)
    ensures
        r == server_reply(request@),
{
    match IpcCommand::parse(request) {
        None => ServerReply::Ignore,
        Some(IpcCommand::Ping) => ServerReply::Pong,
        Some(c) => ServerReply::Dispatch(c),
    }
}

/// The text of a received request, decoded as `String::from_utf8_lossy` does.
pub fn decode_request(bytes: &[u8]) -> (r: String)
    ensures
        r@ == lossy_utf8(bytes@),
        vstd::utf8::valid_utf8(bytes@) ==> r@ == vstd::utf8::decode_utf8(bytes@),
{
    utf8_lossy(bytes)
}

/// Decides how the daemon answers the bytes of one request.
pub fn handle_request(bytes: &[u8]) -> (r: ServerReply)
    ensures
        r == server_reply(lossy_utf8(bytes@)),
        vstd::utf8::valid_utf8(bytes@) ==> r == server_reply(vstd::utf8::decode_utf8(bytes@)),
{
    let text = decode_request(bytes);
    classify_request(text.as_str())
}

/// The answer to a ping.
pub open spec fn pong_text() -> Seq<char> {
    pong_word().push('\n')
}

/// The answer to a ping: `PONG` and a newline.
pub fn pong_reply() -> (r: String)
    ensures
        r@ == pong_text(),
{
    let v: Vec<char> = vec!['P', 'O', 'N', 'G', '\n'];
    assert(v@ =~= pong_text());
    string_from_chars(v.as_slice())
}

/// The answer to a dispatched command whose handler returned `result`.
pub open spec fn ok_text(result: Seq<char>) -> Seq<char> {
    seq!['O', 'K', ':', ' '] + result + seq!['\n']
}

/// The answer to a dispatched command: `OK: `, the handler's result and a
/// newline.
pub fn ok_reply(result: &str) -> (r: String)
    ensures
        r@ == ok_text(result@),
{
    let mut v: Vec<char> = vec!['O', 'K', ':', ' '];
    let mut body = chars_of(result);
    v.append(&mut body);
    v.push('\n');
    assert(v@ =~= ok_text(result@));
    string_from_chars(v.as_slice())
}

// ---------------------------------------------------------------------------
// Laws
// ---------------------------------------------------------------------------

/// A string of capital ASCII letters is its own upper-case form.
proof fn lemma_upper_capitals(s: Seq<char>)
    requires
        forall|i: int| 0 <= i < s.len() ==> 'A' <= #[trigger] s[i] <= 'Z',
    ensures
        upper(s) == s,
    decreases s.len(),
{
    if s.len() > 0 {
        lemma_upper_capitals(s.drop_last());
        assert(s.drop_last().push(s.last()) =~= s);
    }
}

/// Trimming leaves a string alone that neither starts nor ends with white
/// space, and removes a trailing newline after it.
proof fn lemma_trim_keyword(k: Seq<char>)
    requires
        k.len() > 0,
        !is_white_space(k[0]),
        !is_white_space(k.last()),
    ensures
        trim(k) == k,
        trim(k.push('\n')) == k,
{
    let l = k.push('\n');
    assert(l[0] == k[0]);
    assert(trim_start(l) == l);
    assert(l.drop_last() =~= k);
    assert(trim_end(l) == trim_end(k));
}

/// The keyword of `c` satisfies the premises of the two lemmas above.
proof fn lemma_keyword_shape(c: IpcCommand)
    ensures
        keyword(c).len() > 0,
        forall|i: int| 0 <= i < keyword(c).len() ==> 'A' <= #[trigger] keyword(c)[i] <= 'Z',
        !is_white_space(keyword(c)[0]),
        !is_white_space(keyword(c).last()),
{
}

/// Law: a keyword reads back as its command.
pub proof fn law_parse_keyword(c: IpcCommand)
    ensures
        parse_command(keyword(c)) == Some(c),
{
    lemma_keyword_shape(c);
    lemma_trim_keyword(keyword(c));
    lemma_upper_capitals(keyword(c));
}

/// A string of capital ASCII letters, lower-cased, upper-cases back to itself.
proof fn lemma_upper_of_lowered_capitals(s: Seq<char>)
    requires
        forall|i: int| 0 <= i < s.len() ==> 'A' <= #[trigger] s[i] <= 'Z',
    ensures
        upper(ascii_lowercase(s)) == s,
    decreases s.len(),
{
    if s.len() > 0 {
        let l = ascii_lowercase(s);
        lemma_upper_of_lowered_capitals(s.drop_last());
        assert(l.drop_last() =~= ascii_lowercase(s.drop_last()));
        let c = s.last();
        assert(l.last() == ascii_lower(c));
        assert(ascii_upper(ascii_lower(c)) == c);
        assert(upper_char(l.last()) =~= seq![c]);
        assert(s.drop_last().push(c) =~= s);
    }
}

/// Law: a keyword in lower case reads back as its command too (the keyword is
/// ASCII, so `str::to_lowercase` lowers it character by character).
pub proof fn law_parse_lowercase_keyword(c: IpcCommand)
    ensures
        is_ascii_chars(keyword(c)),
        parse_command(ascii_lowercase(keyword(c))) == Some(c),
{
    let k = keyword(c);
    let l = ascii_lowercase(k);
    lemma_keyword_shape(c);
    assert(l[0] == ascii_lower(k[0]));
    assert(l.last() == ascii_lower(k.last()));
    assert(trim_start(l) == l);
    assert(trim_end(l) == l);
    lemma_upper_of_lowered_capitals(k);
}

/// Law: a text that parses as a command is, trimmed and upper-cased, that
/// command's keyword.
pub proof fn law_parse_names_keyword(s: Seq<char>, d: IpcCommand)
    requires
        parse_command(s) == Some(d),
    ensures
        keyword(d) == upper(trim(s)),
{
}

/// Law: the daemon understands every request line that a client sends, and
/// answers a ping with `PONG` and every other command through the overlay.
pub proof fn law_request_understood(c: IpcCommand)
    ensures
        parse_command(keyword(c).push('\n')) == Some(c),
        server_reply(keyword(c).push('\n')) == (if c == IpcCommand::Ping {
            ServerReply::Pong
        } else {
            ServerReply::Dispatch(c)
        }),
{
    lemma_keyword_shape(c);
    lemma_trim_keyword(keyword(c));
    lemma_upper_capitals(keyword(c));
}

/// Law: on the wire too, the UTF-8 bytes of every request line are valid
/// and the daemon's decision on them is the one on the line itself.
pub proof fn law_request_bytes_understood(c: IpcCommand)
    ensures
        vstd::utf8::valid_utf8(vstd::utf8::encode_utf8(keyword(c).push('\n'))),
        server_reply(vstd::utf8::decode_utf8(vstd::utf8::encode_utf8(keyword(c).push('\n')))) == (
        if c == IpcCommand::Ping {
            ServerReply::Pong
        } else {
            ServerReply::Dispatch(c)
        }),
{
    let line = keyword(c).push('\n');
    vstd::utf8::encode_utf8_valid_utf8(line);
    vstd::utf8::encode_utf8_decode_utf8(line);
    law_request_understood(c);
}

/// Law: the client reads the daemon's answer to a ping as `PONG`, and takes
/// it as proof of a running daemon.
pub proof fn law_pong_recognized()
    ensures
        trim(pong_text()) == pong_word(),
        contains(trim(pong_text()), pong_word()),
{
    lemma_trim_keyword(pong_word());
    assert(trim(pong_text()).subrange(0, 4) =~= pong_word());
    assert(crate::text::occurs_at(trim(pong_text()), pong_word(), 0));
}

} // verus!

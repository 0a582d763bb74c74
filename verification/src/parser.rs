//! The command parser: one raw protocol line, terminator included, in; a
//! typed command or a classified error out. Matching of the command token
//! and of the keyword after it is ASCII case-insensitive; addresses may be
//! written bare or wrapped in angle brackets; the line must end in CR LF.

use vstd::prelude::*;

use crate::CR;
use crate::LF;
use crate::SP;
use crate::ascii::ascii_eq_ignore_case;
use crate::ascii::ascii_upcase_compare;
use crate::ascii::lemma_eq_ignore_case_congruence;
use crate::ascii::spec_eq_ignore_case;
use crate::scanner::BytePred;
use crate::scanner::SliceScanner;
use crate::scanner::lemma_prefix_len_facts;
use crate::scanner::prefix_len;

verus! {

/// The opening angle bracket, `<`.
pub const LT: u8 = 60;

/// The closing angle bracket, `>`.
pub const GT: u8 = 62;

/// One parsed command. The hostname or address payload is the bytes taken
/// verbatim from the line. `Invalid` and `Unknown` stand for input that
/// did not parse; the parser reports them through its error type, and the
/// session machine rejects them in every state.
#[derive(Debug)]
pub enum Command {
    Helo(Vec<u8>),
    Ehlo(Vec<u8>),
    MailFrom(Vec<u8>),
    RcptTo(Vec<u8>),
    Data,
    Quit,
    Invalid,
    Unknown,
}

/// The mathematical image of a `Command`: payloads as byte sequences.
pub enum SpecCommand {
    Helo(Seq<u8>),
    Ehlo(Seq<u8>),
    MailFrom(Seq<u8>),
    RcptTo(Seq<u8>),
    Data,
    Quit,
    Invalid,
    Unknown,
}

impl View for Command {
    type V = SpecCommand;

    open spec fn view(&self) -> SpecCommand {
        match self {
            Command::Helo(h) => SpecCommand::Helo(h@),
            Command::Ehlo(h) => SpecCommand::Ehlo(h@),
            Command::MailFrom(a) => SpecCommand::MailFrom(a@),
            Command::RcptTo(a) => SpecCommand::RcptTo(a@),
            Command::Data => SpecCommand::Data,
            Command::Quit => SpecCommand::Quit,
            Command::Invalid => SpecCommand::Invalid,
            Command::Unknown => SpecCommand::Unknown,
        }
    }
}

/// Why a line failed to parse. A syntax error carries the human-readable
/// reason shown to the remote peer in the negative reply.
#[derive(Debug)]
pub enum ParseError {
    SyntaxError(&'static str),
    InvalidLineEnding,
    UnknownCommand,
}

/// The mathematical image of a `ParseError`: the reason as a character
/// sequence.
pub enum SpecParseError {
    SyntaxError(Seq<char>),
    InvalidLineEnding,
    UnknownCommand,
}

impl View for ParseError {
    type V = SpecParseError;

    open spec fn view(&self) -> SpecParseError {
        match self {
            ParseError::SyntaxError(m) => SpecParseError::SyntaxError(m.view()),
            ParseError::InvalidLineEnding => SpecParseError::InvalidLineEnding,
            ParseError::UnknownCommand => SpecParseError::UnknownCommand,
        }
    }
}

/// What the parser returned, seen at the mathematical level.
pub open spec fn parse_result_view(r: Result<Command, ParseError>) -> Result<
    SpecCommand,
    SpecParseError,
> {
    match r {
        Ok(c) => Ok(c@),
        Err(e) => Err(e@),
    }
}

/// The token `HELO`.
pub open spec fn spec_tok_helo() -> Seq<u8> {
    seq![72u8, 69u8, 76u8, 79u8]
}

/// The token `EHLO`.
pub open spec fn spec_tok_ehlo() -> Seq<u8> {
    seq![69u8, 72u8, 76u8, 79u8]
}

/// The token `MAIL`.
pub open spec fn spec_tok_mail() -> Seq<u8> {
    seq![77u8, 65u8, 73u8, 76u8]
}

/// The token `RCPT`.
pub open spec fn spec_tok_rcpt() -> Seq<u8> {
    seq![82u8, 67u8, 80u8, 84u8]
}

/// The token `DATA`.
pub open spec fn spec_tok_data() -> Seq<u8> {
    seq![68u8, 65u8, 84u8, 65u8]
}

/// The token `QUIT`.
pub open spec fn spec_tok_quit() -> Seq<u8> {
    seq![81u8, 85u8, 73u8, 84u8]
}

/// The keyword `FROM:`.
pub open spec fn spec_tok_from() -> Seq<u8> {
    seq![70u8, 82u8, 79u8, 77u8, 58u8]
}

/// The keyword `TO:`.
pub open spec fn spec_tok_to() -> Seq<u8> {
    seq![84u8, 79u8, 58u8]
}

/// Whether the line's last two bytes are CR then LF.
pub open spec fn spec_ends_with_crlf(line: Seq<u8>) -> bool {
    line.len() >= 2 && line[line.len() - 2] == CR && line[line.len() - 1] == LF
}

/// Strips the line's terminator: the line without its last two bytes if
/// and only if those two bytes are CR then LF.
pub fn strip_crlf(line: &[u8]) -> (r: Option<&[u8]>)
    ensures
        match r {
            Some(v) => spec_ends_with_crlf(line@) && v@ == line@.take(line@.len() - 2),
            None => !spec_ends_with_crlf(line@),
        },
{
    if line.len() >= 2 && line[line.len() - 2] == CR && line[line.len() - 1] == LF {
        Some(vstd::slice::slice_subrange(line, 0, line.len() - 2))
    } else {
        None
    }
}

/// The address after the keyword: either wrapped in angle brackets, which
/// must close and be the last byte of the line, or bare, running to the
/// end of the line (a space in a bare address is trailing garbage).
pub enum SpecAddr {
    Addr(Seq<u8>),
    MissingGt,
    Trailing,
}

/// Parses the byte run after `FROM:` or `TO:` as an address.
pub open spec fn spec_parse_addr(r: Seq<u8>) -> SpecAddr {
    if r.len() >= 1 && r[0] == LT {
        let inner = r.skip(1);
        let k = prefix_len(inner, BytePred::Ne(GT));
        if k == inner.len() {
            SpecAddr::MissingGt
        } else if k + 1 == inner.len() {
            SpecAddr::Addr(inner.take(k as int))
        } else {
            SpecAddr::Trailing
        }
    } else {
        let k = prefix_len(r, BytePred::Ne(SP));
        if k == r.len() {
            SpecAddr::Addr(r.take(k as int))
        } else {
            SpecAddr::Trailing
        }
    }
}

/// Parses what follows a `MAIL` or `RCPT` token: one or more spaces, the
/// keyword (`FROM:` or `TO:`, case-insensitive), then the address. The
/// three messages name the command's specific failures.
pub open spec fn spec_parse_envelope_args(
    rest: Seq<u8>,
    kw: Seq<u8>,
    msg_sp: Seq<char>,
    msg_gt: Seq<char>,
    msg_bad: Seq<char>,
) -> Result<Seq<u8>, SpecParseError> {
    if prefix_len(rest, BytePred::Eq(SP)) == 0 {
        Err(SpecParseError::SyntaxError(msg_sp))
    } else {
        let r1 = rest.skip(prefix_len(rest, BytePred::Eq(SP)) as int);
        if r1.len() >= kw.len() && spec_eq_ignore_case(r1.take(kw.len() as int), kw) {
            match spec_parse_addr(r1.skip(kw.len() as int)) {
                SpecAddr::Addr(a) => Ok(a),
                SpecAddr::MissingGt => Err(SpecParseError::SyntaxError(msg_gt)),
                SpecAddr::Trailing => Err(SpecParseError::SyntaxError(msg_bad)),
            }
        } else {
            Err(SpecParseError::SyntaxError(msg_bad))
        }
    }
}

/// Parses the line once its CR LF terminator has been removed: a four-byte
/// command token, case-insensitive, then the command's own grammar.
pub open spec fn spec_parse_body(body: Seq<u8>) -> Result<SpecCommand, SpecParseError> {
    if body.len() < 4 {
        Err(SpecParseError::UnknownCommand)
    } else {
        let tok = body.take(4);
        let rest = body.skip(4);
        if spec_eq_ignore_case(tok, spec_tok_helo()) {
            if rest.len() >= 1 && rest[0] == SP {
                Ok(SpecCommand::Helo(rest.skip(1)))
            } else {
                Err(SpecParseError::SyntaxError("Invalid HELO command: Missing SP"@))
            }
        } else if spec_eq_ignore_case(tok, spec_tok_ehlo()) {
            if rest.len() >= 1 && rest[0] == SP {
                Ok(SpecCommand::Ehlo(rest.skip(1)))
            } else {
                Err(SpecParseError::SyntaxError("Invalid EHLO command: Missing SP"@))
            }
        } else if spec_eq_ignore_case(tok, spec_tok_mail()) {
            match spec_parse_envelope_args(
                rest,
                spec_tok_from(),
                "Invalid MAIL command: Missing SP"@,
                "Invalid MAIL command: Missing >"@,
                "Invalid MAIL command"@,
            ) {
                Ok(a) => Ok(SpecCommand::MailFrom(a)),
                Err(e) => Err(e),
            }
        } else if spec_eq_ignore_case(tok, spec_tok_rcpt()) {
            match spec_parse_envelope_args(
                rest,
                spec_tok_to(),
                "Invalid RCPT command: Missing SP"@,
                "Invalid RCPT command: Missing >"@,
                "Invalid RCPT command"@,
            ) {
                Ok(a) => Ok(SpecCommand::RcptTo(a)),
                Err(e) => Err(e),
            }
        } else if spec_eq_ignore_case(tok, spec_tok_data()) {
            if rest.len() == 0 {
                Ok(SpecCommand::Data)
            } else {
                Err(SpecParseError::SyntaxError("Invalid DATA command"@))
            }
        } else if spec_eq_ignore_case(tok, spec_tok_quit()) {
            if rest.len() == 0 {
                Ok(SpecCommand::Quit)
            } else {
                Err(SpecParseError::SyntaxError("Invalid QUIT command"@))
            }
        } else {
            Err(SpecParseError::UnknownCommand)
        }
    }
}

/// What parsing one raw line yields: `InvalidLineEnding` unless the line
/// ends in CR then LF, and otherwise the parse of what precedes them.
pub open spec fn spec_parse_command(line: Seq<u8>) -> Result<SpecCommand, SpecParseError> {
    if !spec_ends_with_crlf(line) {
        Err(SpecParseError::InvalidLineEnding)
    } else {
        spec_parse_body(line.take(line.len() - 2))
    }
}

/// A four-byte token as a vector.
fn bytes4(a: u8, b: u8, c: u8, d: u8) -> (v: Vec<u8>)
    ensures
        v@ =~= seq![a, b, c, d],
{
    let mut v: Vec<u8> = Vec::new();
    v.push(a);
    v.push(b);
    v.push(c);
    v.push(d);
    v
}

/// The token `HELO` as a vector.
fn tok_helo() -> (v: Vec<u8>)
    ensures
        v@ == spec_tok_helo(),
{
    bytes4(72, 69, 76, 79)
}

/// The token `EHLO` as a vector.
fn tok_ehlo() -> (v: Vec<u8>)
    ensures
        v@ == spec_tok_ehlo(),
{
    bytes4(69, 72, 76, 79)
}

/// The token `MAIL` as a vector.
fn tok_mail() -> (v: Vec<u8>)
    ensures
        v@ == spec_tok_mail(),
{
    bytes4(77, 65, 73, 76)
}

/// The token `RCPT` as a vector.
fn tok_rcpt() -> (v: Vec<u8>)
    ensures
        v@ == spec_tok_rcpt(),
{
    bytes4(82, 67, 80, 84)
}

/// The token `DATA` as a vector.
fn tok_data() -> (v: Vec<u8>)
    ensures
        v@ == spec_tok_data(),
{
    bytes4(68, 65, 84, 65)
}

/// The token `QUIT` as a vector.
fn tok_quit() -> (v: Vec<u8>)
    ensures
        v@ == spec_tok_quit(),
{
    bytes4(81, 85, 73, 84)
}

/// The keyword `FROM:` as a vector.
fn tok_from() -> (v: Vec<u8>)
    ensures
        v@ == spec_tok_from(),
{
    let mut v = bytes4(70, 82, 79, 77);
    v.push(58);
    proof {
        assert(v@ =~= spec_tok_from());
    }
    v
}

/// The keyword `TO:` as a vector.
fn tok_to() -> (v: Vec<u8>)
    ensures
        v@ == spec_tok_to(),
{
    let mut v: Vec<u8> = Vec::new();
    v.push(84);
    v.push(79);
    v.push(58);
    proof {
        assert(v@ =~= spec_tok_to());
    }
    v
}

/// Consumes the separating spaces, the keyword and the address from the
/// scanner, which holds what followed a `MAIL` or `RCPT` token.
fn parse_envelope_args(
    sc: &mut SliceScanner,
    kw: &Vec<u8>,
    msg_sp: &'static str,
    msg_gt: &'static str,
    msg_bad: &'static str,
) -> (r: Result<Vec<u8>, ParseError>)
    requires
        old(sc).wf(),
    ensures
        (match r {
            Ok(a) => spec_parse_envelope_args(old(sc)@, kw@, msg_sp@, msg_gt@, msg_bad@)
                == Ok::<Seq<u8>, SpecParseError>(a@),
            Err(e) => spec_parse_envelope_args(old(sc)@, kw@, msg_sp@, msg_gt@, msg_bad@)
                == Err::<Seq<u8>, SpecParseError>(e@),
        }),
{
    let ghost rest = sc@;
    let sp = sc.pop_while(BytePred::Eq(SP));
    proof {
        lemma_prefix_len_facts(rest, BytePred::Eq(SP));
    }
    if sp.len() == 0 {
        return Err(ParseError::SyntaxError(msg_sp));
    }
    let ghost r1 = sc@;
    let tok = sc.pop_front(kw.len());
    if !ascii_eq_ignore_case(tok.as_slice(), kw.as_slice()) {
        return Err(ParseError::SyntaxError(msg_bad));
    }
    // The keyword matched, so it fit inside the remaining bytes.
    proof {
        assert(r1.len() >= kw@.len());
    }
    let front = sc.ref_front(1);
    if front.len() == 1 && front[0] == LT {
        let ghost r2 = sc@;
        let _ = sc.pop_front(1);
        let ghost inner = sc@;
        proof {
            assert(inner =~= r2.skip(1));
        }
        let addr = sc.pop_while(BytePred::Ne(GT));
        proof {
            lemma_prefix_len_facts(inner, BytePred::Ne(GT));
        }
        let gt = sc.pop_front(1);
        if !(gt.len() == 1 && gt[0] == GT) {
            proof {
                assert(prefix_len(inner, BytePred::Ne(GT)) == inner.len());
            }
            return Err(ParseError::SyntaxError(msg_gt));
        }
        proof {
            let k = prefix_len(inner, BytePred::Ne(GT)) as int;
            assert(sc@ =~= inner.skip(k + 1));
        }
        if sc.is_empty() {
            proof {
                let k = prefix_len(inner, BytePred::Ne(GT)) as int;
                assert(k + 1 == inner.len());
                assert(addr@ == inner.take(k));
                assert(spec_parse_addr(r2) == SpecAddr::Addr(addr@));
                assert(spec_parse_envelope_args(rest, kw@, msg_sp@, msg_gt@, msg_bad@)
                    == Ok::<Seq<u8>, SpecParseError>(addr@));
            }
            Ok(addr)
        } else {
            Err(ParseError::SyntaxError(msg_bad))
        }
    } else {
        let ghost r2 = sc@;
        let addr = sc.pop_while(BytePred::Ne(SP));
        proof {
            lemma_prefix_len_facts(r2, BytePred::Ne(SP));
        }
        if sc.is_empty() {
            proof {
                let k = prefix_len(r2, BytePred::Ne(SP)) as int;
                assert(k == r2.len());
                assert(addr@ == r2.take(k));
                assert(spec_parse_addr(r2) == SpecAddr::Addr(addr@));
                assert(spec_parse_envelope_args(rest, kw@, msg_sp@, msg_gt@, msg_bad@)
                    == Ok::<Seq<u8>, SpecParseError>(addr@));
            }
            Ok(addr)
        } else {
            Err(ParseError::SyntaxError(msg_bad))
        }
    }
}

/// Parses one raw protocol line, its CR LF terminator included, into a
/// command or a classified error, exactly as `spec_parse_command` says.
pub fn parse_command(line: &[u8]) -> (r: Result<Command, ParseError>)
    ensures
        parse_result_view(r) == spec_parse_command(line@),
{
    let mut sc = SliceScanner::new(line);
    let crlf = sc.pop_back(2);
    if !(crlf.len() == 2 && crlf[0] == CR && crlf[1] == LF) {
        return Err(ParseError::InvalidLineEnding);
    }
    let ghost body = sc@;
    proof {
        assert(body == line@.take(line@.len() - 2));
    }
    let cmd = sc.pop_front(4);
    let ghost rest = sc@;
    let t_helo = tok_helo();
    let t_ehlo = tok_ehlo();
    let t_mail = tok_mail();
    let t_rcpt = tok_rcpt();
    let t_data = tok_data();
    let t_quit = tok_quit();
    if ascii_eq_ignore_case(cmd.as_slice(), t_helo.as_slice()) {
        let front = sc.pop_front(1);
        if front.len() == 1 && front[0] == SP {
            Ok(Command::Helo(sc.data()))
        } else {
            Err(ParseError::SyntaxError("Invalid HELO command: Missing SP"))
        }
    } else if ascii_eq_ignore_case(cmd.as_slice(), t_ehlo.as_slice()) {
        let front = sc.pop_front(1);
        if front.len() == 1 && front[0] == SP {
            Ok(Command::Ehlo(sc.data()))
        } else {
            Err(ParseError::SyntaxError("Invalid EHLO command: Missing SP"))
        }
    } else if ascii_eq_ignore_case(cmd.as_slice(), t_mail.as_slice()) {
        let t_from = tok_from();
        match parse_envelope_args(
            &mut sc,
            &t_from,
            "Invalid MAIL command: Missing SP",
            "Invalid MAIL command: Missing >",
            "Invalid MAIL command",
        ) {
            Ok(a) => Ok(Command::MailFrom(a)),
            Err(e) => Err(e),
        }
    } else if ascii_eq_ignore_case(cmd.as_slice(), t_rcpt.as_slice()) {
        let t_to = tok_to();
        match parse_envelope_args(
            &mut sc,
            &t_to,
            "Invalid RCPT command: Missing SP",
            "Invalid RCPT command: Missing >",
            "Invalid RCPT command",
        ) {
            Ok(a) => Ok(Command::RcptTo(a)),
            Err(e) => Err(e),
        }
    } else if ascii_eq_ignore_case(cmd.as_slice(), t_data.as_slice()) {
        if sc.is_empty() {
            Ok(Command::Data)
        } else {
            Err(ParseError::SyntaxError("Invalid DATA command"))
        }
    } else if ascii_eq_ignore_case(cmd.as_slice(), t_quit.as_slice()) {
        if sc.is_empty() {
            Ok(Command::Quit)
        } else {
            Err(ParseError::SyntaxError("Invalid QUIT command"))
        }
    } else {
        Err(ParseError::UnknownCommand)
    }
}

/// A valid greeting line hands back its hostname exactly as given: for any
/// case variant of the `HELO` or `EHLO` token and any ASCII hostname, the
/// line made of the token, one space, the hostname, and CR LF parses to
/// that hostname, with no trimming beyond the single separating space.
pub proof fn lemma_hostname_taken_verbatim(tok: Seq<u8>, host: Seq<u8>)
    requires
        spec_eq_ignore_case(tok, spec_tok_helo()) || spec_eq_ignore_case(tok, spec_tok_ehlo()),
        crate::ascii::spec_all_ascii(host),
    ensures
        spec_eq_ignore_case(tok, spec_tok_helo()) ==> spec_parse_command(
            tok + seq![SP] + host + seq![CR, LF],
        ) == Ok::<SpecCommand, SpecParseError>(SpecCommand::Helo(host)),
        spec_eq_ignore_case(tok, spec_tok_ehlo()) ==> spec_parse_command(
            tok + seq![SP] + host + seq![CR, LF],
        ) == Ok::<SpecCommand, SpecParseError>(SpecCommand::Ehlo(host)),
{
    let line = tok + seq![SP] + host + seq![CR, LF];
    assert(tok.len() == 4);
    assert(line.len() == host.len() + 7);
    assert(line[line.len() - 2] == CR);
    assert(line[line.len() - 1] == LF);
    assert(spec_ends_with_crlf(line));
    let body = line.take(line.len() - 2);
    assert(body =~= tok + seq![SP] + host);
    assert(body.take(4) =~= tok);
    let rest = body.skip(4);
    assert(rest =~= seq![SP] + host);
    assert(rest[0] == SP);
    assert(rest.skip(1) =~= host);
    assert(!spec_eq_ignore_case(spec_tok_helo(), spec_tok_ehlo())) by {
        assert(crate::ascii::spec_upcase(72) != crate::ascii::spec_upcase(69));
    }
    if spec_eq_ignore_case(tok, spec_tok_helo()) {
        assert(spec_parse_body(body) == Ok::<SpecCommand, SpecParseError>(
            SpecCommand::Helo(host),
        ));
    } else {
        lemma_eq_ignore_case_congruence(tok, spec_tok_ehlo(), spec_tok_helo());
        assert(!spec_eq_ignore_case(tok, spec_tok_helo()));
        assert(spec_parse_body(body) == Ok::<SpecCommand, SpecParseError>(
            SpecCommand::Ehlo(host),
        ));
    }
}

/// Changing the case of the four-byte command token never changes what a
/// line parses to: two lines of the same length whose tokens are equal
/// ignoring ASCII case and whose remaining bytes are identical parse to
/// the same command or the same error.
pub proof fn lemma_token_case_insensitive(l1: Seq<u8>, l2: Seq<u8>)
    requires
        l1.len() == l2.len(),
        l1.len() >= 4,
        spec_eq_ignore_case(l1.take(4), l2.take(4)),
        l1.skip(4) == l2.skip(4),
    ensures
        spec_parse_command(l1) == spec_parse_command(l2),
{
    let n = l1.len() as int;
    assert forall|i: int| 4 <= i < n implies l1[i] == l2[i] by {
        assert(l1.skip(4)[i - 4] == l2.skip(4)[i - 4]);
    }
    assert forall|i: int| 0 <= i < 4 implies crate::ascii::spec_upcase(l1[i])
        == crate::ascii::spec_upcase(l2[i]) by {
        assert(crate::ascii::spec_upcase(l1.take(4)[i]) == crate::ascii::spec_upcase(
            l2.take(4)[i],
        ));
    }
    // The uppercase fold moves no byte onto or off CR or LF, so both lines
    // pass or fail the terminator check together.
    assert forall|i: int| 0 <= i < n implies (l1[i] == CR <==> l2[i] == CR) && (l1[i] == LF
        <==> l2[i] == LF) by {
        if i < 4 {
            assert(crate::ascii::spec_upcase(l1[i]) == crate::ascii::spec_upcase(l2[i]));
        }
    }
    assert(spec_ends_with_crlf(l1) == spec_ends_with_crlf(l2));
    if spec_ends_with_crlf(l1) {
        let b1 = l1.take(n - 2);
        let b2 = l2.take(n - 2);
        assert(b1.len() == b2.len());
        if b1.len() >= 4 {
            let t1 = b1.take(4);
            let t2 = b2.take(4);
            assert(t1 =~= l1.take(4));
            assert(t2 =~= l2.take(4));
            assert(b1.skip(4) =~= b2.skip(4));
            lemma_eq_ignore_case_congruence(t1, t2, spec_tok_helo());
            lemma_eq_ignore_case_congruence(t1, t2, spec_tok_ehlo());
            lemma_eq_ignore_case_congruence(t1, t2, spec_tok_mail());
            lemma_eq_ignore_case_congruence(t1, t2, spec_tok_rcpt());
            lemma_eq_ignore_case_congruence(t1, t2, spec_tok_data());
            lemma_eq_ignore_case_congruence(t1, t2, spec_tok_quit());
            assert(spec_parse_body(b1) == spec_parse_body(b2));
        }
    }
}

/// Case never decides an envelope command: for any case variants of the
/// `MAIL` token and the `FROM:` keyword (or of `RCPT` and `TO:`), any run
/// of one or more separating spaces, and any address part, the line made
/// of token, spaces, keyword, address part and CR LF parses to the result
/// the address part alone determines — the same for every case variant.
/// Together with `lemma_token_case_insensitive` this makes the parser's
/// token and keyword matching case-insensitive in full.
#[verifier::rlimit(50)]
pub proof fn lemma_envelope_case_insensitive(
    tok: Seq<u8>,
    kwv: Seq<u8>,
    sp_run: Seq<u8>,
    tail: Seq<u8>,
)
    requires
        spec_eq_ignore_case(tok, spec_tok_mail()) || spec_eq_ignore_case(tok, spec_tok_rcpt()),
        spec_eq_ignore_case(tok, spec_tok_mail()) ==> spec_eq_ignore_case(kwv, spec_tok_from()),
        spec_eq_ignore_case(tok, spec_tok_rcpt()) ==> spec_eq_ignore_case(kwv, spec_tok_to()),
        sp_run.len() >= 1,
        forall|i: int| 0 <= i < sp_run.len() ==> sp_run[i] == SP,
    ensures
        spec_eq_ignore_case(tok, spec_tok_mail()) ==> spec_parse_command(
            tok + sp_run + kwv + tail + seq![CR, LF],
        ) == (match spec_parse_addr(tail) {
            SpecAddr::Addr(a) => Ok::<SpecCommand, SpecParseError>(SpecCommand::MailFrom(a)),
            SpecAddr::MissingGt => Err(
                SpecParseError::SyntaxError("Invalid MAIL command: Missing >"@),
            ),
            SpecAddr::Trailing => Err(SpecParseError::SyntaxError("Invalid MAIL command"@)),
        }),
        spec_eq_ignore_case(tok, spec_tok_rcpt()) ==> spec_parse_command(
            tok + sp_run + kwv + tail + seq![CR, LF],
        ) == (match spec_parse_addr(tail) {
            SpecAddr::Addr(a) => Ok::<SpecCommand, SpecParseError>(SpecCommand::RcptTo(a)),
            SpecAddr::MissingGt => Err(
                SpecParseError::SyntaxError("Invalid RCPT command: Missing >"@),
            ),
            SpecAddr::Trailing => Err(SpecParseError::SyntaxError("Invalid RCPT command"@)),
        }),
{
    let line = tok + sp_run + kwv + tail + seq![CR, LF];
    assert(tok.len() == 4);
    let m = sp_run.len() as int;
    let kwlen = kwv.len() as int;
    assert(kwlen >= 3);
    assert(line.len() == 4 + m + kwlen + tail.len() + 2);
    assert(line[line.len() - 2] == CR);
    assert(line[line.len() - 1] == LF);
    assert(spec_ends_with_crlf(line));
    let body = line.take(line.len() - 2);
    assert(body =~= tok + sp_run + kwv + tail);
    assert(body.take(4) =~= tok);
    let rest = body.skip(4);
    assert(rest =~= sp_run + kwv + tail);
    // The space run ends exactly where the keyword begins: a case variant
    // of the keyword's first letter is never a space.
    assert(kwv[0] != SP) by {
        assert(crate::ascii::spec_upcase(kwv[0]) == crate::ascii::spec_upcase(SP) ==> kwv[0]
            == SP);
        if spec_eq_ignore_case(tok, spec_tok_mail()) {
            assert(crate::ascii::spec_upcase(kwv[0]) == crate::ascii::spec_upcase(
                spec_tok_from()[0],
            ));
        } else {
            assert(crate::ascii::spec_upcase(kwv[0]) == crate::ascii::spec_upcase(
                spec_tok_to()[0],
            ));
        }
    }
    assert forall|i: int| 0 <= i < m implies BytePred::Eq(SP).holds(rest[i]) by {
        assert(rest[i] == sp_run[i]);
    }
    assert(rest[m] == kwv[0]);
    assert(!BytePred::Eq(SP).holds(rest[m]));
    crate::scanner::lemma_prefix_len_unique(rest, BytePred::Eq(SP), m);
    let r1 = rest.skip(m);
    assert(r1 =~= kwv + tail);
    assert(r1.take(kwlen) =~= kwv);
    assert(r1.skip(kwlen) =~= tail);
    if spec_eq_ignore_case(tok, spec_tok_mail()) {
        lemma_eq_ignore_case_congruence(tok, spec_tok_mail(), spec_tok_helo());
        lemma_eq_ignore_case_congruence(tok, spec_tok_mail(), spec_tok_ehlo());
        assert(!spec_eq_ignore_case(spec_tok_mail(), spec_tok_helo())) by {
            assert(crate::ascii::spec_upcase(77) != crate::ascii::spec_upcase(72));
        }
        assert(!spec_eq_ignore_case(spec_tok_mail(), spec_tok_ehlo())) by {
            assert(crate::ascii::spec_upcase(77) != crate::ascii::spec_upcase(69));
        }
        assert(spec_eq_ignore_case(r1.take(5), spec_tok_from()));
        assert(spec_parse_envelope_args(
            rest,
            spec_tok_from(),
            "Invalid MAIL command: Missing SP"@,
            "Invalid MAIL command: Missing >"@,
            "Invalid MAIL command"@,
        ) == (match spec_parse_addr(tail) {
            SpecAddr::Addr(a) => Ok::<Seq<u8>, SpecParseError>(a),
            SpecAddr::MissingGt => Err(
                SpecParseError::SyntaxError("Invalid MAIL command: Missing >"@),
            ),
            SpecAddr::Trailing => Err(SpecParseError::SyntaxError("Invalid MAIL command"@)),
        }));
    } else {
        lemma_eq_ignore_case_congruence(tok, spec_tok_rcpt(), spec_tok_helo());
        lemma_eq_ignore_case_congruence(tok, spec_tok_rcpt(), spec_tok_ehlo());
        lemma_eq_ignore_case_congruence(tok, spec_tok_rcpt(), spec_tok_mail());
        assert(!spec_eq_ignore_case(spec_tok_rcpt(), spec_tok_helo())) by {
            assert(crate::ascii::spec_upcase(82) != crate::ascii::spec_upcase(72));
        }
        assert(!spec_eq_ignore_case(spec_tok_rcpt(), spec_tok_ehlo())) by {
            assert(crate::ascii::spec_upcase(82) != crate::ascii::spec_upcase(69));
        }
        assert(!spec_eq_ignore_case(spec_tok_rcpt(), spec_tok_mail())) by {
            assert(crate::ascii::spec_upcase(82) != crate::ascii::spec_upcase(77));
        }
        assert(spec_eq_ignore_case(r1.take(3), spec_tok_to()));
        assert(spec_parse_envelope_args(
            rest,
            spec_tok_to(),
            "Invalid RCPT command: Missing SP"@,
            "Invalid RCPT command: Missing >"@,
            "Invalid RCPT command"@,
        ) == (match spec_parse_addr(tail) {
            SpecAddr::Addr(a) => Ok::<Seq<u8>, SpecParseError>(a),
            SpecAddr::MissingGt => Err(
                SpecParseError::SyntaxError("Invalid RCPT command: Missing >"@),
            ),
            SpecAddr::Trailing => Err(SpecParseError::SyntaxError("Invalid RCPT command"@)),
        }));
    }
}

/// The bare kind of a command, with no payload: what a quick look at a
/// line's first four bytes can tell.
#[derive(PartialEq, Eq, Structural, Clone, Copy, Debug)]
pub enum SmtpCommand {
    Ehlo,
    Helo,
    Mail,
    Rcpt,
    Data,
    Unknown,
}

/// The kind named by the line's four-byte command token, compared ASCII
/// case-insensitively; `Unknown` if the line is shorter than a token or
/// the token matches no command.
pub open spec fn spec_parse_line(line: Seq<u8>) -> SmtpCommand {
    if line.len() < 4 {
        SmtpCommand::Unknown
    } else {
        let cmd = line.take(4);
        if spec_eq_ignore_case(cmd, spec_tok_ehlo()) {
            SmtpCommand::Ehlo
        } else if spec_eq_ignore_case(cmd, spec_tok_helo()) {
            SmtpCommand::Helo
        } else if spec_eq_ignore_case(cmd, spec_tok_mail()) {
            SmtpCommand::Mail
        } else if spec_eq_ignore_case(cmd, spec_tok_rcpt()) {
            SmtpCommand::Rcpt
        } else if spec_eq_ignore_case(cmd, spec_tok_data()) {
            SmtpCommand::Data
        } else {
            SmtpCommand::Unknown
        }
    }
}

/// Classifies a raw line by its command token alone, without checking the
/// rest of its grammar.
pub fn parse_line(line: &[u8]) -> (r: SmtpCommand)
    ensures
        r == spec_parse_line(line@),
{
    if line.len() >= 4 {
        let cmd = vstd::slice::slice_subrange(line, 0, 4);
        let t_ehlo = tok_ehlo();
        let t_helo = tok_helo();
        let t_mail = tok_mail();
        let t_rcpt = tok_rcpt();
        let t_data = tok_data();
        if ascii_upcase_compare(cmd, t_ehlo.as_slice()) {
            SmtpCommand::Ehlo
        } else if ascii_upcase_compare(cmd, t_helo.as_slice()) {
            SmtpCommand::Helo
        } else if ascii_upcase_compare(cmd, t_mail.as_slice()) {
            SmtpCommand::Mail
        } else if ascii_upcase_compare(cmd, t_rcpt.as_slice()) {
            SmtpCommand::Rcpt
        } else if ascii_upcase_compare(cmd, t_data.as_slice()) {
            SmtpCommand::Data
        } else {
            SmtpCommand::Unknown
        }
    } else {
        SmtpCommand::Unknown
    }
}

} // verus!

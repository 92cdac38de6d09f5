//! A scanner for the small template language used in request text:
//!
//!     ${[ my_var ]}
//!     ${[ my_fn() ]}
//!     ${[ my_fn(my_var, "A String") ]}
//!
//! Text outside tags is kept as raw text. A tag that does not parse is kept
//! as raw text too.
use crate::text::{chars_of, string_from_chars};
use vstd::prelude::*;

verus! {

/// An argument of a function tag.
#[derive(Clone, PartialEq, Debug)]
pub enum Val {
    Str(String),
    Ident(String),
}

/// One piece of a scanned template.
#[derive(Clone, PartialEq, Debug)]
pub enum Token {
    Raw(String),
    Var { name: String },
    Fn { name: String, args: Vec<Val> },
    Eof,
}

/// What a `Val` holds, as sequences of characters.
pub enum ValModel {
    Str(Seq<char>),
    Ident(Seq<char>),
}

/// What a `Token` holds, as sequences of characters.
pub enum TokenModel {
    Raw(Seq<char>),
    Var(Seq<char>),
    Fn(Seq<char>, Seq<ValModel>),
    Eof,
}

impl View for Val {
    type V = ValModel;

    open spec fn view(&self) -> ValModel {
        match self {
            Val::Str(s) => ValModel::Str(s@),
            Val::Ident(s) => ValModel::Ident(s@),
        }
    }
}

pub open spec fn vals_view(v: Seq<Val>) -> Seq<ValModel> {
    v.map_values(|x: Val| x@)
}

impl View for Token {
    type V = TokenModel;

    open spec fn view(&self) -> TokenModel {
        match self {
            Token::Raw(s) => TokenModel::Raw(s@),
            Token::Var { name } => TokenModel::Var(name@),
            Token::Fn { name, args } => TokenModel::Fn(name@, vals_view(args@)),
            Token::Eof => TokenModel::Eof,
        }
    }
}

pub open spec fn tokens_view(v: Seq<Token>) -> Seq<TokenModel> {
    v.map_values(|x: Token| x@)
}

/// The state of a parser: its input, its position in it, the tokens found so
/// far, and the raw text read since the last token.
pub struct ParserModel {
    pub chars: Seq<char>,
    pub pos: int,
    pub tokens: Seq<TokenModel>,
    pub text: Seq<char>,
}

/// Whether `char::is_alphanumeric` holds of `c`.
pub uninterp spec fn char_alphanumeric(c: char) -> bool;

/// Whether `c` has Unicode's White_Space property, which is what
/// `char::is_whitespace` tests.
pub open spec fn char_whitespace(c: char) -> bool {
    let v = c as u32;
    (0x09 <= v <= 0x0d) || v == 0x20 || v == 0x85 || v == 0xa0 || v == 0x1680 || (0x2000 <= v
        <= 0x200a) || v == 0x2028 || v == 0x2029 || v == 0x202f || v == 0x205f || v == 0x3000
}

pub open spec fn is_ascii_alphanumeric(c: char) -> bool {
    ('a' <= c && c <= 'z') || ('A' <= c && c <= 'Z') || ('0' <= c && c <= '9')
}

pub open spec fn open_tag() -> Seq<char> {
    seq!['$', '{', '[']
}

pub open spec fn close_tag() -> Seq<char> {
    seq![']', '}']
}

pub open spec fn is_ident_char(c: char) -> bool {
    char_alphanumeric(c) || c == '_'
}

/// Whether `v` stands in `s` at position `p`.
pub open spec fn matches_at(s: Seq<char>, p: int, v: Seq<char>) -> bool {
    0 <= p && p + v.len() <= s.len() && s.subrange(p, p + v.len()) == v
}

/// The first position at or after `p` that holds no whitespace.
pub open spec fn skip_ws(s: Seq<char>, p: int) -> int
    decreases s.len() - p,
{
    if 0 <= p < s.len() && char_whitespace(s[p]) {
        skip_ws(s, p + 1)
    } else {
        p
    }
}

/// The end of the run of identifier characters that starts at `p`.
pub open spec fn ident_end(s: Seq<char>, p: int) -> int
    decreases s.len() - p,
{
    if 0 <= p < s.len() && is_ident_char(s[p]) {
        ident_end(s, p + 1)
    } else {
        p
    }
}

/// The rest of a quoted string whose body starts at `p`, `acc` being what was
/// read of it so far: its text and the position after the closing quote.
/// A backslash takes the next character as it is.
pub open spec fn string_body(s: Seq<char>, p: int, acc: Seq<char>) -> Option<(Seq<char>, int)>
    decreases s.len() - p,
{
    if p < 0 || p >= s.len() {
        None
    } else if s[p] == '\\' {
        if p + 1 < s.len() {
            string_body(s, p + 2, acc.push(s[p + 1]))
        } else {
            None
        }
    } else if s[p] == '"' {
        Some((acc, p + 1))
    } else {
        string_body(s, p + 1, acc.push(s[p]))
    }
}

/// An identifier or a quoted string at `p`, and the position after it.
pub open spec fn ident_or_string(s: Seq<char>, p: int) -> Option<(ValModel, int)> {
    let e = ident_end(s, p);
    if e > p {
        Some((ValModel::Ident(s.subrange(p, e)), e))
    } else if matches_at(s, p, seq!['"']) {
        match string_body(s, p + 1, seq![]) {
            Some((t, q)) => Some((ValModel::Str(t), q)),
            None => None,
        }
    } else {
        None
    }
}

/// The arguments of a function tag from `p` on, after `args` were read: the
/// list (or `None` where a separator is missing or nothing can be read), and
/// the position where reading stopped.
pub open spec fn fn_args(s: Seq<char>, p: int, args: Seq<ValModel>) -> (Option<Seq<ValModel>>, int)
    decreases s.len() - p,
{
    if p < 0 || p >= s.len() {
        (Some(args), p)
    } else {
        let p1 = skip_ws(s, p);
        let (args1, p2) = match ident_or_string(s, p1) {
            Some((v, q)) => (args.push(v), q),
            None => (args, p1),
        };
        let p3 = skip_ws(s, p2);
        if matches_at(s, p3, seq![')']) {
            (Some(args1), p3 + 1)
        } else if args1.len() > 0 && !matches_at(s, p3, seq![',']) {
            (None, p3)
        } else {
            let p4 = if args1.len() > 0 {
                p3 + 1
            } else {
                p3
            };
            if p4 <= p || p4 > s.len() {
                (None, p4)
            } else {
                fn_args(s, p4, args1)
            }
        }
    }
}

/// The tag whose body starts at `p` (just after `${[`), and the position
/// after its closing `]}`.
pub open spec fn tag(s: Seq<char>, p: int) -> Option<(TokenModel, int)> {
    let p1 = skip_ws(s, p);
    let e = ident_end(s, p1);
    if e <= p1 {
        None
    } else {
        let name = s.subrange(p1, e);
        let (args, q) = if matches_at(s, e, seq!['(']) {
            fn_args(s, e + 1, seq![])
        } else {
            (None, e)
        };
        let q2 = skip_ws(s, q);
        if matches_at(s, q2, close_tag()) {
            let t = match args {
                Some(a) => TokenModel::Fn(name, a),
                None => TokenModel::Var(name),
            };
            Some((t, q2 + 2))
        } else {
            None
        }
    }
}

/// `toks` followed by `text` as a raw token, where `text` is not empty.
pub open spec fn flush(toks: Seq<TokenModel>, text: Seq<char>) -> Seq<TokenModel> {
    if text.len() > 0 {
        toks.push(TokenModel::Raw(text))
    } else {
        toks
    }
}

/// Scans `s` from `p` on, after `toks` were found and `text` was read: the
/// tokens and the pending raw text at the end of the input.
pub open spec fn scan(s: Seq<char>, p: int, toks: Seq<TokenModel>, text: Seq<char>) -> (
    Seq<TokenModel>,
    Seq<char>,
)
    decreases s.len() - p,
{
    if p < 0 || p >= s.len() {
        (toks, text)
    } else if matches_at(s, p, open_tag()) {
        match tag(s, p + 3) {
            Some((t, q)) => if p < q <= s.len() {
                scan(s, q, flush(toks, text).push(t), seq![])
            } else {
                (toks, text)
            },
            None => scan(s, p + 3, toks, text + open_tag()),
        }
    } else {
        scan(s, p + 1, toks, text.push(s[p]))
    }
}

/// What `parse` returns from parser state `m`.
pub open spec fn parse_result(m: ParserModel) -> Seq<TokenModel> {
    let (toks, text) = scan(m.chars, m.pos, m.tokens, m.text);
    flush(toks, text).push(TokenModel::Eof)
}

/// Relies on `char::is_alphanumeric`: Alphabetic or Numeric in Unicode, which
/// among ASCII characters are the letters and the digits.
#[verifier::external_body]
fn is_alphanumeric(c: char) -> (r: bool)
    ensures
        r == char_alphanumeric(c),
        (c as u32) < 128 ==> (r <==> is_ascii_alphanumeric(c)),
{
    c.is_alphanumeric()
}

fn is_whitespace(c: char) -> (r: bool)
    ensures
        r == char_whitespace(c),
{
    let v = c as u32;
    (0x09 <= v && v <= 0x0d) || v == 0x20 || v == 0x85 || v == 0xa0 || v == 0x1680 || (0x2000 <= v
        && v <= 0x200a) || v == 0x2028 || v == 0x2029 || v == 0x202f || v == 0x205f || v == 0x3000
}

fn copy_val(v: &Val) -> (r: Val)
    ensures
        r@ == v@,
{
    match v {
        Val::Str(s) => Val::Str(s.clone()),
        Val::Ident(s) => Val::Ident(s.clone()),
    }
}

fn copy_vals(v: &Vec<Val>) -> (r: Vec<Val>)
    ensures
        vals_view(r@) == vals_view(v@),
{
    let mut r: Vec<Val> = Vec::new();
    let mut i: usize = 0;
    while i < v.len()
        invariant
            i <= v.len(),
            r.len() == i,
            forall|j: int| 0 <= j < i ==> (#[trigger] r@[j])@ == v@[j]@,
        decreases v.len() - i,
    {
        r.push(copy_val(&v[i]));
        i += 1;
    }
    assert(vals_view(r@) =~= vals_view(v@));
    r
}

fn copy_token(t: &Token) -> (r: Token)
    ensures
        r@ == t@,
{
    match t {
        Token::Raw(s) => Token::Raw(s.clone()),
        Token::Var { name } => Token::Var { name: name.clone() },
        Token::Fn { name, args } => Token::Fn { name: name.clone(), args: copy_vals(args) },
        Token::Eof => Token::Eof,
    }
}

fn copy_tokens(v: &Vec<Token>) -> (r: Vec<Token>)
    ensures
        tokens_view(r@) == tokens_view(v@),
{
    let mut r: Vec<Token> = Vec::new();
    let mut i: usize = 0;
    while i < v.len()
        invariant
            i <= v.len(),
            r.len() == i,
            forall|j: int| 0 <= j < i ==> (#[trigger] r@[j])@ == v@[j]@,
        decreases v.len() - i,
    {
        r.push(copy_token(&v[i]));
        i += 1;
    }
    assert(tokens_view(r@) =~= tokens_view(v@));
    r
}

fn pattern1(a: char) -> (r: Vec<char>)
    ensures
        r@ == seq![a],
{
    let r = vec![a];
    assert(r@ =~= seq![a]);
    r
}

fn pattern2(a: char, b: char) -> (r: Vec<char>)
    ensures
        r@ == seq![a, b],
{
    let r = vec![a, b];
    assert(r@ =~= seq![a, b]);
    r
}

fn pattern3(a: char, b: char, c: char) -> (r: Vec<char>)
    ensures
        r@ == seq![a, b, c],
{
    let r = vec![a, b, c];
    assert(r@ =~= seq![a, b, c]);
    r
}

fn is_ident_char_exec(c: char) -> (r: bool)
    ensures
        r == is_ident_char(c),
{
    is_alphanumeric(c) || c == '_'
}

pub open spec fn opt_vals_view(r: Option<Vec<Val>>) -> Option<Seq<ValModel>> {
    match r {
        Some(v) => Some(vals_view(v@)),
        None => None,
    }
}

/// Splits template text into raw text, variable tags and function tags.
pub struct Parser {
    tokens: Vec<Token>,
    chars: Vec<char>,
    pos: usize,
    curr_text: Vec<char>,
}

impl View for Parser {
    type V = ParserModel;

    closed spec fn view(&self) -> ParserModel {
        ParserModel {
            chars: self.chars@,
            pos: self.pos as int,
            tokens: tokens_view(self.tokens@),
            text: self.curr_text@,
        }
    }
}

impl Parser {
    /// The position never passes the end of the input.
    pub open spec fn wf(&self) -> bool {
        0 <= self@.pos <= self@.chars.len()
    }

    pub fn new(text: &str) -> (r: Parser)
        ensures
            r.wf(),
            r@ == (ParserModel { chars: text@, pos: 0, tokens: seq![], text: seq![] }),
    {
        let r = Parser { tokens: Vec::new(), chars: chars_of(text), pos: 0, curr_text: Vec::new() };
        assert(tokens_view(r.tokens@) =~= seq![]);
        r
    }

    /// Runs the scanner from the current position to the end of the input and
    /// returns every token found, ending with `Token::Eof`.
    pub fn parse(&mut self) -> (r: Vec<Token>)
        requires
            old(self).wf(),
        ensures
            tokens_view(r@) == parse_result(old(self)@),
            final(self).wf(),
            final(self)@.chars == old(self)@.chars,
            final(self)@.pos == old(self)@.chars.len(),
            final(self)@.tokens == tokens_view(r@),
            final(self)@.text == Seq::<char>::empty(),
    {
        let ghost s = self.chars@;
        while self.pos < self.chars.len()
            invariant
                self.pos <= self.chars.len(),
                self.chars@ == s,
                scan(s, self.pos as int, tokens_view(self.tokens@), self.curr_text@) == scan(
                    s,
                    old(self).pos as int,
                    tokens_view(old(self).tokens@),
                    old(self).curr_text@,
                ),
            decreases self.chars.len() - self.pos,
        {
            let ghost p = self.pos as int;
            let ghost x = self.curr_text@;
            if self.match_str(&pattern3('$', '{', '[')) {
                let start_curr = self.pos;
                match self.parse_tag() {
                    Some(t) => self.push_token(t),
                    None => {
                        self.pos = start_curr;
                        self.curr_text.push('$');
                        self.curr_text.push('{');
                        self.curr_text.push('[');
                        assert(self.curr_text@ =~= x + open_tag());
                    },
                }
            } else {
                let ch = self.next_char();
                self.curr_text.push(ch);
            }
        }
        self.push_token(Token::Eof);
        copy_tokens(&self.tokens)
    }

    spec fn same_rest(&self, other: &Parser) -> bool {
        &&& self.chars == other.chars
        &&& self.tokens == other.tokens
        &&& self.curr_text == other.curr_text
    }

    fn parse_tag(&mut self) -> (r: Option<Token>)
        requires
            old(self).pos <= old(self).chars.len(),
        ensures
            final(self).same_rest(old(self)),
            old(self).pos <= final(self).pos <= final(self).chars.len(),
            match r {
                Some(t) => tag(old(self).chars@, old(self).pos as int) == Some(
                    (t@, final(self).pos as int),
                ),
                None => tag(old(self).chars@, old(self).pos as int) is None,
            },
    {
        self.skip_whitespace();
        let name = match self.parse_ident() {
            None => return None,
            Some(v) => v,
        };
        let args = if self.match_str(&pattern1('(')) {
            self.parse_fn_args()
        } else {
            None
        };
        self.skip_whitespace();
        if !self.match_str(&pattern2(']', '}')) {
            return None;
        }
        Some(
            match args {
                Some(a) => Token::Fn { args: a, name },
                None => Token::Var { name },
            },
        )
    }

    fn parse_fn_args(&mut self) -> (r: Option<Vec<Val>>)
        requires
            old(self).pos <= old(self).chars.len(),
        ensures
            final(self).same_rest(old(self)),
            old(self).pos <= final(self).pos <= final(self).chars.len(),
            fn_args(old(self).chars@, old(self).pos as int, seq![]) == (
                opt_vals_view(r),
                final(self).pos as int,
            ),
    {
        let ghost s = self.chars@;
        let mut args: Vec<Val> = Vec::new();
        assert(vals_view(args@) =~= seq![]);
        while self.pos < self.chars.len()
            invariant
                self.same_rest(old(self)),
                old(self).pos <= self.pos <= self.chars.len(),
                self.chars@ == s,
                fn_args(s, old(self).pos as int, seq![]) == fn_args(
                    s,
                    self.pos as int,
                    vals_view(args@),
                ),
            decreases self.chars.len() - self.pos,
        {
            let p = self.pos;
            let ghost a0 = args@;
            self.skip_whitespace();
            match self.parse_ident_or_string() {
                Some(v) => {
                    args.push(v);
                    assert(vals_view(args@) =~= vals_view(a0).push(v@));
                },
                None => {},
            }
            self.skip_whitespace();
            if self.match_str(&pattern1(')')) {
                return Some(args);
            }
            if args.len() > 0 && !self.match_str(&pattern1(',')) {
                return None;
            }
            if self.pos <= p {
                return None;
            }
        }
        Some(args)
    }

    fn parse_ident_or_string(&mut self) -> (r: Option<Val>)
        requires
            old(self).pos <= old(self).chars.len(),
        ensures
            final(self).same_rest(old(self)),
            old(self).pos <= final(self).pos <= final(self).chars.len(),
            match r {
                Some(v) => ident_or_string(old(self).chars@, old(self).pos as int) == Some(
                    (v@, final(self).pos as int),
                ),
                None => ident_or_string(old(self).chars@, old(self).pos as int) is None
                    && final(self).pos == old(self).pos,
            },
    {
        if let Some(i) = self.parse_ident() {
            Some(Val::Ident(i))
        } else if let Some(s) = self.parse_string() {
            Some(Val::Str(s))
        } else {
            None
        }
    }

    fn parse_ident(&mut self) -> (r: Option<String>)
        requires
            old(self).pos <= old(self).chars.len(),
        ensures
            final(self).same_rest(old(self)),
            old(self).pos <= final(self).pos <= final(self).chars.len(),
            final(self).pos == ident_end(old(self).chars@, old(self).pos as int),
            match r {
                Some(t) => final(self).pos > old(self).pos && t@ == old(self).chars@.subrange(
                    old(self).pos as int,
                    final(self).pos as int,
                ),
                None => final(self).pos == old(self).pos,
            },
    {
        let start = self.pos;
        let mut text: Vec<char> = Vec::new();
        while self.pos < self.chars.len() && is_ident_char_exec(self.chars[self.pos])
            invariant
                self.same_rest(old(self)),
                start == old(self).pos,
                start <= self.pos <= self.chars.len(),
                ident_end(self.chars@, self.pos as int) == ident_end(self.chars@, start as int),
                text@ == self.chars@.subrange(start as int, self.pos as int),
            decreases self.chars.len() - self.pos,
        {
            text.push(self.chars[self.pos]);
            self.pos += 1;
            assert(text@ =~= self.chars@.subrange(start as int, self.pos as int));
        }
        if text.len() == 0 {
            return None;
        }
        Some(string_from_chars(&text))
    }

    fn parse_string(&mut self) -> (r: Option<String>)
        requires
            old(self).pos <= old(self).chars.len(),
        ensures
            final(self).same_rest(old(self)),
            old(self).pos <= final(self).pos <= final(self).chars.len(),
            ({
                let s = old(self).chars@;
                let p = old(self).pos as int;
                match r {
                    Some(t) => matches_at(s, p, seq!['"']) && string_body(s, p + 1, seq![]) == Some(
                        (t@, final(self).pos as int),
                    ),
                    None => final(self).pos == p && !(matches_at(s, p, seq!['"']) && string_body(
                        s,
                        p + 1,
                        seq![],
                    ) is Some),
                }
            }),
    {
        let ghost s = self.chars@;
        let start = self.pos;
        if !self.match_str(&pattern1('"')) {
            return None;
        }
        let mut text: Vec<char> = Vec::new();
        let mut done = false;
        let mut ok = false;
        while self.pos < self.chars.len() && !done
            invariant
                self.same_rest(old(self)),
                self.chars@ == s,
                start == old(self).pos,
                start < self.pos <= self.chars.len(),
                !done ==> string_body(s, self.pos as int, text@) == string_body(
                    s,
                    start + 1,
                    seq![],
                ),
                done && ok ==> string_body(s, start + 1, seq![]) == Some(
                    (text@, self.pos as int),
                ),
                ok ==> done,
                done && !ok ==> string_body(s, start + 1, seq![]) is None,
            decreases self.chars.len() - self.pos,
        {
            let ch = self.next_char();
            if ch == '\\' {
                if self.pos < self.chars.len() {
                    let escaped = self.next_char();
                    text.push(escaped);
                } else {
                    done = true;
                }
            } else if ch == '"' {
                done = true;
                ok = true;
            } else {
                text.push(ch);
            }
        }
        if !(done && ok) {
            self.pos = start;
            return None;
        }
        Some(string_from_chars(&text))
    }

    fn skip_whitespace(&mut self)
        requires
            old(self).pos <= old(self).chars.len(),
        ensures
            final(self).same_rest(old(self)),
            old(self).pos <= final(self).pos <= final(self).chars.len(),
            final(self).pos == skip_ws(old(self).chars@, old(self).pos as int),
    {
        while self.pos < self.chars.len() && is_whitespace(self.chars[self.pos])
            invariant
                self.same_rest(old(self)),
                old(self).pos <= self.pos <= self.chars.len(),
                skip_ws(self.chars@, self.pos as int) == skip_ws(
                    self.chars@,
                    old(self).pos as int,
                ),
            decreases self.chars.len() - self.pos,
        {
            self.pos += 1;
        }
    }

    fn next_char(&mut self) -> (r: char)
        requires
            old(self).pos < old(self).chars.len(),
        ensures
            final(self).same_rest(old(self)),
            final(self).pos == old(self).pos + 1,
            r == old(self).chars@[old(self).pos as int],
    {
        let ch = self.peek_char();
        self.pos += 1;
        ch
    }

    fn peek_char(&self) -> (r: char)
        requires
            self.pos < self.chars.len(),
        ensures
            r == self.chars@[self.pos as int],
    {
        self.chars[self.pos]
    }

    fn push_token(&mut self, token: Token)
        ensures
            final(self).chars == old(self).chars,
            final(self).pos == old(self).pos,
            final(self).curr_text@ == Seq::<char>::empty(),
            tokens_view(final(self).tokens@) == flush(
                tokens_view(old(self).tokens@),
                old(self).curr_text@,
            ).push(token@),
    {
        let ghost t0 = self.tokens@;
        if self.curr_text.len() > 0 {
            let text_token = Token::Raw(string_from_chars(&self.curr_text));
            self.tokens.push(text_token);
            self.curr_text = Vec::new();
            assert(tokens_view(self.tokens@) =~= tokens_view(t0).push(text_token@));
        }
        let ghost t1 = self.tokens@;
        self.tokens.push(token);
        assert(tokens_view(self.tokens@) =~= tokens_view(t1).push(token@));
    }

    fn match_str(&mut self, value: &Vec<char>) -> (r: bool)
        requires
            old(self).pos <= old(self).chars.len(),
        ensures
            final(self).same_rest(old(self)),
            r == matches_at(old(self).chars@, old(self).pos as int, value@),
            final(self).pos == if r {
                old(self).pos + value.len()
            } else {
                old(self).pos as int
            },
    {
        if value.len() > self.chars.len() - self.pos {
            return false;
        }
        let mut i: usize = 0;
        while i < value.len()
            invariant
                self.pos + value.len() <= self.chars.len(),
                i <= value.len(),
                forall|j: int| 0 <= j < i ==> self.chars@[self.pos + j] == value@[j],
            decreases value.len() - i,
        {
            if self.chars[self.pos + i] != value[i] {
                assert(self.chars@.subrange(self.pos as int, self.pos + value.len())[i as int]
                    != value@[i as int]);
                return false;
            }
            i += 1;
        }
        assert(self.chars@.subrange(self.pos as int, self.pos + value.len()) =~= value@);
        self.pos = self.pos + value.len();
        true
    }
}

} // verus!

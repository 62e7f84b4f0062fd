use vstd::prelude::*;
use vstd::slice::*;
use vstd::string::*;
use crate::definitions::{Token, TokenKind, TokenModel, TokenType};
use crate::parser::token_models;

verus! {

/// The keywords.
pub const KEY_PATTERN: &'static str = r"(?x)
        ^let |
        ^if |
        ^fn |
        ^else |
        ^while |
        ^loop |
        ^for |
        ^return |
        ^continue |
        ^struct |
        ^enum |
        ^break";

/// The operators.
pub const OP_PATTERN: &'static str = r"(?x)
        ^ as(?=\s) |
        ^ \= (?!\=) |
        ^ \+ |
        ^ \- |
        ^ \& |
        ^ \* |
        ^ << |
        ^ >> |
        ^ \|(?!\|) | #single pipe
        ^ \! |
        ^ \~\\";

/// The relational operators.
pub const COND_PATTERN: &'static str = r"(?x)
        ^ \|\| |
        ^ \&\& |
        ^ <\= |
        ^ >= |
        ^ < (?!<) |
        ^ > (?!>) |
        ^ \=\=";

/// The identifiers.
pub const ID_PATTERN: &'static str = r"^[_[[:alpha:]]][_@[[:alnum:]]]*";

/// The literals.
pub const LIT_PATTERN: &'static str = r"^-?\d+(?![[:alpha:]])";

/// What the regular expression engine finds when `pattern` is compiled and
/// then searched in `text`: the byte offsets of the start and the end of the
/// first match, nothing where there is no match, or an error where the
/// pattern does not compile or the search gives up.
pub uninterp spec fn regex_find(pattern: Seq<char>, text: Seq<char>) -> Result<
    Option<(usize, usize)>,
    (),
>;

/// Compiles `pattern` with `fancy_regex::Regex::new` and searches `text`
/// with `Regex::find`; a match is handed back as the byte offsets that
/// `Match::start` and `Match::end` give. Nothing of this is proved. The
/// contract claims one thing of the engine: that the outcome depends on the
/// pattern and the text alone, which is why it has a name. What the offsets
/// are is not claimed; `token_of_match` tests them.
#[verifier::external_body]
fn find_first(pattern: &str, text: &str) -> (r: Result<Option<(usize, usize)>, ()>)
    ensures
        r == regex_find(pattern@, text@),
{
    let re = match fancy_regex::Regex::new(pattern) {
        Ok(re) => re,
        Err(_) => return Err(()),
    };
    match re.find(text) {
        Ok(Some(m)) => Ok(Some((m.start(), m.end()))),
        Ok(None) => Ok(None),
        Err(_) => Err(()),
    }
}

/// The characters that stand between tokens.
pub open spec fn is_blank(c: char) -> bool {
    c == ' ' || c == '\n' || c == '\t'
}

/// The first position at or behind `ptr` that holds no blank.
pub open spec fn skip_blanks(text: Seq<char>, ptr: int) -> int
    decreases text.len() - ptr,
{
    if 0 <= ptr < text.len() && is_blank(text[ptr]) {
        skip_blanks(text, ptr + 1)
    } else {
        ptr
    }
}

/// The text and the length of the token that a search found in `rest`: a
/// match that is not empty and lies inside `rest`. An error of the engine
/// stays an error.
pub open spec fn match_token(rest: Seq<char>, found: Result<Option<(usize, usize)>, ()>) -> Result<
    Option<(Seq<char>, int)>,
    (),
> {
    match found {
        Err(_) => Err(()),
        Ok(None) => Ok(None),
        Ok(Some(m)) => if m.0 < m.1 <= rest.len() {
            Ok(Some((rest.subrange(m.0 as int, m.1 as int), m.1 - m.0)))
        } else {
            Ok(None)
        },
    }
}

/// The text and the length of the token that a pattern finds in `rest`.
pub open spec fn pattern_token(pattern: Seq<char>, rest: Seq<char>) -> Result<
    Option<(Seq<char>, int)>,
    (),
> {
    match_token(rest, regex_find(pattern, rest))
}

/// The kinds of token that a pattern finds, in the order in which they are
/// tried.
#[derive(Debug, Clone, Copy)]
pub enum WordKind {
    Key,
    Op,
    Cond,
    Id,
    Lit,
}

impl WordKind {
    /// The pattern of the kind.
    pub open spec fn pattern(self) -> Seq<char> {
        match self {
            WordKind::Key => KEY_PATTERN@,
            WordKind::Op => OP_PATTERN@,
            WordKind::Cond => COND_PATTERN@,
            WordKind::Id => ID_PATTERN@,
            WordKind::Lit => LIT_PATTERN@,
        }
    }

    /// The kind that is tried next.
    pub open spec fn next(self) -> Option<WordKind> {
        match self {
            WordKind::Key => Some(WordKind::Op),
            WordKind::Op => Some(WordKind::Cond),
            WordKind::Cond => Some(WordKind::Id),
            WordKind::Id => Some(WordKind::Lit),
            WordKind::Lit => None,
        }
    }

    /// How many kinds are tried behind this one.
    pub open spec fn rank(self) -> nat {
        match self {
            WordKind::Key => 4,
            WordKind::Op => 3,
            WordKind::Cond => 2,
            WordKind::Id => 1,
            WordKind::Lit => 0,
        }
    }

    /// The token kind of a word of this kind.
    pub open spec fn token(self, text: Seq<char>) -> TokenKind {
        match self {
            WordKind::Key => TokenKind::Key(text),
            WordKind::Op => TokenKind::Op(text),
            WordKind::Cond => TokenKind::Cond(text),
            WordKind::Id => TokenKind::Id(text),
            WordKind::Lit => TokenKind::Lit(text),
        }
    }
}

/// The token that the patterns from `kind` on find at the start of `rest`,
/// with its length: that of the first pattern in order that finds one. An
/// error of the engine ends the search.
pub open spec fn word_at(rest: Seq<char>, kind: WordKind) -> Result<Option<(TokenKind, int)>, ()>
    decreases kind.rank(),
{
    match pattern_token(kind.pattern(), rest) {
        Err(_) => Err(()),
        Ok(Some(w)) => Ok(Some((kind.token(w.0), w.1))),
        Ok(None) => match kind.next() {
            Some(next) => word_at(rest, next),
            None => Ok(None),
        },
    }
}

/// The token kind of a punctuation character.
pub open spec fn punctuation(c: char) -> Option<TokenKind> {
    if c == '(' {
        Some(TokenKind::ParenOpen)
    } else if c == ')' {
        Some(TokenKind::ParenClose)
    } else if c == '[' {
        Some(TokenKind::SquareOpen)
    } else if c == ']' {
        Some(TokenKind::SquareClose)
    } else if c == '{' {
        Some(TokenKind::CurlyOpen)
    } else if c == '}' {
        Some(TokenKind::CurlyClose)
    } else if c == ';' {
        Some(TokenKind::SemiCol)
    } else if c == ':' {
        Some(TokenKind::Col)
    } else if c == ',' {
        Some(TokenKind::Comma)
    } else if c == '.' {
        Some(TokenKind::Period)
    } else {
        None
    }
}

/// The token that starts at `p`, with its length: an arrow where `->`
/// stands there with at least one character behind it; else what the
/// patterns find; else a punctuation character.
pub open spec fn token_at(text: Seq<char>, p: int) -> Result<Option<(TokenKind, int)>, ()> {
    if 0 <= p && p + 2 < text.len() && text[p] == '-' && text[p + 1] == '>' {
        Ok(Some((TokenKind::Arrow, 2)))
    } else if 0 <= p <= text.len() {
        match word_at(text.skip(p), WordKind::Key) {
            Err(_) => Err(()),
            Ok(Some(w)) => Ok(Some(w)),
            Ok(None) => if p < text.len() {
                match punctuation(text[p]) {
                    Some(k) => Ok(Some((k, 1))),
                    None => Ok(None),
                }
            } else {
                Ok(None)
            },
        }
    } else {
        Ok(None)
    }
}

/// The tokens of `text` from `ptr` on, behind those read so far. The end of
/// the text and a NUL character end the tokens with an end-of-input token.
/// Before each token blanks are passed over; where no token starts behind
/// them, or the engine fails, the position is the error.
pub open spec fn lex_from(text: Seq<char>, ptr: int, done: Seq<TokenModel>) -> Result<
    Seq<TokenModel>,
    int,
>
    decreases text.len() - ptr,
{
    if !(0 <= ptr < text.len()) || text[ptr] == '\0' {
        Ok(done.push(TokenModel { kind: TokenKind::EOF, pos: ptr as usize }))
    } else {
        let p = skip_blanks(text, ptr);
        match token_at(text, p) {
            Ok(Some(t)) => if t.1 > 0 && ptr <= p && p + t.1 <= text.len() {
                lex_from(text, p + t.1, done.push(TokenModel { kind: t.0, pos: p as usize }))
            } else {
                Err(p)
            },
            _ => Err(p),
        }
    }
}

/// The token of a kind that a search found in `rest`, a text that starts at
/// offset `pos` of the source, with its length: nothing where the search
/// found nothing, or a match that is empty or does not lie inside `rest`.
pub fn token_of_match(
    kind: WordKind,
    rest: &str,
    pos: usize,
    found: Result<Option<(usize, usize)>, ()>,
) -> (r: Result<Option<(Token, usize)>, ()>)
    requires
        rest.is_ascii(),
    ensures
        match r {
            Err(_) => match_token(rest@, found) is Err,
            Ok(None) => match_token(rest@, found) == Ok::<Option<(Seq<char>, int)>, ()>(None),
            Ok(Some(t)) => {
                &&& 0 < t.1 <= rest@.len()
                &&& t.0@.pos == pos
                &&& match_token(rest@, found) matches Ok(Some(w)) && w.1 == t.1 && kind.token(w.0)
                    == t.0@.kind
            },
        },
{
    proof {
        is_ascii_spec_bytes(rest);
    }
    let len = rest.as_bytes().len();
    match found {
        Err(_) => Err(()),
        Ok(None) => Ok(None),
        Ok(Some((start, end))) => {
            if start < end && end <= len {
                let text = String::from_str(rest.substring_ascii(start, end));
                let ttype = match kind {
                    WordKind::Key => TokenType::Key(text),
                    WordKind::Op => TokenType::Op(text),
                    WordKind::Cond => TokenType::Cond(text),
                    WordKind::Id => TokenType::Id(text),
                    WordKind::Lit => TokenType::Lit(text),
                };
                Ok(Some((Token { ttype, pos }, end - start)))
            } else {
                Ok(None)
            }
        },
    }
}

/// A cursor over an ASCII text.
pub struct Lexer {
    data: String,
    pub ptr: usize,
}

impl Lexer {
    /// The text.
    pub closed spec fn text(&self) -> Seq<char> {
        self.data@
    }

    /// The position of the cursor.
    pub closed spec fn cursor(&self) -> usize {
        self.ptr
    }

    /// The text is ASCII.
    pub closed spec fn wf(&self) -> bool {
        string_is_ascii(&self.data)
    }

    /// A cursor at the start of a text, which must be ASCII.
    pub fn new(text: String) -> (r: Result<Self, ()>)
        ensures
            match r {
                Ok(l) => text.is_ascii() && l.wf() && l.text() == text@ && l.cursor() == 0,
                Err(_) => !text.is_ascii(),
            },
    {
        if !text.is_ascii() {
            return Err(());
        }
        Ok(Lexer { data: text, ptr: 0 })
    }

    /// The length of the text.
    fn length(&self) -> (n: usize)
        requires
            self.wf(),
        ensures
            n == self.text().len(),
    {
        let s = self.data.as_str();
        proof {
            assert(is_ascii(s));
            is_ascii_spec_bytes(s);
        }
        s.as_bytes().len()
    }

    /// The character under the cursor, if the cursor is in the text.
    fn current(&self) -> (r: Option<u8>)
        requires
            self.wf(),
        ensures
            match r {
                Some(b) => self.ptr < self.text().len() <= usize::MAX && b == self.text()[self.ptr as int]
                    as u8 && b < 128,
                None => self.ptr >= self.text().len(),
            },
    {
        let s = self.data.as_str();
        if self.ptr < self.length() {
            Some(s.get_ascii(self.ptr))
        } else {
            None
        }
    }

    /// Moves the cursor over blanks.
    fn skip_whitespace(&mut self)
        requires
            old(self).wf(),
        ensures
            final(self).wf(),
            final(self).text() == old(self).text(),
            final(self).cursor() == skip_blanks(old(self).text(), old(self).cursor() as int),
            final(self).cursor() >= old(self).cursor(),
    {
        loop
            invariant
                self.wf(),
                self.text() == old(self).text(),
                self.ptr >= old(self).cursor(),
                skip_blanks(self.text(), self.ptr as int) == skip_blanks(
                    old(self).text(),
                    old(self).cursor() as int,
                ),
            decreases self.text().len() - self.ptr,
        {
            match self.current() {
                Some(b) => {
                    if b == 32 || b == 10 || b == 9 {
                        self.ptr += 1;
                    } else {
                        return ;
                    }
                },
                None => {
                    return ;
                },
            }
        }
    }

    /// The token that a pattern finds at the cursor, with its length.
    fn word(&self, pattern: &'static str, kind: WordKind) -> (r: Result<Option<(Token, usize)>, ()>)
        requires
            self.wf(),
            self.ptr <= self.text().len(),
            pattern@ == kind.pattern(),
        ensures
            match r {
                Err(_) => pattern_token(pattern@, self.text().skip(self.ptr as int)) is Err,
                Ok(None) => pattern_token(pattern@, self.text().skip(self.ptr as int)) == Ok::<
                    Option<(Seq<char>, int)>,
                    (),
                >(None),
                Ok(Some(t)) => {
                    &&& 0 < t.1
                    &&& self.ptr + t.1 <= self.text().len() <= usize::MAX
                    &&& t.0@.pos == self.ptr
                    &&& pattern_token(pattern@, self.text().skip(self.ptr as int)) matches Ok(
                        Some(w),
                    ) && w.1 == t.1 && kind.token(w.0) == t.0@.kind
                },
            },
    {
        let s = self.data.as_str();
        let len = self.length();
        let rest = s.substring_ascii(self.ptr, len);
        assert(rest@ =~= self.text().skip(self.ptr as int));
        let found = find_first(pattern, rest);
        token_of_match(kind, rest, self.ptr, found)
    }

    /// The token that the patterns find at the cursor, with its length.
    fn any_word(&self) -> (r: Result<Option<(Token, usize)>, ()>)
        requires
            self.wf(),
            self.ptr <= self.text().len(),
        ensures
            match r {
                Err(_) => word_at(self.text().skip(self.ptr as int), WordKind::Key) is Err,
                Ok(None) => word_at(self.text().skip(self.ptr as int), WordKind::Key) == Ok::<
                    Option<(TokenKind, int)>,
                    (),
                >(None),
                Ok(Some(t)) => {
                    &&& 0 < t.1
                    &&& self.ptr + t.1 <= self.text().len() <= usize::MAX
                    &&& t.0@.pos == self.ptr
                    &&& word_at(self.text().skip(self.ptr as int), WordKind::Key) == Ok::<
                        Option<(TokenKind, int)>,
                        (),
                    >(Some((t.0@.kind, t.1 as int)))
                },
            },
    {
        proof {
            reveal_with_fuel(word_at, 5);
        }
        match self.word(KEY_PATTERN, WordKind::Key) {
            Err(_) => {
                return Err(());
            },
            Ok(Some(t)) => {
                return Ok(Some(t));
            },
            Ok(None) => {},
        }
        match self.word(OP_PATTERN, WordKind::Op) {
            Err(_) => {
                return Err(());
            },
            Ok(Some(t)) => {
                return Ok(Some(t));
            },
            Ok(None) => {},
        }
        match self.word(COND_PATTERN, WordKind::Cond) {
            Err(_) => {
                return Err(());
            },
            Ok(Some(t)) => {
                return Ok(Some(t));
            },
            Ok(None) => {},
        }
        match self.word(ID_PATTERN, WordKind::Id) {
            Err(_) => {
                return Err(());
            },
            Ok(Some(t)) => {
                return Ok(Some(t));
            },
            Ok(None) => {},
        }
        self.word(LIT_PATTERN, WordKind::Lit)
    }

    /// The punctuation token under the cursor.
    fn punct(&self) -> (r: Option<Token>)
        requires
            self.wf(),
        ensures
            match r {
                Some(t) => self.ptr < self.text().len() <= usize::MAX && punctuation(
                    self.text()[self.ptr as int],
                ) == Some(t@.kind) && t@.pos == self.ptr,
                None => self.ptr >= self.text().len() || punctuation(self.text()[self.ptr as int])
                    is None,
            },
    {
        let b = match self.current() {
            Some(b) => b,
            None => {
                return None;
            },
        };
        let ttype = if b == 40 {
            TokenType::ParenOpen
        } else if b == 41 {
            TokenType::ParenClose
        } else if b == 91 {
            TokenType::SquareOpen
        } else if b == 93 {
            TokenType::SquareClose
        } else if b == 123 {
            TokenType::CurlyOpen
        } else if b == 125 {
            TokenType::CurlyClose
        } else if b == 59 {
            TokenType::SemiCol
        } else if b == 58 {
            TokenType::Col
        } else if b == 44 {
            TokenType::Comma
        } else if b == 46 {
            TokenType::Period
        } else {
            return None;
        };
        Some(Token { ttype, pos: self.ptr })
    }

    /// Whether `->` stands under the cursor with at least one character
    /// behind it.
    fn at_arrow(&self) -> (r: bool)
        requires
            self.wf(),
        ensures
            r == (self.ptr + 2 < self.text().len() && self.text()[self.ptr as int] == '-'
                && self.text()[self.ptr + 1] == '>'),
            r ==> self.text().len() <= usize::MAX,
    {
        let s = self.data.as_str();
        let len = self.length();
        if len < 2 || self.ptr >= len - 2 {
            return false;
        }
        s.get_ascii(self.ptr) == 45 && s.get_ascii(self.ptr + 1) == 62
    }

    /// The token that starts under the cursor, with its length.
    fn next_token(&self) -> (r: Result<Option<(Token, usize)>, ()>)
        requires
            self.wf(),
            self.ptr <= self.text().len(),
        ensures
            match r {
                Err(_) => token_at(self.text(), self.ptr as int) is Err,
                Ok(None) => token_at(self.text(), self.ptr as int) == Ok::<
                    Option<(TokenKind, int)>,
                    (),
                >(None),
                Ok(Some(t)) => {
                    &&& 0 < t.1
                    &&& self.ptr + t.1 <= self.text().len() <= usize::MAX
                    &&& t.0@.pos == self.ptr
                    &&& token_at(self.text(), self.ptr as int) == Ok::<
                        Option<(TokenKind, int)>,
                        (),
                    >(Some((t.0@.kind, t.1 as int)))
                },
            },
    {
        if self.at_arrow() {
            return Ok(Some((Token { ttype: TokenType::Arrow, pos: self.ptr }, 2)));
        }
        match self.any_word() {
            Err(_) => Err(()),
            Ok(Some(t)) => Ok(Some(t)),
            Ok(None) => match self.punct() {
                Some(t) => Ok(Some((t, 1))),
                None => Ok(None),
            },
        }
    }

    /// Reads the tokens of the text from the cursor on. On success the cursor
    /// stands where the end-of-input token does; on failure it stands at the
    /// position that is returned, where no token starts.
    pub fn lex(&mut self) -> (r: Result<Vec<Token>, usize>)
        requires
            old(self).wf(),
        ensures
            final(self).wf(),
            final(self).text() == old(self).text(),
            match r {
                Ok(v) => lex_from(old(self).text(), old(self).cursor() as int, Seq::empty()) == Ok::<
                    Seq<TokenModel>,
                    int,
                >(token_models(v@)) && v.len() > 0 && v@.last()@.kind == TokenKind::EOF
                    && v@.last().pos == final(self).cursor(),
                Err(p) => lex_from(old(self).text(), old(self).cursor() as int, Seq::empty()) == Err::<
                    Seq<TokenModel>,
                    int,
                >(p as int) && final(self).cursor() == p,
            },
    {
        let mut token_list: Vec<Token> = Vec::new();
        assert(token_models(token_list@) =~= Seq::empty());
        loop
            invariant
                self.wf(),
                self.text() == old(self).text(),
                lex_from(old(self).text(), old(self).cursor() as int, Seq::empty()) == lex_from(
                    self.text(),
                    self.ptr as int,
                    token_models(token_list@),
                ),
            decreases self.text().len() - self.ptr,
        {
            let ghost before = token_models(token_list@);
            let at_end = match self.current() {
                Some(b) => b == 0,
                None => true,
            };
            if at_end {
                let eof = Token { ttype: TokenType::EOF, pos: self.ptr };
                token_list.push(eof);
                assert(token_models(token_list@) =~= before.push(eof@));
                return Ok(token_list);
            }
            let ghost start = self.ptr;
            self.skip_whitespace();
            proof {
                lemma_skip_blanks_bound(self.text(), start as int);
            }
            match self.next_token() {
                Ok(Some((token, len))) => {
                    token_list.push(token);
                    assert(token_models(token_list@) =~= before.push(token@));
                    self.ptr += len;
                },
                _ => {
                    return Err(self.ptr);
                },
            }
        }
    }
}

/// A token that starts inside the text is not empty and ends inside the
/// text.
pub proof fn lemma_token_inside(text: Seq<char>, p: int)
    requires
        0 <= p <= text.len(),
    ensures
        token_at(text, p) matches Ok(Some(t)) ==> 0 < t.1 && p + t.1 <= text.len(),
{
    reveal_with_fuel(word_at, 5);
}

/// Passing over blanks ends inside the text or at its end.
pub proof fn lemma_skip_blanks_bound(text: Seq<char>, ptr: int)
    requires
        0 <= ptr <= text.len(),
    ensures
        ptr <= skip_blanks(text, ptr) <= text.len(),
    decreases text.len() - ptr,
{
    if ptr < text.len() && is_blank(text[ptr]) {
        lemma_skip_blanks_bound(text, ptr + 1);
    }
}

} // verus!

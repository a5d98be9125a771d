use vstd::prelude::*;

verus! {

/// The kinds of lexical units of the language.
#[derive(Debug, Clone, Copy, PartialEq, Eq, Structural, Hash)]
pub enum TokenType {
    ILLEGAL,
    EOF,
    IDENT,
    INT,
    ASSIGN,
    EQ,
    NOTEQ,
    PLUS,
    MINUS,
    BANG,
    ASTERISK,
    SLASH,
    COMMA,
    SEMICOLON,
    LPAREN,
    RPAREN,
    LBRACE,
    RBRACE,
    LT,
    GT,
    FUNCTION,
    LET,
    TRUE,
    FALSE,
    IF,
    ELSE,
    RETURN,
}

/// A classified lexical unit together with its source text.
#[derive(Debug, Clone)]
pub struct Token {
    pub token_type: TokenType,
    pub literal: String,
}

impl Token {
    pub fn new_token(token_type: TokenType, literal: String) -> (r: Token)
        ensures
            r.token_type == token_type,
            r.literal@ == literal@,
    {
        Token { token_type, literal }
    }

    /// A copy of this token with the same kind and text.
    pub fn duplicate(&self) -> (r: Token)
        ensures
            r.token_type == self.token_type,
            r.literal@ == self.literal@,
    {
        Token { token_type: self.token_type, literal: self.literal.clone() }
    }
}

/// The reserved words of the language, as characters.
pub open spec fn keyword_kind(s: Seq<char>) -> TokenType {
    if s == seq!['f', 'n'] {
        TokenType::FUNCTION
    } else if s == seq!['l', 'e', 't'] {
        TokenType::LET
    } else if s == seq!['t', 'r', 'u', 'e'] {
        TokenType::TRUE
    } else if s == seq!['f', 'a', 'l', 's', 'e'] {
        TokenType::FALSE
    } else if s == seq!['i', 'f'] {
        TokenType::IF
    } else if s == seq!['e', 'l', 's', 'e'] {
        TokenType::ELSE
    } else if s == seq!['r', 'e', 't', 'u', 'r', 'n'] {
        TokenType::RETURN
    } else {
        TokenType::IDENT
    }
}

/// Whether two character strings are equal.
pub fn str_equal(a: &str, b: &str) -> (r: bool)
    ensures
        r == (a@ == b@),
{
    let n = a.unicode_len();
    let m = b.unicode_len();
    if n != m {
        return false;
    }
    let mut i: usize = 0;
    while i < n
        invariant
            n == a@.len(),
            m == b@.len(),
            n == m,
            i <= n,
            a@.subrange(0, i as int) == b@.subrange(0, i as int),
        decreases n - i,
    {
        if a.get_char(i) != b.get_char(i) {
            return false;
        }
        assert(a@.subrange(0, i + 1) == a@.subrange(0, i as int).push(a@[i as int]));
        assert(b@.subrange(0, i + 1) == b@.subrange(0, i as int).push(b@[i as int]));
        i = i + 1;
    }
    assert(a@ == a@.subrange(0, n as int));
    assert(b@ == b@.subrange(0, n as int));
    true
}

/// The table of reserved words, each with the kind of token it stands for.
#[derive(Debug)]
pub struct Keywords {
    pub map: Vec<(String, TokenType)>,
}

impl Keywords {
    /// The well-formed tables: exactly the reserved words, each once.
    pub open spec fn wf(&self) -> bool {
        &&& forall|i: int| 0 <= i < self.map@.len() ==> (#[trigger] self.map@[i]).1 == keyword_kind(self.map@[i].0@)
            && self.map@[i].1 != TokenType::IDENT
        &&& forall|s: Seq<char>| keyword_kind(s) != TokenType::IDENT ==> exists|i: int| 0 <= i < self.map@.len() && (#[trigger] self.map@[i]).0@ == s
    }

    pub fn new() -> (r: Keywords)
        ensures
            r.wf(),
    {
        let mut map: Vec<(String, TokenType)> = Vec::new();
        map.push(("fn".to_owned(), TokenType::FUNCTION));
        map.push(("let".to_owned(), TokenType::LET));
        map.push(("true".to_owned(), TokenType::TRUE));
        map.push(("false".to_owned(), TokenType::FALSE));
        map.push(("if".to_owned(), TokenType::IF));
        map.push(("else".to_owned(), TokenType::ELSE));
        map.push(("return".to_owned(), TokenType::RETURN));
        proof {
            reveal_strlit("fn");
            reveal_strlit("let");
            reveal_strlit("true");
            reveal_strlit("false");
            reveal_strlit("if");
            reveal_strlit("else");
            reveal_strlit("return");
            assert(map@[0].0@ =~= seq!['f', 'n']);
            assert(map@[1].0@ =~= seq!['l', 'e', 't']);
            assert(map@[2].0@ =~= seq!['t', 'r', 'u', 'e']);
            assert(map@[3].0@ =~= seq!['f', 'a', 'l', 's', 'e']);
            assert(map@[4].0@ =~= seq!['i', 'f']);
            assert(map@[5].0@ =~= seq!['e', 'l', 's', 'e']);
            assert(map@[6].0@ =~= seq!['r', 'e', 't', 'u', 'r', 'n']);
        }
        Keywords { map }
    }

    /// The kind of a word: its reserved kind, or an identifier.
    pub fn check_ident(&self, keyword: &str) -> (r: TokenType)
        requires
            self.wf(),
        ensures
            r == keyword_kind(keyword@),
    {
        let mut i: usize = 0;
        while i < self.map.len()
            invariant
                self.wf(),
                i <= self.map@.len(),
                forall|j: int| 0 <= j < i ==> (#[trigger] self.map@[j]).0@ != keyword@,
            decreases self.map.len() - i,
        {
            if str_equal(self.map[i].0.as_str(), keyword) {
                return self.map[i].1;
            }
            i = i + 1;
        }
        TokenType::IDENT
    }
}

impl Default for Keywords {
    fn default() -> (r: Keywords)
        ensures
            r.wf(),
    {
        Keywords::new()
    }
}

} // verus!

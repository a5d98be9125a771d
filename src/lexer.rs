use vstd::prelude::*;
use crate::text::{alphabetic, numeric, is_alphabetic, is_numeric, char_string, owned};
use crate::token::{Keywords, Token, TokenType, keyword_kind};

verus! {

/// The character at `i`, or the end marker `'\0'` past the end.
pub open spec fn char_at(s: Seq<char>, i: int) -> char {
    if 0 <= i < s.len() {
        s[i]
    } else {
        '\0'
    }
}

pub open spec fn is_space(c: char) -> bool {
    c == ' ' || c == '\t' || c == '\n' || c == '\r'
}

/// Characters that may form a word: letters and the underscore.
pub open spec fn is_letter(c: char) -> bool {
    alphabetic(c) || c == '_'
}

/// The first position at or after `i` that holds no blank.
pub open spec fn skip_spaces(s: Seq<char>, i: nat) -> nat
    decreases s.len() - i,
{
    if i < s.len() && is_space(s[i as int]) {
        skip_spaces(s, i + 1)
    } else {
        i
    }
}

/// The end of the run of word characters that starts at `i`.
pub open spec fn word_end(s: Seq<char>, i: nat) -> nat
    decreases s.len() - i,
{
    if i < s.len() && is_letter(s[i as int]) {
        word_end(s, i + 1)
    } else {
        i
    }
}

/// The end of the run of numeric characters that starts at `i`.
pub open spec fn number_end(s: Seq<char>, i: nat) -> nat
    decreases s.len() - i,
{
    if i < s.len() && numeric(s[i as int]) {
        number_end(s, i + 1)
    } else {
        i
    }
}

/// The kind of a token made of one character, if that character forms one alone.
pub open spec fn single_kind(c: char) -> Option<TokenType> {
    if c == '(' {
        Some(TokenType::LPAREN)
    } else if c == ')' {
        Some(TokenType::RPAREN)
    } else if c == '{' {
        Some(TokenType::LBRACE)
    } else if c == '}' {
        Some(TokenType::RBRACE)
    } else if c == ',' {
        Some(TokenType::COMMA)
    } else if c == '+' {
        Some(TokenType::PLUS)
    } else if c == '-' {
        Some(TokenType::MINUS)
    } else if c == '/' {
        Some(TokenType::SLASH)
    } else if c == '*' {
        Some(TokenType::ASTERISK)
    } else if c == '<' {
        Some(TokenType::LT)
    } else if c == '>' {
        Some(TokenType::GT)
    } else if c == ';' {
        Some(TokenType::SEMICOLON)
    } else if c == '\0' {
        Some(TokenType::EOF)
    } else {
        None
    }
}

/// One step past `i`; past the end of `s` the cursor goes on counting.
pub open spec fn step(s: Seq<char>, i: nat) -> nat {
    i + 1
}

/// The longest token that starts at `i` once blanks are skipped: its kind, its text,
/// and the position just after it.
pub open spec fn scan(s: Seq<char>, i: nat) -> (TokenType, Seq<char>, nat) {
    let j = skip_spaces(s, i);
    let c = char_at(s, j as int);
    if c == '!' && char_at(s, j + 1int) == '=' {
        (TokenType::NOTEQ, seq!['!', '='], step(s, j + 1))
    } else if c == '!' {
        (TokenType::BANG, seq![c], step(s, j))
    } else if c == '=' && char_at(s, j + 1int) == '=' {
        (TokenType::EQ, seq!['=', '='], step(s, j + 1))
    } else if c == '=' {
        (TokenType::ASSIGN, seq![c], step(s, j))
    } else if single_kind(c).is_some() {
        (single_kind(c).unwrap(), seq![c], step(s, j))
    } else if is_letter(c) {
        let w = s.subrange(j as int, word_end(s, j) as int);
        (keyword_kind(w), w, word_end(s, j))
    } else if numeric(c) {
        (TokenType::INT, s.subrange(j as int, number_end(s, j) as int), number_end(s, j))
    } else {
        (TokenType::ILLEGAL, seq![c], step(s, j))
    }
}

proof fn lemma_ends_bounded(s: Seq<char>, i: nat)
    requires
        i <= s.len(),
    ensures
        i <= skip_spaces(s, i) <= s.len(),
        i <= word_end(s, i) <= s.len(),
        i <= number_end(s, i) <= s.len(),
    decreases s.len() - i,
{
    if i < s.len() {
        lemma_ends_bounded(s, i + 1);
    }
}

/// Each token but the last ends further on than it starts, and none runs past the end.
pub proof fn lemma_scan_progress(s: Seq<char>, i: nat)
    ensures
        scan(s, i).0 != TokenType::EOF ==> i < scan(s, i).2 <= s.len(),
{
    if i > s.len() {
        return;
    }
    let j = skip_spaces(s, i);
    lemma_ends_bounded(s, i);
    if j < s.len() {
        lemma_ends_bounded(s, j + 1);
        lemma_ends_bounded(s, j);
    }
}

/// A scanner over a character string, one token at a time.
#[derive(Debug)]
pub struct Lexer {
    pub input: String,
    pub keywords: Keywords,
    pub position: usize,
    pub read_position: usize,
    pub ch: char,
    pub chars: Vec<char>,
}

impl Lexer {
    pub open spec fn text(&self) -> Seq<char> {
        self.input@
    }

    /// The cursor stands at `position`, with `ch` under it (`'\0'` past the end of the
    /// text), and `read_position` just after it.
    pub open spec fn wf(&self) -> bool {
        &&& self.chars@ == self.input@
        &&& self.chars@.len() < usize::MAX - 1
        &&& self.read_position == self.position + 1
        &&& self.ch == char_at(self.chars@, self.position as int)
        &&& self.keywords.wf()
    }

    pub fn new(input: String) -> (r: Lexer)
        requires
            input@.len() < usize::MAX - 1,
        ensures
            r.wf(),
            r.text() == input@,
            r.position == 0,
    {
        let n = input.as_str().unicode_len();
        let mut chars: Vec<char> = Vec::new();
        let mut i: usize = 0;
        while i < n
            invariant
                n == input@.len(),
                i <= n,
                chars@ == input@.subrange(0, i as int),
            decreases n - i,
        {
            chars.push(input.as_str().get_char(i));
            assert(input@.subrange(0, i + 1) == input@.subrange(0, i as int).push(input@[i as int]));
            i = i + 1;
        }
        assert(chars@ =~= input@);
        let ch = if n > 0 { chars[0] } else { '\0' };
        Lexer { input, keywords: Keywords::new(), position: 0, read_position: 1, ch, chars }
    }

    /// Moves the cursor one character on; past the end of the text it reads `'\0'`.
    pub fn read_char(&mut self)
        requires
            old(self).wf(),
            old(self).read_position < usize::MAX,
        ensures
            final(self).wf(),
            final(self).text() == old(self).text(),
            final(self).position == old(self).read_position,
            final(self).read_position == old(self).read_position + 1,
            final(self).position == step(old(self).text(), old(self).position as nat),
    {
        if self.read_position >= self.chars.len() {
            self.ch = '\0';
        } else {
            self.ch = self.chars[self.read_position];
        }
        self.position = self.read_position;
        self.read_position = self.read_position + 1;
    }

    fn peek_char(&self) -> (r: char)
        requires
            self.wf(),
        ensures
            r == char_at(self.text(), self.position + 1),
    {
        if self.read_position >= self.chars.len() {
            '\0'
        } else {
            self.chars[self.read_position]
        }
    }

    fn skip_space(&mut self)
        requires
            old(self).wf(),
            old(self).read_position < usize::MAX,
        ensures
            final(self).read_position < usize::MAX,
            final(self).wf(),
            final(self).text() == old(self).text(),
            final(self).position == skip_spaces(old(self).text(), old(self).position as nat),
    {
        while self.ch == ' ' || self.ch == '\t' || self.ch == '\n' || self.ch == '\r'
            invariant
                self.wf(),
                self.read_position < usize::MAX,
                self.text() == old(self).text(),
                skip_spaces(self.text(), self.position as nat) == skip_spaces(
                    old(self).text(),
                    old(self).position as nat,
                ),
            decreases self.text().len() - self.position,
        {
            self.read_char();
        }
    }

    fn is_letter(&self) -> (r: bool)
        requires
            self.wf(),
        ensures
            r == is_letter(self.ch),
    {
        is_alphabetic(self.ch) || self.ch == '_'
    }

    fn read_identifier(&mut self) -> (r: String)
        requires
            old(self).wf(),
            old(self).position <= old(self).text().len(),
        ensures
            final(self).wf(),
            final(self).text() == old(self).text(),
            final(self).position == word_end(old(self).text(), old(self).position as nat),
            r@ == old(self).text().subrange(old(self).position as int, final(self).position as int),
    {
        let start = self.position;
        proof { lemma_ends_bounded(self.text(), start as nat); }
        while self.position < self.chars.len() && self.is_letter()
            invariant
                self.wf(),
                self.text() == old(self).text(),
                start == old(self).position,
                start <= self.position,
                self.position <= self.text().len(),
                word_end(self.text(), self.position as nat) == word_end(self.text(), start as nat),
            decreases self.text().len() - self.position,
        {
            self.read_char();
        }
        owned(self.input.as_str().substring_char(start, self.position))
    }

    fn read_int(&mut self) -> (r: String)
        requires
            old(self).wf(),
            old(self).position <= old(self).text().len(),
        ensures
            final(self).wf(),
            final(self).text() == old(self).text(),
            final(self).position == number_end(old(self).text(), old(self).position as nat),
            r@ == old(self).text().subrange(old(self).position as int, final(self).position as int),
    {
        let start = self.position;
        while self.position < self.chars.len() && is_numeric(self.ch)
            invariant
                self.wf(),
                self.text() == old(self).text(),
                start == old(self).position,
                start <= self.position,
                self.position <= self.text().len(),
                number_end(self.text(), self.position as nat) == number_end(self.text(), start as nat),
            decreases self.text().len() - self.position,
        {
            self.read_char();
        }
        owned(self.input.as_str().substring_char(start, self.position))
    }

    /// The next token: the longest one that starts after the blanks at the cursor.
    pub fn next_token(&mut self) -> (tok: Token)
        requires
            old(self).wf(),
            old(self).read_position < usize::MAX,
        ensures
            final(self).wf(),
            final(self).text() == old(self).text(),
            (tok.token_type, tok.literal@, final(self).position as nat) == scan(
                old(self).text(),
                old(self).position as nat,
            ),
    {
        self.skip_space();
        let c = self.ch;
        if c == '!' && self.peek_char() == '=' {
            self.read_char();
            self.read_char();
            let mut s = char_string('!');
            crate::text::push_char(&mut s, '=');
            assert(s@ =~= seq!['!', '=']);
            return Token::new_token(TokenType::NOTEQ, s);
        }
        if c == '=' && self.peek_char() == '=' {
            self.read_char();
            self.read_char();
            let mut s = char_string('=');
            crate::text::push_char(&mut s, '=');
            assert(s@ =~= seq!['=', '=']);
            return Token::new_token(TokenType::EQ, s);
        }
        let kind = match c {
            '!' => Some(TokenType::BANG),
            '=' => Some(TokenType::ASSIGN),
            '(' => Some(TokenType::LPAREN),
            ')' => Some(TokenType::RPAREN),
            '{' => Some(TokenType::LBRACE),
            '}' => Some(TokenType::RBRACE),
            ',' => Some(TokenType::COMMA),
            '+' => Some(TokenType::PLUS),
            '-' => Some(TokenType::MINUS),
            '/' => Some(TokenType::SLASH),
            '*' => Some(TokenType::ASTERISK),
            '<' => Some(TokenType::LT),
            '>' => Some(TokenType::GT),
            ';' => Some(TokenType::SEMICOLON),
            '\0' => Some(TokenType::EOF),
            _ => None,
        };
        match kind {
            Some(k) => {
                self.read_char();
                Token::new_token(k, char_string(c))
            },
            None => {
                if self.is_letter() {
                    let word = self.read_identifier();
                    let kind = self.keywords.check_ident(word.as_str());
                    Token::new_token(kind, word)
                } else if is_numeric(c) {
                    let digits = self.read_int();
                    Token::new_token(TokenType::INT, digits)
                } else {
                    self.read_char();
                    Token::new_token(TokenType::ILLEGAL, char_string(c))
                }
            },
        }
    }
}

} // verus!

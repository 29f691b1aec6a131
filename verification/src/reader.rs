//! A reader over a sequence of token trees.

use vstd::prelude::*;
use crate::token::{Token, TokenTree, Punct};
use crate::text::{spec_parse_uint, parse_usize_from, str_eq, digits_value, digit_of};

verus! {

/// A position in a sequence of token trees.
pub struct Reader<'a> {
    pub tokens: &'a [TokenTree],
    pub pos: usize,
}

/// The result of a read: the value and the position after it, or a message.
pub type Read<T> = Result<(T, int), Seq<char>>;

/// The token tree at `pos`, where there is one.
pub open spec fn peek(ts: Seq<TokenTree>, pos: int) -> Option<TokenTree> {
    if 0 <= pos < ts.len() { Some(ts[pos]) } else { None }
}

/// Whether the token tree at `pos` is an identifier.
pub open spec fn spec_has_ident(ts: Seq<TokenTree>, pos: int) -> bool {
    peek(ts, pos) matches Some(TokenTree::Token(Token::Ident(_)))
}

/// Whether the token tree at `pos` is a delimited group.
pub open spec fn spec_has_brackets(ts: Seq<TokenTree>, pos: int) -> bool {
    peek(ts, pos) matches Some(TokenTree::Delimited(_))
}

/// Whether the token tree at `pos` is an integer literal.
pub open spec fn spec_has_int(ts: Seq<TokenTree>, pos: int) -> bool {
    peek(ts, pos) matches Some(TokenTree::Token(Token::Int(_)))
}

/// Reads a doc comment.
pub open spec fn spec_read_comment(ts: Seq<TokenTree>, pos: int) -> Read<Seq<char>> {
    match peek(ts, pos) {
        Some(TokenTree::Token(Token::DocComment(v))) => Ok((v@, pos + 1)),
        _ => Err("expecting comment"@),
    }
}

/// Reads an identifier.
pub open spec fn spec_read_ident(ts: Seq<TokenTree>, pos: int) -> Read<Seq<char>> {
    match peek(ts, pos) {
        Some(TokenTree::Token(Token::Ident(v))) => Ok((v@, pos + 1)),
        _ => Err("expecting identifier"@),
    }
}

/// Reads an identifier that is one of `select`.
pub open spec fn spec_read_ident_match(ts: Seq<TokenTree>, pos: int, select: Seq<Seq<char>>) -> Read<Seq<char>> {
    match peek(ts, pos) {
        Some(TokenTree::Token(Token::Ident(v))) => if select.contains(v@) {
            Ok((v@, pos + 1))
        } else {
            Err("unexpected identifier "@ + v@)
        },
        _ => Err("expecting identifier"@),
    }
}

/// Reads a delimited group; its content is the value.
pub open spec fn spec_read_brackets(ts: Seq<TokenTree>, pos: int) -> Read<Seq<TokenTree>> {
    match peek(ts, pos) {
        Some(TokenTree::Delimited(inner)) => Ok((inner@, pos + 1)),
        _ => Err("expecting brackets"@),
    }
}

/// The value of an integer literal's text: hex after its first two
/// characters where it holds an `x`, decimal otherwise, with an optional sign;
/// `None` where the text is no such number or the number does not fit an `isize`.
pub open spec fn spec_int_value(s: Seq<char>) -> Option<isize> {
    if s.contains('x') {
        if s.len() >= 2 && (s[0] as u32) < 0x80 && (s[1] as u32) < 0x80 {
            spec_parse_signed(s.skip(2), 16)
        } else {
            None
        }
    } else {
        spec_parse_signed(s, 10)
    }
}

/// The number that `s` writes in base `radix` as `isize::from_str_radix`
/// reads it: an optional sign, then one digit or more, in range.
pub open spec fn spec_parse_signed(s: Seq<char>, radix: nat) -> Option<isize> {
    if s.len() > 0 && s[0] == '-' {
        match spec_parse_uint_digits_only(s.drop_first(), radix) {
            Some(v) => if v <= isize::MAX + 1 { Some((-v) as isize) } else { None },
            None => None,
        }
    } else {
        match spec_parse_uint(s, radix) {
            Some(v) => if v <= isize::MAX { Some(v as isize) } else { None },
            None => None,
        }
    }
}

proof fn lemma_first_digit(s: Seq<char>, radix: nat)
    requires
        s.len() > 0,
        digits_value(s, radix) is Some,
    ensures
        digit_of(s[0], radix) is Some,
    decreases s.len(),
{
    if s.len() > 1 {
        lemma_first_digit(s.drop_last(), radix);
        assert(s.drop_last()[0] == s[0]);
    } else {
        assert(s.drop_last().len() == 0);
    }
}

/// An integer literal written `0x` and hex digits reads as the number that
/// those digits write in base 16, where it fits an `isize`.
pub proof fn lemma_hex_literal(h: Seq<char>)
    requires
        h.len() > 0,
        digits_value(h, 16) matches Some(v) && v <= isize::MAX,
    ensures
        spec_int_value(seq!['0', 'x'] + h) == Some(digits_value(h, 16).unwrap() as isize),
{
    let s = seq!['0', 'x'] + h;
    assert(s[1] == 'x');
    assert(s.contains('x'));
    assert(s.skip(2) =~= h);
    lemma_first_digit(h, 16);
    assert(h[0] != '-' && h[0] != '+');
}

/// The number that the digits `s` write in base `radix`, with no sign.
pub open spec fn spec_parse_uint_digits_only(s: Seq<char>, radix: nat) -> Option<nat> {
    if s.len() == 0 || s[0] == '+' { None } else { spec_parse_uint(s, radix) }
}

/// Reads an integer literal. The reader moves past a literal even where its
/// text is no number.
pub open spec fn spec_read_int(ts: Seq<TokenTree>, pos: int) -> (Read<isize>, int) {
    match peek(ts, pos) {
        Some(TokenTree::Token(Token::Int(v))) => match spec_int_value(v@) {
            Some(n) => (Ok((n, pos + 1)), pos + 1),
            None => (Err("invalid integer"@), pos + 1),
        },
        _ => (Err("expecting integer"@), pos),
    }
}

/// The name of a punctuation token.
pub open spec fn punct_name(p: Punct) -> Seq<char> {
    match p {
        Punct::Eq => "Eq"@,
        Punct::Comma => "Comma"@,
        Punct::FatArrow => "FatArrow"@,
        Punct::Semi => "Semi"@,
    }
}

/// A token tree written out: the kind of token with its text, the name of
/// a punctuation, or a delimited group.
pub open spec fn token_text(t: TokenTree) -> Seq<char> {
    match t {
        TokenTree::Token(Token::Ident(s)) => "Ident("@ + s@ + ")"@,
        TokenTree::Token(Token::Int(s)) => "Int("@ + s@ + ")"@,
        TokenTree::Token(Token::Str(s)) => "Str("@ + s@ + ")"@,
        TokenTree::Token(Token::DocComment(s)) => "DocComment("@ + s@ + ")"@,
        TokenTree::Token(Token::Punct(p)) => punct_name(p),
        TokenTree::Token(Token::Other) => "Other"@,
        TokenTree::Delimited(_) => "Delimited(..)"@,
    }
}

/// The token tree at `pos` written out: `Some(..)` with it, or `None` at
/// the end.
pub open spec fn found_text(ts: Seq<TokenTree>, pos: int) -> Seq<char> {
    match peek(ts, pos) {
        Some(t) => "Some("@ + token_text(t) + ")"@,
        None => "None"@,
    }
}

/// The message of a read of the punctuation `p` at `pos` that fails: the
/// token expected and the one found.
pub open spec fn token_message(ts: Seq<TokenTree>, pos: int, p: Punct) -> Seq<char> {
    "expecting simple token "@ + punct_name(p) + ", got "@ + found_text(ts, pos)
}

/// Reads the punctuation `p`.
pub open spec fn spec_read_token(ts: Seq<TokenTree>, pos: int, p: Punct) -> Read<()> {
    match peek(ts, pos) {
        Some(TokenTree::Token(Token::Punct(q))) => if q == p { Ok(((), pos + 1)) } else { Err(token_message(ts, pos, p)) },
        _ => Err(token_message(ts, pos, p)),
    }
}

/// The position after the doc comments that start at `pos`.
pub open spec fn skip_comments(ts: Seq<TokenTree>, pos: int) -> int
    decreases ts.len() - pos,
{
    if 0 <= pos < ts.len() && ts[pos] matches TokenTree::Token(Token::DocComment(_)) {
        skip_comments(ts, pos + 1)
    } else {
        pos
    }
}

/// Reads all of `s` as an `isize` in base `radix`, as `isize::from_str_radix` does.
pub fn parse_isize_from(s: &str, start: usize, radix: u32) -> (r: Option<isize>)
    requires
        2 <= radix <= 36,
        start <= s@.len(),
    ensures
        r == spec_parse_signed(s@.skip(start as int), radix as nat),
{
    let n = s.unicode_len();
    let ghost t = s@.skip(start as int);
    if start < n && s.get_char(start) == '-' {
        assert(t[0] == '-');
        let ghost u = t.drop_first();
        assert(u == s@.skip(start + 1));
        if start + 1 < n && s.get_char(start + 1) == '+' {
            assert(u[0] == '+');
            return None;
        }
        if start + 1 == n {
            return None;
        }
        let v = parse_usize_from(s, start + 1, radix);
        match v {
            Some(v) => {
                if v <= isize::MAX as usize {
                    Some(-(v as isize))
                } else if v == isize::MAX as usize + 1 {
                    Some(isize::MIN)
                } else {
                    None
                }
            },
            None => {
                proof {
                    assert(spec_parse_uint(u, radix as nat) is None || spec_parse_uint(u, radix as nat).unwrap() > usize::MAX);
                }
                None
            },
        }
    } else {
        match parse_usize_from(s, start, radix) {
            Some(v) => if v <= isize::MAX as usize { Some(v as isize) } else { None },
            None => None,
        }
    }
}

fn punct_str(p: Punct) -> (r: &'static str)
    ensures
        r@ == punct_name(p),
{
    match p {
        Punct::Eq => "Eq",
        Punct::Comma => "Comma",
        Punct::FatArrow => "FatArrow",
        Punct::Semi => "Semi",
    }
}

fn wrap_text(kind: &str, s: &str) -> (r: String)
    ensures
        r@ == kind@ + s@ + ")"@,
{
    let mut out = String::from_str(kind);
    out.append(s);
    out.append(")");
    out
}

/// Writes out a token tree (see `token_text`).
pub fn write_token(t: &TokenTree) -> (r: String)
    ensures
        r@ == token_text(*t),
{
    match t {
        TokenTree::Token(Token::Ident(s)) => wrap_text("Ident(", s.as_str()),
        TokenTree::Token(Token::Int(s)) => wrap_text("Int(", s.as_str()),
        TokenTree::Token(Token::Str(s)) => wrap_text("Str(", s.as_str()),
        TokenTree::Token(Token::DocComment(s)) => wrap_text("DocComment(", s.as_str()),
        TokenTree::Token(Token::Punct(p)) => String::from_str(punct_str(*p)),
        TokenTree::Token(Token::Other) => String::from_str("Other"),
        TokenTree::Delimited(_) => String::from_str("Delimited(..)"),
    }
}

impl<'a> Reader<'a> {
    /// A reader at the start of `tokens`.
    pub fn new(tokens: &'a [TokenTree]) -> (r: Reader<'a>)
        ensures
            r.tokens@ == tokens@,
            r.pos == 0,
    {
        Reader { tokens, pos: 0 }
    }

    /// Whether every token tree has been read.
    pub fn is_done(&self) -> (r: bool)
        ensures
            r == (self.pos >= self.tokens@.len()),
    {
        self.pos >= self.tokens.len()
    }

    /// Reads a doc comment and gives its text.
    pub fn read_comment(&mut self) -> (r: Result<String, String>)
        ensures
            final(self).tokens == old(self).tokens,
            match spec_read_comment(old(self).tokens@, old(self).pos as int) {
                Ok((v, p)) => r matches Ok(s) && s@ == v && final(self).pos == p,
                Err(m) => r matches Err(e) && e@ == m && final(self).pos == old(self).pos,
            },
    {
        if self.pos < self.tokens.len() {
            if let TokenTree::Token(Token::DocComment(value)) = &self.tokens[self.pos] {
                let v = value.clone();
                self.pos = self.pos + 1;
                return Ok(v);
            }
        }
        Err(String::from_str("expecting comment"))
    }

    /// Whether an identifier comes next.
    pub fn has_ident(&self) -> (r: bool)
        ensures
            r == spec_has_ident(self.tokens@, self.pos as int),
    {
        self.pos < self.tokens.len() && match &self.tokens[self.pos] {
            TokenTree::Token(Token::Ident(_)) => true,
            _ => false,
        }
    }

    /// Reads an identifier and gives its text.
    pub fn read_ident(&mut self) -> (r: Result<String, String>)
        ensures
            final(self).tokens == old(self).tokens,
            match spec_read_ident(old(self).tokens@, old(self).pos as int) {
                Ok((v, p)) => r matches Ok(s) && s@ == v && final(self).pos == p,
                Err(m) => r matches Err(e) && e@ == m && final(self).pos == old(self).pos,
            },
    {
        if self.pos < self.tokens.len() {
            if let TokenTree::Token(Token::Ident(value)) = &self.tokens[self.pos] {
                let v = value.clone();
                self.pos = self.pos + 1;
                return Ok(v);
            }
        }
        Err(String::from_str("expecting identifier"))
    }

    /// Reads an identifier that is one of `select` and gives its text.
    pub fn read_ident_match(&mut self, select: &[&str]) -> (r: Result<String, String>)
        ensures
            final(self).tokens == old(self).tokens,
            match spec_read_ident_match(old(self).tokens@, old(self).pos as int, select@.map_values(|s: &str| s@)) {
                Ok((v, p)) => r matches Ok(s) && s@ == v && final(self).pos == p,
                Err(m) => r matches Err(e) && e@ == m && final(self).pos == old(self).pos,
            },
    {
        let ghost sel = select@.map_values(|s: &str| s@);
        if self.pos < self.tokens.len() {
            if let TokenTree::Token(Token::Ident(value)) = &self.tokens[self.pos] {
                let mut i: usize = 0;
                while i < select.len()
                    invariant
                        0 <= i <= select@.len(),
                        sel == select@.map_values(|s: &str| s@),
                        forall|j: int| 0 <= j < i ==> sel[j] != value@,
                        self.tokens == old(self).tokens,
                        self.pos == old(self).pos,
                        self.pos < self.tokens@.len(),
                        self.tokens@.len() <= usize::MAX,
                        self.tokens@[self.pos as int] == TokenTree::Token(Token::Ident(*value)),
                    decreases select@.len() - i,
                {
                    if str_eq(value.as_str(), select[i]) {
                        assert(sel[i as int] == value@);
                        let v = value.clone();
                        self.pos = self.pos + 1;
                        return Ok(v);
                    }
                    i = i + 1;
                }
                assert(!sel.contains(value@));
                let mut e = String::from_str("unexpected identifier ");
                e.append(value.as_str());
                proof {
                    reveal_strlit("unexpected identifier ");
                }
                return Err(e);
            }
        }
        Err(String::from_str("expecting identifier"))
    }

    /// Whether a delimited group comes next.
    pub fn has_brackets(&self) -> (r: bool)
        ensures
            r == spec_has_brackets(self.tokens@, self.pos as int),
    {
        self.pos < self.tokens.len() && match &self.tokens[self.pos] {
            TokenTree::Delimited(_) => true,
            _ => false,
        }
    }

    /// Reads a delimited group and gives its content.
    pub fn read_brackets(&mut self) -> (r: Result<&'a [TokenTree], String>)
        ensures
            final(self).tokens == old(self).tokens,
            match spec_read_brackets(old(self).tokens@, old(self).pos as int) {
                Ok((v, p)) => r matches Ok(s) && s@ == v && final(self).pos == p,
                Err(m) => r matches Err(e) && e@ == m && final(self).pos == old(self).pos,
            },
    {
        if self.pos < self.tokens.len() {
            let tokens: &'a [TokenTree] = self.tokens;
            if let TokenTree::Delimited(inner) = &tokens[self.pos] {
                self.pos = self.pos + 1;
                return Ok(inner.as_slice());
            }
        }
        Err(String::from_str("expecting brackets"))
    }

    /// Whether an integer literal comes next.
    pub fn has_int(&self) -> (r: bool)
        ensures
            r == spec_has_int(self.tokens@, self.pos as int),
    {
        self.pos < self.tokens.len() && match &self.tokens[self.pos] {
            TokenTree::Token(Token::Int(_)) => true,
            _ => false,
        }
    }

    /// Reads an integer literal and gives its value (see `spec_int_value`).
    pub fn read_int(&mut self) -> (r: Result<isize, String>)
        ensures
            final(self).tokens == old(self).tokens,
            final(self).pos == spec_read_int(old(self).tokens@, old(self).pos as int).1,
            match spec_read_int(old(self).tokens@, old(self).pos as int).0 {
                Ok((v, p)) => r == Ok::<isize, String>(v),
                Err(m) => r matches Err(e) && e@ == m,
            },
    {
        if self.pos < self.tokens.len() {
            if let TokenTree::Token(Token::Int(value)) = &self.tokens[self.pos] {
                self.pos = self.pos + 1;
                return match int_value(value.as_str()) {
                    Some(v) => Ok(v),
                    None => Err(String::from_str("invalid integer")),
                };
            }
        }
        Err(String::from_str("expecting integer"))
    }

    /// Reads the punctuation `t`.
    pub fn read_token(&mut self, t: Punct) -> (r: Result<(), String>)
        ensures
            final(self).tokens == old(self).tokens,
            match spec_read_token(old(self).tokens@, old(self).pos as int, t) {
                Ok((v, p)) => r is Ok && final(self).pos == p,
                Err(m) => r matches Err(e) && e@ == m && final(self).pos == old(self).pos,
            },
    {
        if self.pos < self.tokens.len() {
            if let TokenTree::Token(Token::Punct(u)) = &self.tokens[self.pos] {
                if *u == t {
                    self.pos = self.pos + 1;
                    return Ok(());
                }
            }
        }
        let found = if self.pos < self.tokens.len() {
            let text = write_token(&self.tokens[self.pos]);
            wrap_text("Some(", text.as_str())
        } else {
            String::from_str("None")
        };
        let mut e = String::from_str("expecting simple token ");
        e.append(punct_str(t));
        e.append(", got ");
        e.append(found.as_str());
        Err(e)
    }
}

/// The value of an integer literal's text (see `spec_int_value`).
pub fn int_value(s: &str) -> (r: Option<isize>)
    ensures
        r == spec_int_value(s@),
{
    let n = s.unicode_len();
    let mut i: usize = 0;
    let mut has_x = false;
    while i < n
        invariant
            n == s@.len(),
            0 <= i <= n,
            has_x == (exists|j: int| 0 <= j < i && s@[j] == 'x'),
        decreases n - i,
    {
        if s.get_char(i) == 'x' {
            has_x = true;
        }
        i = i + 1;
    }
    proof {
        if has_x {
            let j = choose|j: int| 0 <= j < n && s@[j] == 'x';
            assert(s@.contains('x'));
        } else {
            assert(!s@.contains('x'));
        }
    }
    if has_x {
        if n >= 2 && (s.get_char(0) as u32) < 0x80 && (s.get_char(1) as u32) < 0x80 {
            parse_isize_from(s, 2, 16)
        } else {
            None
        }
    } else {
        assert(s@.skip(0) == s@);
        parse_isize_from(s, 0, 10)
    }
}


/// Doc comments do not move the reader back.
pub proof fn lemma_skip_comments_ge(ts: Seq<TokenTree>, pos: int)
    ensures
        skip_comments(ts, pos) >= pos,
        0 <= pos <= ts.len() ==> skip_comments(ts, pos) <= ts.len(),
    decreases ts.len() - pos,
{
    if 0 <= pos < ts.len() && ts[pos] matches TokenTree::Token(Token::DocComment(_)) {
        lemma_skip_comments_ge(ts, pos + 1);
    }
}

/// Moves the reader past the doc comments that come next.
pub fn ignore_comments(reader: &mut Reader)
    requires
        old(reader).pos <= old(reader).tokens@.len(),
    ensures
        final(reader).tokens == old(reader).tokens,
        final(reader).pos == skip_comments(old(reader).tokens@, old(reader).pos as int),
{
    let ghost start = reader.pos as int;
    loop
        invariant
            reader.tokens == old(reader).tokens,
            start <= reader.pos <= reader.tokens@.len(),
            start == old(reader).pos,
            skip_comments(reader.tokens@, reader.pos as int) == skip_comments(reader.tokens@, start),
        decreases reader.tokens@.len() - reader.pos,
    {
        match reader.read_comment() {
            Ok(_) => {},
            Err(_) => {
                assert(skip_comments(reader.tokens@, reader.pos as int) == reader.pos);
                return;
            },
        }
    }
}

} // verus!

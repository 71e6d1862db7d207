//! The lexer: turns source text into a token stream.  Each token class is
//! matched by the longest prefix its pattern allows; keywords are split
//! from identifiers after the identifier is read.

use vstd::prelude::*;

verus! {

/// One lexical token.
#[derive(Debug)]
pub enum Token {
    Ident(String),
    StringLiteral(String),
    CharLit(char),
    Whole(u64),
    Decimal(String),
    KwVoid,
    KwChar,
    KwShort,
    KwInt,
    KwLong,
    KwFloat,
    KwDouble,
    KwSigned,
    KwUnsigned,
    KwIf,
    KwElse,
    KwSwitch,
    KwCase,
    KwDefault,
    KwWhile,
    KwDo,
    KwFor,
    KwGoto,
    KwContinue,
    KwBreak,
    KwReturn,
    KwStruct,
    KwUnion,
    KwEnum,
    KwTypedef,
    KwStatic,
    KwExtern,
    KwSizeof,
    KwAuto,
    KwRegister,
    KwConst,
    KwVolatile,
    Bool(bool),
    Null,
    LCurly,
    RCurly,
    LSquare,
    RSquare,
    LParen,
    RParen,
    Comma,
    Colon,
    SemiColon,
    Dot,
    Arrow,
    Question,
    Plus,
    PlusPlus,
    PlusEquals,
    Hyphen,
    HyphenHyphen,
    HyphenEquals,
    Asterisk,
    AsteriskEquals,
    Slash,
    SlashEquals,
    Percent,
    PercentEquals,
    Caret,
    CaretEquals,
    Equals,
    Ampersand,
    AmpersandAmpersand,
    AmpersandEquals,
    Pipe,
    PipePipe,
    PipeEquals,
    Exclamation,
    Tilde,
    LT,
    GT,
    LE,
    GE,
    EQ,
    NE,
    LTLT,
    LTLTEquals,
    GTGT,
    GTGTEquals,
}

/// The position at which no token could be read.
#[derive(Debug)]
pub struct InvalidToken {
    pub pos: usize,
}

/// Whether a character may start an identifier.
pub open spec fn is_ident_start(c: char) -> bool {
    ('a' as u32 <= c as u32 && c as u32 <= 'z' as u32) || ('A' as u32 <= c as u32 && c as u32
        <= 'Z' as u32) || c == '_'
}

/// Whether a character may continue an identifier.
pub open spec fn is_ident_char(c: char) -> bool {
    is_ident_start(c) || is_digit(c)
}

/// Whether a character is a decimal digit.
pub open spec fn is_digit(c: char) -> bool {
    '0' as u32 <= c as u32 && c as u32 <= '9' as u32
}

/// Whether a character may start an identifier (executable form).
pub fn ident_start(c: char) -> (r: bool)
    ensures
        r == is_ident_start(c),
{
    let u = c as u32;
    ('a' as u32 <= u && u <= 'z' as u32) || ('A' as u32 <= u && u <= 'Z' as u32) || c == '_'
}

/// Whether a character may continue an identifier (executable form).
pub fn ident_char(c: char) -> (r: bool)
    ensures
        r == is_ident_char(c),
{
    ident_start(c) || digit(c)
}

/// Whether a character is a decimal digit (executable form).
pub fn digit(c: char) -> (r: bool)
    ensures
        r == is_digit(c),
{
    let u = c as u32;
    '0' as u32 <= u && u <= '9' as u32
}

/// Whether the given prefix stands at `pos` in the text.
pub open spec fn prefix_at(text: Seq<char>, pos: int, prefix: Seq<char>) -> bool {
    pos + prefix.len() <= text.len() && text.subrange(pos, pos + prefix.len()) == prefix
}

/// Matches a fixed prefix at a position; the position after it on
/// success, and only on an exact character-for-character match.
pub fn lex_with_prefix(text: &str, pos: usize, prefix: &str) -> (r: Option<usize>)
    requires
        pos <= text@.len(),
    ensures
        match r {
            Some(p) => p == pos + prefix@.len() && prefix_at(text@, pos as int, prefix@),
            None => !prefix_at(text@, pos as int, prefix@),
        },
{
    let n = text.unicode_len();
    let m = prefix.unicode_len();
    if m > n - pos {
        return None;
    }
    let mut i: usize = 0;
    while i < m
        invariant
            i <= m,
            m == prefix@.len(),
            n == text@.len(),
            pos + m <= n,
            forall|j: int| 0 <= j < i ==> text@[pos + j] == prefix@[j],
        decreases m - i,
    {
        if text.get_char(pos + i) != prefix.get_char(i) {
            proof {
                assert(text@.subrange(pos as int, pos + m as int)[i as int] != prefix@[i as int]);
            }
            return None;
        }
        i += 1;
    }
    proof {
        assert(text@.subrange(pos as int, pos + m as int) =~= prefix@);
    }
    Some(pos + m)
}

/// The numeric value of a digit sequence, most significant first.
pub open spec fn digits_value(s: Seq<char>) -> int
    decreases s,
{
    if s.len() == 0 {
        0
    } else {
        digits_value(s.drop_last()) * 10 + (s.last() as u32 - '0' as u32)
    }
}

/// Reads the longest digit run starting at `pos` and its value; refused
/// when there is none or the value does not fit.
pub fn lex_whole(text: &str, pos: usize) -> (r: Option<(Token, usize)>)
    requires
        pos <= text@.len(),
    ensures
        match r {
            Some(p) => {
                &&& p.1 > pos && p.1 <= text@.len()
                &&& forall|j: int| pos <= j < p.1 ==> is_digit(text@[j])
                &&& p.1 == text@.len() || !is_digit(text@[p.1 as int])
                &&& p.0 matches Token::Whole(v) && v == digits_value(
                    text@.subrange(pos as int, p.1 as int),
                )
            },
            None => true,
        },
{
    let n = text.unicode_len();
    if pos >= n || !digit(text.get_char(pos)) {
        return None;
    }
    let mut p: usize = pos;
    let mut value: u64 = 0;
    let mut overflow = false;
    proof {
        assert(text@.subrange(pos as int, pos as int) =~= Seq::<char>::empty());
    }
    while p < n && digit(text.get_char(p))
        invariant
            pos <= p <= n,
            n == text@.len(),
            forall|j: int| pos <= j < p ==> is_digit(text@[j]),
            !overflow ==> value == digits_value(text@.subrange(pos as int, p as int)),
        decreases n - p,
    {
        proof {
            assert(text@.subrange(pos as int, p + 1).drop_last() =~= text@.subrange(
                pos as int,
                p as int,
            ));
            assert(text@.subrange(pos as int, p + 1).last() == text@[p as int]);
        }
        let d = (text.get_char(p) as u32) - ('0' as u32);
        if value > (u64::MAX - (d as u64)) / 10 {
            overflow = true;
        } else {
            value = value * 10 + (d as u64);
        }
        p += 1;
    }
    if overflow {
        None
    } else {
        Some((Token::Whole(value), p))
    }
}

/// Reads a decimal literal: digits with one dot among them, kept as its
/// spelled text; the analyzer only ever reads its kind.
pub fn lex_decimal(text: &str, pos: usize) -> (r: Option<(Token, usize)>)
    requires
        pos <= text@.len(),
    ensures
        match r {
            Some(p) => p.1 > pos && p.1 <= text@.len() && pos < text@.len()
                && (is_digit(text@[pos as int]) || text@[pos as int] == '.'),
            None => true,
        },
{
    let n = text.unicode_len();
    let mut p: usize = pos;
    while p < n && digit(text.get_char(p))
        invariant
            pos <= p <= n,
            n == text@.len(),
            p > pos ==> is_digit(text@[pos as int]),
        decreases n - p,
    {
        p += 1;
    }
    if p >= n || text.get_char(p) != '.' {
        return None;
    }
    let dot = p;
    let mut q: usize = dot + 1;
    while q < n && digit(text.get_char(q))
        invariant
            dot < q <= n,
            n == text@.len(),
        decreases n - q,
    {
        q += 1;
    }
    if dot == pos && q == dot + 1 {
        // a lone dot is no number
        return None;
    }
    Some((Token::Decimal(text.substring_char(pos, q).to_owned()), q))
}

/// Reads an identifier: a letter or underscore followed by the longest
/// run of letters, digits and underscores; keywords come out as their
/// own tokens.
pub fn lex_ident(text: &str, pos: usize) -> (r: Option<(Token, usize)>)
    requires
        pos <= text@.len(),
    ensures
        match r {
            Some(p) => {
                &&& p.1 > pos && p.1 <= text@.len()
                &&& is_ident_start(text@[pos as int])
                &&& forall|j: int| pos < j < p.1 ==> is_ident_char(text@[j])
                &&& p.1 == text@.len() || !is_ident_char(text@[p.1 as int])
            },
            None => pos == text@.len() || !is_ident_start(text@[pos as int]),
        },
{
    let n = text.unicode_len();
    if pos >= n || !ident_start(text.get_char(pos)) {
        return None;
    }
    let mut p: usize = pos + 1;
    while p < n && ident_char(text.get_char(p))
        invariant
            pos < p <= n,
            n == text@.len(),
            is_ident_start(text@[pos as int]),
            forall|j: int| pos < j < p ==> is_ident_char(text@[j]),
        decreases n - p,
    {
        p += 1;
    }
    let word = text.substring_char(pos, p).to_owned();
    Some((classify_word(word), p))
}

/// Whether this text spells a keyword.
pub open spec fn is_keyword_text(s: Seq<char>) -> bool {
    ||| s == "void"@
    ||| s == "char"@
    ||| s == "short"@
    ||| s == "int"@
    ||| s == "long"@
    ||| s == "float"@
    ||| s == "double"@
    ||| s == "signed"@
    ||| s == "unsigned"@
    ||| s == "if"@
    ||| s == "else"@
    ||| s == "switch"@
    ||| s == "case"@
    ||| s == "default"@
    ||| s == "while"@
    ||| s == "do"@
    ||| s == "for"@
    ||| s == "goto"@
    ||| s == "continue"@
    ||| s == "break"@
    ||| s == "return"@
    ||| s == "struct"@
    ||| s == "union"@
    ||| s == "enum"@
    ||| s == "typedef"@
    ||| s == "static"@
    ||| s == "extern"@
    ||| s == "sizeof"@
    ||| s == "auto"@
    ||| s == "register"@
    ||| s == "const"@
    ||| s == "volatile"@
    ||| s == "true"@
    ||| s == "false"@
    ||| s == "NULL"@
}

/// Splits keywords from plain identifiers.
pub fn classify_word(word: String) -> (t: Token)
    ensures
        t is KwVoid ==> word@ == "void"@,
        t is KwChar ==> word@ == "char"@,
        t is KwShort ==> word@ == "short"@,
        t is KwInt ==> word@ == "int"@,
        t is KwLong ==> word@ == "long"@,
        t is KwFloat ==> word@ == "float"@,
        t is KwDouble ==> word@ == "double"@,
        t is KwSigned ==> word@ == "signed"@,
        t is KwUnsigned ==> word@ == "unsigned"@,
        t is KwIf ==> word@ == "if"@,
        t is KwElse ==> word@ == "else"@,
        t is KwSwitch ==> word@ == "switch"@,
        t is KwCase ==> word@ == "case"@,
        t is KwDefault ==> word@ == "default"@,
        t is KwWhile ==> word@ == "while"@,
        t is KwDo ==> word@ == "do"@,
        t is KwFor ==> word@ == "for"@,
        t is KwGoto ==> word@ == "goto"@,
        t is KwContinue ==> word@ == "continue"@,
        t is KwBreak ==> word@ == "break"@,
        t is KwReturn ==> word@ == "return"@,
        t is KwStruct ==> word@ == "struct"@,
        t is KwUnion ==> word@ == "union"@,
        t is KwEnum ==> word@ == "enum"@,
        t is KwTypedef ==> word@ == "typedef"@,
        t is KwStatic ==> word@ == "static"@,
        t is KwExtern ==> word@ == "extern"@,
        t is KwSizeof ==> word@ == "sizeof"@,
        t is KwAuto ==> word@ == "auto"@,
        t is KwRegister ==> word@ == "register"@,
        t is KwConst ==> word@ == "const"@,
        t is KwVolatile ==> word@ == "volatile"@,
        t matches Token::Bool(b) ==> (b ==> word@ == "true"@) && (!b ==> word@ == "false"@),
        t is Null ==> word@ == "NULL"@,
        t is Ident <==> !is_keyword_text(word@),
        t matches Token::Ident(w) ==> w == word,
{
    if word == String::from_str("void") {
        Token::KwVoid
    } else if word == String::from_str("char") {
        Token::KwChar
    } else if word == String::from_str("short") {
        Token::KwShort
    } else if word == String::from_str("int") {
        Token::KwInt
    } else if word == String::from_str("long") {
        Token::KwLong
    } else if word == String::from_str("float") {
        Token::KwFloat
    } else if word == String::from_str("double") {
        Token::KwDouble
    } else if word == String::from_str("signed") {
        Token::KwSigned
    } else if word == String::from_str("unsigned") {
        Token::KwUnsigned
    } else if word == String::from_str("if") {
        Token::KwIf
    } else if word == String::from_str("else") {
        Token::KwElse
    } else if word == String::from_str("switch") {
        Token::KwSwitch
    } else if word == String::from_str("case") {
        Token::KwCase
    } else if word == String::from_str("default") {
        Token::KwDefault
    } else if word == String::from_str("while") {
        Token::KwWhile
    } else if word == String::from_str("do") {
        Token::KwDo
    } else if word == String::from_str("for") {
        Token::KwFor
    } else if word == String::from_str("goto") {
        Token::KwGoto
    } else if word == String::from_str("continue") {
        Token::KwContinue
    } else if word == String::from_str("break") {
        Token::KwBreak
    } else if word == String::from_str("return") {
        Token::KwReturn
    } else if word == String::from_str("struct") {
        Token::KwStruct
    } else if word == String::from_str("union") {
        Token::KwUnion
    } else if word == String::from_str("enum") {
        Token::KwEnum
    } else if word == String::from_str("typedef") {
        Token::KwTypedef
    } else if word == String::from_str("static") {
        Token::KwStatic
    } else if word == String::from_str("extern") {
        Token::KwExtern
    } else if word == String::from_str("sizeof") {
        Token::KwSizeof
    } else if word == String::from_str("auto") {
        Token::KwAuto
    } else if word == String::from_str("register") {
        Token::KwRegister
    } else if word == String::from_str("const") {
        Token::KwConst
    } else if word == String::from_str("volatile") {
        Token::KwVolatile
    } else if word == String::from_str("true") {
        Token::Bool(true)
    } else if word == String::from_str("false") {
        Token::Bool(false)
    } else if word == String::from_str("NULL") {
        Token::Null
    } else {
        Token::Ident(word)
    }
}

/// Reads a string literal: a quote, at least one character that is
/// neither quote nor newline, and a closing quote.
pub fn lex_string(text: &str, pos: usize) -> (r: Option<(Token, usize)>)
    requires
        pos <= text@.len(),
    ensures
        match r {
            Some(p) => p.1 > pos && p.1 <= text@.len() && pos < text@.len()
                && text@[pos as int] == '"',
            None => true,
        },
{
    let n = text.unicode_len();
    if pos >= n || text.get_char(pos) != '"' {
        return None;
    }
    let mut p: usize = pos + 1;
    while p < n && text.get_char(p) != '"' && text.get_char(p) != '\n'
        invariant
            pos < p <= n,
            n == text@.len(),
        decreases n - p,
    {
        p += 1;
    }
    if p >= n || text.get_char(p) != '"' || p == pos + 1 {
        return None;
    }
    Some((Token::StringLiteral(text.substring_char(pos + 1, p).to_owned()), p + 1))
}

/// Reads a character literal: a quote, one character, a quote.
pub fn lex_char(text: &str, pos: usize) -> (r: Option<(Token, usize)>)
    requires
        pos <= text@.len(),
    ensures
        match r {
            Some(p) => p.1 > pos && p.1 <= text@.len() && pos < text@.len()
                && text@[pos as int] == '\'',
            None => true,
        },
{
    let n = text.unicode_len();
    if pos >= n || text.get_char(pos) != '\'' {
        return None;
    }
    if n - pos < 3 {
        return None;
    }
    if text.get_char(pos + 2) != '\'' {
        return None;
    }
    let c = text.get_char(pos + 1);
    Some((Token::CharLit(c), pos + 3))
}

/// The symbol token standing at a position, longest spelling first;
/// a longer operator is always matched ahead of its one- or
/// two-character prefixes.
pub open spec fn spec_lex_symbol(text: Seq<char>, pos: int) -> Option<(Token, int)> {
    if prefix_at(text, pos, "<<="@) {
        Some((Token::LTLTEquals, pos + 3))
    } else if prefix_at(text, pos, ">>="@) {
        Some((Token::GTGTEquals, pos + 3))
    } else if prefix_at(text, pos, "->"@) {
        Some((Token::Arrow, pos + 2))
    } else if prefix_at(text, pos, "++"@) {
        Some((Token::PlusPlus, pos + 2))
    } else if prefix_at(text, pos, "+="@) {
        Some((Token::PlusEquals, pos + 2))
    } else if prefix_at(text, pos, "--"@) {
        Some((Token::HyphenHyphen, pos + 2))
    } else if prefix_at(text, pos, "-="@) {
        Some((Token::HyphenEquals, pos + 2))
    } else if prefix_at(text, pos, "*="@) {
        Some((Token::AsteriskEquals, pos + 2))
    } else if prefix_at(text, pos, "/="@) {
        Some((Token::SlashEquals, pos + 2))
    } else if prefix_at(text, pos, "%="@) {
        Some((Token::PercentEquals, pos + 2))
    } else if prefix_at(text, pos, "^="@) {
        Some((Token::CaretEquals, pos + 2))
    } else if prefix_at(text, pos, "&&"@) {
        Some((Token::AmpersandAmpersand, pos + 2))
    } else if prefix_at(text, pos, "&="@) {
        Some((Token::AmpersandEquals, pos + 2))
    } else if prefix_at(text, pos, "||"@) {
        Some((Token::PipePipe, pos + 2))
    } else if prefix_at(text, pos, "|="@) {
        Some((Token::PipeEquals, pos + 2))
    } else if prefix_at(text, pos, "=="@) {
        Some((Token::EQ, pos + 2))
    } else if prefix_at(text, pos, "!="@) {
        Some((Token::NE, pos + 2))
    } else if prefix_at(text, pos, "<<"@) {
        Some((Token::LTLT, pos + 2))
    } else if prefix_at(text, pos, ">>"@) {
        Some((Token::GTGT, pos + 2))
    } else if prefix_at(text, pos, "<="@) {
        Some((Token::LE, pos + 2))
    } else if prefix_at(text, pos, ">="@) {
        Some((Token::GE, pos + 2))
    } else if prefix_at(text, pos, "{"@) {
        Some((Token::LCurly, pos + 1))
    } else if prefix_at(text, pos, "}"@) {
        Some((Token::RCurly, pos + 1))
    } else if prefix_at(text, pos, "["@) {
        Some((Token::LSquare, pos + 1))
    } else if prefix_at(text, pos, "]"@) {
        Some((Token::RSquare, pos + 1))
    } else if prefix_at(text, pos, "("@) {
        Some((Token::LParen, pos + 1))
    } else if prefix_at(text, pos, ")"@) {
        Some((Token::RParen, pos + 1))
    } else if prefix_at(text, pos, ","@) {
        Some((Token::Comma, pos + 1))
    } else if prefix_at(text, pos, ":"@) {
        Some((Token::Colon, pos + 1))
    } else if prefix_at(text, pos, ";"@) {
        Some((Token::SemiColon, pos + 1))
    } else if prefix_at(text, pos, "."@) {
        Some((Token::Dot, pos + 1))
    } else if prefix_at(text, pos, "?"@) {
        Some((Token::Question, pos + 1))
    } else if prefix_at(text, pos, "+"@) {
        Some((Token::Plus, pos + 1))
    } else if prefix_at(text, pos, "-"@) {
        Some((Token::Hyphen, pos + 1))
    } else if prefix_at(text, pos, "*"@) {
        Some((Token::Asterisk, pos + 1))
    } else if prefix_at(text, pos, "/"@) {
        Some((Token::Slash, pos + 1))
    } else if prefix_at(text, pos, "%"@) {
        Some((Token::Percent, pos + 1))
    } else if prefix_at(text, pos, "^"@) {
        Some((Token::Caret, pos + 1))
    } else if prefix_at(text, pos, "="@) {
        Some((Token::Equals, pos + 1))
    } else if prefix_at(text, pos, "&"@) {
        Some((Token::Ampersand, pos + 1))
    } else if prefix_at(text, pos, "|"@) {
        Some((Token::Pipe, pos + 1))
    } else if prefix_at(text, pos, "!"@) {
        Some((Token::Exclamation, pos + 1))
    } else if prefix_at(text, pos, "~"@) {
        Some((Token::Tilde, pos + 1))
    } else if prefix_at(text, pos, "<"@) {
        Some((Token::LT, pos + 1))
    } else if prefix_at(text, pos, ">"@) {
        Some((Token::GT, pos + 1))
    } else {
        None
    }
}

/// Reads one symbol token.
pub fn lex_symbol(text: &str, pos: usize) -> (r: Option<(Token, usize)>)
    requires
        pos <= text@.len(),
    ensures
        match r {
            Some(p) => p.1 > pos && p.1 <= text@.len() && spec_lex_symbol(text@, pos as int)
                == Some((p.0, p.1 as int)),
            None => spec_lex_symbol(text@, pos as int) is None,
        },
{
    proof {
        reveal_strlit("<<=");
        reveal_strlit(">>=");
        reveal_strlit("->");
        reveal_strlit("++");
        reveal_strlit("+=");
        reveal_strlit("--");
        reveal_strlit("-=");
        reveal_strlit("*=");
        reveal_strlit("/=");
        reveal_strlit("%=");
        reveal_strlit("^=");
        reveal_strlit("&&");
        reveal_strlit("&=");
        reveal_strlit("||");
        reveal_strlit("|=");
        reveal_strlit("==");
        reveal_strlit("!=");
        reveal_strlit("<<");
        reveal_strlit(">>");
        reveal_strlit("<=");
        reveal_strlit(">=");
        reveal_strlit("{");
        reveal_strlit("}");
        reveal_strlit("[");
        reveal_strlit("]");
        reveal_strlit("(");
        reveal_strlit(")");
        reveal_strlit(",");
        reveal_strlit(":");
        reveal_strlit(";");
        reveal_strlit(".");
        reveal_strlit("?");
        reveal_strlit("+");
        reveal_strlit("-");
        reveal_strlit("*");
        reveal_strlit("/");
        reveal_strlit("%");
        reveal_strlit("^");
        reveal_strlit("=");
        reveal_strlit("&");
        reveal_strlit("|");
        reveal_strlit("!");
        reveal_strlit("~");
        reveal_strlit("<");
        reveal_strlit(">");
    }
    if let Some(p) = lex_with_prefix(text, pos, "<<=") {
        return Some((Token::LTLTEquals, p));
    }
    if let Some(p) = lex_with_prefix(text, pos, ">>=") {
        return Some((Token::GTGTEquals, p));
    }
    if let Some(p) = lex_with_prefix(text, pos, "->") {
        return Some((Token::Arrow, p));
    }
    if let Some(p) = lex_with_prefix(text, pos, "++") {
        return Some((Token::PlusPlus, p));
    }
    if let Some(p) = lex_with_prefix(text, pos, "+=") {
        return Some((Token::PlusEquals, p));
    }
    if let Some(p) = lex_with_prefix(text, pos, "--") {
        return Some((Token::HyphenHyphen, p));
    }
    if let Some(p) = lex_with_prefix(text, pos, "-=") {
        return Some((Token::HyphenEquals, p));
    }
    if let Some(p) = lex_with_prefix(text, pos, "*=") {
        return Some((Token::AsteriskEquals, p));
    }
    if let Some(p) = lex_with_prefix(text, pos, "/=") {
        return Some((Token::SlashEquals, p));
    }
    if let Some(p) = lex_with_prefix(text, pos, "%=") {
        return Some((Token::PercentEquals, p));
    }
    if let Some(p) = lex_with_prefix(text, pos, "^=") {
        return Some((Token::CaretEquals, p));
    }
    if let Some(p) = lex_with_prefix(text, pos, "&&") {
        return Some((Token::AmpersandAmpersand, p));
    }
    if let Some(p) = lex_with_prefix(text, pos, "&=") {
        return Some((Token::AmpersandEquals, p));
    }
    if let Some(p) = lex_with_prefix(text, pos, "||") {
        return Some((Token::PipePipe, p));
    }
    if let Some(p) = lex_with_prefix(text, pos, "|=") {
        return Some((Token::PipeEquals, p));
    }
    if let Some(p) = lex_with_prefix(text, pos, "==") {
        return Some((Token::EQ, p));
    }
    if let Some(p) = lex_with_prefix(text, pos, "!=") {
        return Some((Token::NE, p));
    }
    if let Some(p) = lex_with_prefix(text, pos, "<<") {
        return Some((Token::LTLT, p));
    }
    if let Some(p) = lex_with_prefix(text, pos, ">>") {
        return Some((Token::GTGT, p));
    }
    if let Some(p) = lex_with_prefix(text, pos, "<=") {
        return Some((Token::LE, p));
    }
    if let Some(p) = lex_with_prefix(text, pos, ">=") {
        return Some((Token::GE, p));
    }
    if let Some(p) = lex_with_prefix(text, pos, "{") {
        return Some((Token::LCurly, p));
    }
    if let Some(p) = lex_with_prefix(text, pos, "}") {
        return Some((Token::RCurly, p));
    }
    if let Some(p) = lex_with_prefix(text, pos, "[") {
        return Some((Token::LSquare, p));
    }
    if let Some(p) = lex_with_prefix(text, pos, "]") {
        return Some((Token::RSquare, p));
    }
    if let Some(p) = lex_with_prefix(text, pos, "(") {
        return Some((Token::LParen, p));
    }
    if let Some(p) = lex_with_prefix(text, pos, ")") {
        return Some((Token::RParen, p));
    }
    if let Some(p) = lex_with_prefix(text, pos, ",") {
        return Some((Token::Comma, p));
    }
    if let Some(p) = lex_with_prefix(text, pos, ":") {
        return Some((Token::Colon, p));
    }
    if let Some(p) = lex_with_prefix(text, pos, ";") {
        return Some((Token::SemiColon, p));
    }
    if let Some(p) = lex_with_prefix(text, pos, ".") {
        return Some((Token::Dot, p));
    }
    if let Some(p) = lex_with_prefix(text, pos, "?") {
        return Some((Token::Question, p));
    }
    if let Some(p) = lex_with_prefix(text, pos, "+") {
        return Some((Token::Plus, p));
    }
    if let Some(p) = lex_with_prefix(text, pos, "-") {
        return Some((Token::Hyphen, p));
    }
    if let Some(p) = lex_with_prefix(text, pos, "*") {
        return Some((Token::Asterisk, p));
    }
    if let Some(p) = lex_with_prefix(text, pos, "/") {
        return Some((Token::Slash, p));
    }
    if let Some(p) = lex_with_prefix(text, pos, "%") {
        return Some((Token::Percent, p));
    }
    if let Some(p) = lex_with_prefix(text, pos, "^") {
        return Some((Token::Caret, p));
    }
    if let Some(p) = lex_with_prefix(text, pos, "=") {
        return Some((Token::Equals, p));
    }
    if let Some(p) = lex_with_prefix(text, pos, "&") {
        return Some((Token::Ampersand, p));
    }
    if let Some(p) = lex_with_prefix(text, pos, "|") {
        return Some((Token::Pipe, p));
    }
    if let Some(p) = lex_with_prefix(text, pos, "!") {
        return Some((Token::Exclamation, p));
    }
    if let Some(p) = lex_with_prefix(text, pos, "~") {
        return Some((Token::Tilde, p));
    }
    if let Some(p) = lex_with_prefix(text, pos, "<") {
        return Some((Token::LT, p));
    }
    if let Some(p) = lex_with_prefix(text, pos, ">") {
        return Some((Token::GT, p));
    }
    None
}

/// Whether the character can begin an identifier, keyword or literal,
/// so that one of those is read ahead of any symbol.
pub open spec fn starts_word_or_literal(c: char) -> bool {
    is_ident_start(c) || is_digit(c) || c == '"' || c == '\'' || c == '.'
}

/// Reads one token at a position: words, literals, then symbols.  At a
/// position where no word or literal can begin, the result is exactly
/// the symbol chain's: a longer operator ahead of its shorter prefixes.
pub fn lex_token(text: &str, pos: usize) -> (r: Result<(Token, usize), InvalidToken>)
    requires
        pos <= text@.len(),
    ensures
        match r {
            Ok(p) => p.1 > pos && p.1 <= text@.len(),
            Err(e) => e.pos == pos,
        },
        pos < text@.len() && !starts_word_or_literal(text@[pos as int]) ==> (match r {
            Ok(p) => spec_lex_symbol(text@, pos as int) == Some((p.0, p.1 as int)),
            Err(e) => spec_lex_symbol(text@, pos as int) is None,
        }),
{
    if let Some(tp) = lex_ident(text, pos) {
        return Ok(tp);
    }
    if let Some(tp) = lex_string(text, pos) {
        return Ok(tp);
    }
    if let Some(tp) = lex_char(text, pos) {
        return Ok(tp);
    }
    if let Some(tp) = lex_decimal(text, pos) {
        return Ok(tp);
    }
    if let Some(tp) = lex_whole(text, pos) {
        return Ok(tp);
    }
    if let Some(tp) = lex_symbol(text, pos) {
        return Ok(tp);
    }
    Err(InvalidToken { pos })
}

/// Lexes a whole text; spaces and newlines separate tokens, and the
/// first unreadable position is reported.
pub fn lex(text: &str) -> (r: Result<Vec<Token>, InvalidToken>)
    ensures
        r matches Err(e) ==> e.pos <= text@.len(),
{
    let n = text.unicode_len();
    let mut tokens: Vec<Token> = Vec::new();
    let mut pos: usize = 0;
    while pos < n
        invariant
            pos <= n,
            n == text@.len(),
        decreases n - pos,
    {
        let c = text.get_char(pos);
        if c == ' ' || c == '\n' || c == '\t' || c == '\r' {
            pos += 1;
        } else {
            match lex_token(text, pos) {
                Ok((t, p)) => {
                    tokens.push(t);
                    pos = p;
                },
                Err(e) => {
                    return Err(e);
                },
            }
        }
    }
    Ok(tokens)
}

} // verus!

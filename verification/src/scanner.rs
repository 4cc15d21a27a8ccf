//! The scanner: a lazy sequence of tokens read from a byte source.
//!
//! The source is byte-oriented: a byte outside a string literal that
//! starts no token is an error, while any byte inside a string literal
//! becomes part of the string.

use vstd::prelude::*;

use crate::text::push_char;
use crate::tokens::{get_reserved_keyword, spec_keyword, Token, TokenType, TokenTypeV, TokenV};

verus! {

/// Whether a byte is an ASCII decimal digit.
pub open spec fn spec_is_digit(b: u8) -> bool {
    ('0' as u8) <= b && b <= ('9' as u8)
}

/// Whether a byte is an ASCII letter.
pub open spec fn spec_is_alpha(b: u8) -> bool {
    (('a' as u8) <= b && b <= ('z' as u8)) || (('A' as u8) <= b && b <= ('Z' as u8))
}

/// Whether a byte may continue an identifier.
pub open spec fn spec_is_alnum(b: u8) -> bool {
    spec_is_digit(b) || spec_is_alpha(b)
}

/// Whether a byte is skipped between tokens.
pub open spec fn spec_is_space(b: u8) -> bool {
    b == (' ' as u8) || b == ('\n' as u8) || b == ('\r' as u8) || b == ('\t' as u8)
}

fn is_digit(b: u8) -> (r: bool)
    ensures
        r == spec_is_digit(b),
{
    ('0' as u8) <= b && b <= ('9' as u8)
}

fn is_alpha(b: u8) -> (r: bool)
    ensures
        r == spec_is_alpha(b),
{
    (('a' as u8) <= b && b <= ('z' as u8)) || (('A' as u8) <= b && b <= ('Z' as u8))
}

fn is_alnum(b: u8) -> (r: bool)
    ensures
        r == spec_is_alnum(b),
{
    is_digit(b) || is_alpha(b)
}

/// Whether every byte of `s` is a digit.
pub open spec fn all_digits(s: Seq<u8>) -> bool {
    forall|i: int| 0 <= i < s.len() ==> spec_is_digit(#[trigger] s[i])
}

/// Whether every byte of `s` is the digit zero.
pub open spec fn all_zeros(s: Seq<u8>) -> bool {
    forall|i: int| 0 <= i < s.len() ==> #[trigger] s[i] == ('0' as u8)
}

/// The value of a digit string read in decimal.
pub open spec fn digits_value(s: Seq<u8>) -> int
    decreases s,
{
    if s.len() == 0 {
        0
    } else {
        digits_value(s.drop_last()) * 10 + (s.last() - ('0' as u8))
    }
}

/// The index of the first `.` in `c` at or after `i`, or the length
/// when there is none.
pub open spec fn first_dot(c: Seq<u8>, i: int) -> int
    decreases c.len() - i,
{
    if !(0 <= i < c.len()) {
        c.len() as int
    } else if c[i] == ('.' as u8) {
        i
    } else {
        first_dot(c, i + 1)
    }
}

/// The number a collected literal spells: digits, optionally followed
/// by a dot and further digits.  The value must be integral (any
/// fraction digits must be zero) and fit the number type; otherwise
/// the literal is unparsable.
pub open spec fn num_value(c: Seq<u8>) -> Option<i64> {
    let k = first_dot(c, 0);
    let ip = c.take(k);
    let fp = if k == c.len() {
        Seq::<u8>::empty()
    } else {
        c.skip(k + 1)
    };
    if ip.len() == 0 || !all_digits(ip) || !all_digits(fp) || !all_zeros(fp) {
        None
    } else if digits_value(ip) > i64::MAX {
        None
    } else {
        Some(digits_value(ip) as i64)
    }
}

/// Positions up to the first dot hold no dot, and the first dot, when
/// inside the sequence, is a dot.
proof fn lemma_first_dot(c: Seq<u8>, i: int)
    requires
        0 <= i <= c.len(),
    ensures
        i <= first_dot(c, i) <= c.len(),
        forall|j: int| i <= j < first_dot(c, i) ==> c[j] != ('.' as u8),
        first_dot(c, i) < c.len() ==> c[first_dot(c, i)] == ('.' as u8),
    decreases c.len() - i,
{
    if i < c.len() && c[i] != ('.' as u8) {
        lemma_first_dot(c, i + 1);
    }
}

/// A digit string's value does not shrink when digits are appended.
proof fn lemma_digits_value_bounds(s: Seq<u8>)
    requires
        all_digits(s),
    ensures
        digits_value(s) >= 0,
        s.len() > 0 ==> digits_value(s) >= digits_value(s.drop_last()),
    decreases s,
{
    if s.len() > 0 {
        assert(all_digits(s.drop_last())) by {
            assert(forall|i: int| 0 <= i < s.len() - 1 ==> s.drop_last()[i] == s[i]);
        }
        lemma_digits_value_bounds(s.drop_last());
    }
}

/// A prefix of a digit string has at most its value.
proof fn lemma_digits_value_prefix(s: Seq<u8>, i: int)
    requires
        all_digits(s),
        0 <= i <= s.len(),
    ensures
        digits_value(s.take(i)) <= digits_value(s),
    decreases s.len() - i,
{
    if i < s.len() {
        lemma_digits_value_prefix(s, i + 1);
        assert(s.take(i + 1).drop_last() =~= s.take(i));
        assert(all_digits(s.take(i + 1))) by {
            assert(forall|j: int| 0 <= j < i + 1 ==> s.take(i + 1)[j] == s[j]);
        }
        lemma_digits_value_bounds(s.take(i + 1));
    } else {
        assert(s.take(i) =~= s);
    }
}

/// Reads the number a collected literal spells, if any.
fn parse_number(c: &Vec<u8>) -> (r: Option<i64>)
    ensures
        r == num_value(c@),
{
    let n = c.len();
    let ghost k = first_dot(c@, 0);
    let mut i: usize = 0;
    let mut acc: i64 = 0;
    // the integer part
    while i < n && is_digit(c[i])
        invariant
            0 <= i <= n,
            n == c@.len(),
            k == first_dot(c@, 0),
            forall|j: int| 0 <= j < i ==> spec_is_digit(#[trigger] c@[j]),
            acc == digits_value(c@.take(i as int)),
        decreases n - i,
    {
        proof {
            assert(c@.take(i as int + 1).drop_last() =~= c@.take(i as int));
            assert(c@.take(i as int + 1).last() == c@[i as int]);
            assert(all_digits(c@.take(i as int + 1)));
        }
        let d = c[i] - ('0' as u8);
        let next = match acc.checked_mul(10) {
            Some(m) => m.checked_add(d as i64),
            None => None,
        };
        match next {
            Some(v) => {
                acc = v;
            },
            None => {
                // the integer part alone is already too large
                proof {
                    lemma_first_dot(c@, 0);
                    if k <= i {
                        assert(c@[k] == ('.' as u8));
                        assert(spec_is_digit(c@[k]));
                        assert(false);
                    }
                    lemma_digits_value_bounds(c@.take(i as int));
                    assert(digits_value(c@.take(i as int + 1)) == acc * 10 + (c@[i as int]
                        - ('0' as u8)));
                    assert(digits_value(c@.take(i as int + 1)) > i64::MAX);
                    if num_value(c@) is Some {
                        let ip = c@.take(k);
                        assert(all_digits(ip));
                        lemma_digits_value_prefix(ip, i as int + 1);
                        assert(ip.take(i as int + 1) =~= c@.take(i as int + 1));
                        assert(false);
                    }
                }
                return None;
            },
        }
        i = i + 1;
    }
    // i now stands at the first byte that is no digit
    if i == 0 {
        // no digits at all
        proof {
            lemma_first_dot(c@, 0);
            if c@.len() > 0 && k > 0 {
                assert(c@.take(k)[0] == c@[0]);
            }
        }
        return None;
    }
    if i < n {
        if c[i] != ('.' as u8) {
            // a byte that is neither a digit nor a dot
            proof {
                lemma_first_dot(c@, 0);
                if k <= i {
                    assert(c@[k] == ('.' as u8));
                    assert(false);
                }
                assert(c@.take(k)[i as int] == c@[i as int]);
                assert(!all_digits(c@.take(k)));
            }
            return None;
        }
        // the fraction: every digit must be zero
        proof {
            lemma_first_dot(c@, 0);
            if k < i {
                assert(c@[k] == ('.' as u8));
                assert(false);
            }
            assert(k == i);
        }
        let mut j: usize = i + 1;
        while j < n
            invariant
                i + 1 <= j <= n,
                n == c@.len(),
                k == i,
                k == first_dot(c@, 0),
                forall|m: int| i + 1 <= m < j ==> c@[m] == ('0' as u8),
            decreases n - j,
        {
            if c[j] != ('0' as u8) {
                proof {
                    let fp = c@.skip(k + 1);
                    assert(fp[j - (k + 1)] == c@[j as int]);
                }
                return None;
            }
            j = j + 1;
        }
        proof {
            let fp = c@.skip(k + 1);
            assert(forall|m: int| 0 <= m < fp.len() ==> #[trigger] fp[m] == c@[m + (k + 1)]);
            assert(all_zeros(fp));
            assert(all_digits(fp));
            assert(c@.take(k) =~= c@.take(i as int));
        }
        Some(acc)
    } else {
        proof {
            lemma_first_dot(c@, 0);
            if k < c@.len() {
                assert(c@[k] == ('.' as u8));
                assert(false);
            }
            assert(c@.take(k) =~= c@.take(i as int));
        }
        Some(acc)
    }
}

/// The characters a byte string spells, byte for byte.
pub open spec fn chars_of(bs: Seq<u8>) -> Seq<char> {
    bs.map_values(|b: u8| b as char)
}

/// The line counter after reading one byte: a newline advances it.
pub open spec fn bump_line(line: u32, b: u8) -> u32 {
    if b == ('\n' as u8) {
        if line == u32::MAX {
            line
        } else {
            (line + 1) as u32
        }
    } else {
        line
    }
}

/// The index of the first newline in `c` at or after `i`, or the
/// length when there is none.
pub open spec fn first_nl(c: Seq<u8>, i: int) -> int
    decreases c.len() - i,
{
    if !(0 <= i < c.len()) {
        c.len() as int
    } else if c[i] == ('\n' as u8) {
        i
    } else {
        first_nl(c, i + 1)
    }
}

proof fn lemma_first_nl(c: Seq<u8>, i: int)
    requires
        0 <= i <= c.len(),
    ensures
        i <= first_nl(c, i) <= c.len(),
    decreases c.len() - i,
{
    if i < c.len() && c[i] != ('\n' as u8) {
        lemma_first_nl(c, i + 1);
    }
}

/// Where a number literal that starts at `pos` ends: the first later
/// position holding neither a digit nor a dot.
pub open spec fn num_end(c: Seq<u8>, pos: int) -> int
    decreases c.len() - pos,
{
    if 0 <= pos < c.len() && (spec_is_digit(c[pos]) || c[pos] == ('.' as u8)) {
        num_end(c, pos + 1)
    } else {
        pos
    }
}

proof fn lemma_num_end(c: Seq<u8>, pos: int)
    requires
        0 <= pos <= c.len(),
    ensures
        pos <= num_end(c, pos) <= c.len(),
    decreases c.len() - pos,
{
    if 0 <= pos < c.len() && (spec_is_digit(c[pos]) || c[pos] == ('.' as u8)) {
        lemma_num_end(c, pos + 1);
    }
}

/// Where an identifier that starts at `pos` ends: the first later
/// position holding no letter or digit.
pub open spec fn ident_end(c: Seq<u8>, pos: int) -> int
    decreases c.len() - pos,
{
    if 0 <= pos < c.len() && spec_is_alnum(c[pos]) {
        ident_end(c, pos + 1)
    } else {
        pos
    }
}

proof fn lemma_ident_end(c: Seq<u8>, pos: int)
    requires
        0 <= pos <= c.len(),
    ensures
        pos <= ident_end(c, pos) <= c.len(),
    decreases c.len() - pos,
{
    if 0 <= pos < c.len() && spec_is_alnum(c[pos]) {
        lemma_ident_end(c, pos + 1);
    }
}

/// What scanning the inside of a string literal yields: the contents
/// up to the closing quote, or an error at the end of input, with the
/// position and line after it.
pub struct StrScan {
    pub result: Result<Seq<char>, Seq<char>>,
    pub pos: int,
    pub line: u32,
}

/// Scans the inside of a string literal from `pos`: everything up to
/// the closing quote belongs to the string, newlines included.
pub open spec fn spec_string_token(bytes: Seq<u8>, pos: int, line: u32) -> StrScan
    decreases bytes.len() - pos,
{
    if !(0 <= pos < bytes.len()) {
        StrScan { result: Err("unterminated string"@), pos, line }
    } else {
        let b = bytes[pos];
        let l1 = bump_line(line, b);
        if b == ('"' as u8) {
            StrScan { result: Ok(Seq::<char>::empty()), pos: pos + 1, line: l1 }
        } else {
            let rest = spec_string_token(bytes, pos + 1, l1);
            match rest.result {
                Ok(s) => StrScan { result: Ok(seq![b as char] + s), pos: rest.pos, line: rest.line },
                Err(m) => rest,
            }
        }
    }
}

proof fn lemma_string_token_bounds(bytes: Seq<u8>, pos: int, line: u32)
    requires
        0 <= pos <= bytes.len(),
    ensures
        pos <= spec_string_token(bytes, pos, line).pos <= bytes.len(),
    decreases bytes.len() - pos,
{
    if 0 <= pos < bytes.len() && bytes[pos] != ('"' as u8) {
        lemma_string_token_bounds(bytes, pos + 1, bump_line(line, bytes[pos]));
    }
}

/// What one scanning step yields: a token, the end of input, or an
/// error, with the position and line after it.
pub struct ScanStep {
    pub item: Result<Option<TokenV>, Seq<char>>,
    pub pos: int,
    pub line: u32,
}

/// A token view with the given kind, lexeme and line.
pub open spec fn tok_v(t: TokenTypeV, lex: Seq<char>, line: u32) -> TokenV {
    TokenV { ttype: t, lexeme: lex, line_num: line }
}

/// Scans one token starting at `pos`: skips whitespace and comments,
/// then reads one character, peeking one more for the two-character
/// operators, and commits only on a confirmed match.
pub open spec fn spec_scan_token(bytes: Seq<u8>, pos: int, line: u32) -> ScanStep
    decreases bytes.len() - pos,
    via spec_scan_token_decreases
{
    if !(0 <= pos < bytes.len()) {
        ScanStep { item: Ok(None), pos, line }
    } else {
        let b = bytes[pos];
        let p1 = pos + 1;
        let l1 = bump_line(line, b);
        if b == (';' as u8) {
            ScanStep { item: Ok(Some(tok_v(TokenTypeV::Semicolon, ";"@, l1))), pos: p1, line: l1 }
        } else if b == (',' as u8) {
            ScanStep { item: Ok(Some(tok_v(TokenTypeV::Comma, ","@, l1))), pos: p1, line: l1 }
        } else if b == ('.' as u8) {
            ScanStep { item: Ok(Some(tok_v(TokenTypeV::Dot, "."@, l1))), pos: p1, line: l1 }
        } else if b == ('(' as u8) {
            ScanStep { item: Ok(Some(tok_v(TokenTypeV::LeftParen, "("@, l1))), pos: p1, line: l1 }
        } else if b == (')' as u8) {
            ScanStep { item: Ok(Some(tok_v(TokenTypeV::RightParen, ")"@, l1))), pos: p1, line: l1 }
        } else if b == ('{' as u8) {
            ScanStep { item: Ok(Some(tok_v(TokenTypeV::LeftBrace, "{"@, l1))), pos: p1, line: l1 }
        } else if b == ('}' as u8) {
            ScanStep { item: Ok(Some(tok_v(TokenTypeV::RightBrace, "}"@, l1))), pos: p1, line: l1 }
        } else if b == ('-' as u8) {
            ScanStep { item: Ok(Some(tok_v(TokenTypeV::Minus, "-"@, l1))), pos: p1, line: l1 }
        } else if b == ('+' as u8) {
            ScanStep { item: Ok(Some(tok_v(TokenTypeV::Plus, "+"@, l1))), pos: p1, line: l1 }
        } else if b == ('*' as u8) {
            ScanStep { item: Ok(Some(tok_v(TokenTypeV::Star, "*"@, l1))), pos: p1, line: l1 }
        } else if b == ('!' as u8) {
            if p1 < bytes.len() && bytes[p1] == ('=' as u8) {
                let l2 = bump_line(l1, bytes[p1]);
                ScanStep { item: Ok(Some(tok_v(TokenTypeV::BangEqual, "!="@, l2))), pos: pos + 2, line: l2 }
            } else {
                ScanStep { item: Ok(Some(tok_v(TokenTypeV::Bang, "!"@, l1))), pos: p1, line: l1 }
            }
        } else if b == ('=' as u8) {
            if p1 < bytes.len() && bytes[p1] == ('=' as u8) {
                let l2 = bump_line(l1, bytes[p1]);
                ScanStep { item: Ok(Some(tok_v(TokenTypeV::EqualEqual, "=="@, l2))), pos: pos + 2, line: l2 }
            } else {
                ScanStep { item: Ok(Some(tok_v(TokenTypeV::Equal, "="@, l1))), pos: p1, line: l1 }
            }
        } else if b == ('<' as u8) {
            if p1 < bytes.len() && bytes[p1] == ('=' as u8) {
                let l2 = bump_line(l1, bytes[p1]);
                ScanStep { item: Ok(Some(tok_v(TokenTypeV::LessEqual, "<="@, l2))), pos: pos + 2, line: l2 }
            } else {
                ScanStep { item: Ok(Some(tok_v(TokenTypeV::Less, "<"@, l1))), pos: p1, line: l1 }
            }
        } else if b == ('>' as u8) {
            if p1 < bytes.len() && bytes[p1] == ('=' as u8) {
                let l2 = bump_line(l1, bytes[p1]);
                ScanStep { item: Ok(Some(tok_v(TokenTypeV::GreaterEqual, ">="@, l2))), pos: pos + 2, line: l2 }
            } else {
                ScanStep { item: Ok(Some(tok_v(TokenTypeV::Greater, ">"@, l1))), pos: p1, line: l1 }
            }
        } else if b == ('/' as u8) {
            if p1 < bytes.len() && bytes[p1] == ('/' as u8) {
                // a comment runs to the end of the line
                let q = first_nl(bytes, pos + 2);
                if q == bytes.len() {
                    ScanStep { item: Ok(None), pos: bytes.len() as int, line }
                } else {
                    spec_scan_token(bytes, q + 1, bump_line(line, ('\n' as u8)))
                }
            } else {
                ScanStep { item: Ok(Some(tok_v(TokenTypeV::Slash, "/"@, l1))), pos: p1, line: l1 }
            }
        } else if b == ('"' as u8) {
            let s = spec_string_token(bytes, p1, l1);
            match s.result {
                Ok(content) => ScanStep {
                    item: Ok(Some(tok_v(TokenTypeV::Str(content), Seq::<char>::empty(), s.line))),
                    pos: s.pos,
                    line: s.line,
                },
                Err(m) => ScanStep { item: Err(m), pos: s.pos, line: s.line },
            }
        } else if spec_is_digit(b) {
            let e = num_end(bytes, p1);
            match num_value(bytes.subrange(pos, e)) {
                Some(v) => ScanStep {
                    item: Ok(Some(tok_v(TokenTypeV::Number(v), Seq::<char>::empty(), l1))),
                    pos: e,
                    line: l1,
                },
                None => ScanStep { item: Err("unparsable number"@), pos: e, line: l1 },
            }
        } else if spec_is_alpha(b) {
            let e = ident_end(bytes, p1);
            let content = chars_of(bytes.subrange(pos, e));
            let ttype = match spec_keyword(content) {
                Some(k) => k,
                None => TokenTypeV::Identifier,
            };
            ScanStep { item: Ok(Some(tok_v(ttype, content, l1))), pos: e, line: l1 }
        } else if spec_is_space(b) {
            spec_scan_token(bytes, p1, l1)
        } else {
            ScanStep {
                item: Err("error scanning token: "@ + seq![b as char]),
                pos: p1,
                line: l1,
            }
        }
    }
}

#[via_fn]
proof fn spec_scan_token_decreases(bytes: Seq<u8>, pos: int, line: u32) {
    if 0 <= pos < bytes.len() {
        if bytes[pos] == ('/' as u8) && pos + 1 < bytes.len() && bytes[pos + 1] == ('/' as u8) {
            lemma_first_nl(bytes, pos + 2);
        }
    }
}

/// A scanning step never moves backward, stays inside the input, and
/// moves strictly forward whenever it yields a token; it reaches the
/// end of the input exactly when it yields no token.
pub proof fn lemma_scan_token_progress(bytes: Seq<u8>, pos: int, line: u32)
    requires
        0 <= pos <= bytes.len(),
    ensures
        ({
            let t = spec_scan_token(bytes, pos, line);
            pos <= t.pos <= bytes.len() && (t.item matches Ok(o) ==> (o is Some ==> t.pos > pos) && (
            o is None ==> t.pos == bytes.len()))
        }),
    decreases bytes.len() - pos,
{
    if 0 <= pos < bytes.len() {
        let b = bytes[pos];
        let p1 = pos + 1;
        let l1 = bump_line(line, b);
        if b == ('/' as u8) && p1 < bytes.len() && bytes[p1] == ('/' as u8) {
            lemma_first_nl(bytes, pos + 2);
            let q = first_nl(bytes, pos + 2);
            if q < bytes.len() {
                lemma_scan_token_progress(bytes, q + 1, bump_line(line, ('\n' as u8)));
            }
        } else if b == ('"' as u8) {
            lemma_string_token_bounds(bytes, p1, l1);
        } else if b == (';' as u8) || b == (',' as u8) || b == ('.' as u8) || b == ('(' as u8) || b
            == (')' as u8) || b == ('{' as u8) || b == ('}' as u8) || b == ('-' as u8) || b == (
        '+' as u8) || b == ('*' as u8) || b == ('!' as u8) || b == ('=' as u8) || b == ('<' as u8)
            || b == ('>' as u8) || b == ('/' as u8) {
        } else if spec_is_digit(b) {
            lemma_num_end(bytes, p1);
        } else if spec_is_alpha(b) {
            lemma_ident_end(bytes, p1);
        } else if spec_is_space(b) {
            lemma_scan_token_progress(bytes, p1, l1);
        }
    }
}

/// The token views of scanned tokens.
pub open spec fn token_views(ts: Seq<Token>) -> Seq<TokenV> {
    ts.map_values(|t: Token| t@)
}

/// Scans the whole input from `pos`: the tokens in order, closed by a
/// synthetic end-of-file token, or the first error.
pub open spec fn spec_scan_all(bytes: Seq<u8>, pos: int, line: u32) -> Result<Seq<TokenV>, Seq<char>>
    decreases bytes.len() - pos,
{
    let t = spec_scan_token(bytes, pos, line);
    match t.item {
        Err(m) => Err(m),
        Ok(None) => Ok(seq![tok_v(TokenTypeV::Eof, Seq::<char>::empty(), t.line)]),
        Ok(Some(tok)) => if pos < t.pos <= bytes.len() {
            match spec_scan_all(bytes, t.pos, t.line) {
                Ok(rest) => Ok(seq![tok] + rest),
                Err(m) => Err(m),
            }
        } else {
            Ok(seq![tok])
        },
    }
}

/// The scanner: a cursor over the byte source and the current line.
pub struct Scanner {
    pub contents: Vec<u8>,
    pub current: usize,
    pub line: u32,
    pub end_reached: bool,
}

impl Scanner {
    /// A scanner at the start of the given source, on line one.
    pub fn build_scanner(reader: Vec<u8>) -> (r: Scanner)
        ensures
            r.contents@ == reader@,
            r.current == 0,
            r.line == 1,
            !r.end_reached,
    {
        Scanner { contents: reader, current: 0, line: 1, end_reached: false }
    }

    /// Reads one byte and moves past it, counting lines.
    fn advance(&mut self) -> (r: Option<u8>)
        requires
            old(self).current <= old(self).contents@.len(),
        ensures
            final(self).contents@ == old(self).contents@,
            final(self).end_reached == old(self).end_reached,
            old(self).current < old(self).contents@.len() ==> ({
                &&& r == Some(old(self).contents@[old(self).current as int])
                &&& final(self).current == old(self).current + 1
                &&& final(self).line == bump_line(old(self).line, old(self).contents@[old(self).current as int])
            }),
            old(self).current == old(self).contents@.len() ==> r is None && *final(self) == *old(self),
    {
        if self.current < self.contents.len() {
            let b = self.contents[self.current];
            self.current = self.current + 1;
            if b == ('\n' as u8) {
                if self.line < u32::MAX {
                    self.line = self.line + 1;
                }
            }
            Some(b)
        } else {
            None
        }
    }

    /// Looks at the next byte without committing to it.
    fn peek(&self) -> (r: Option<u8>)
        ensures
            self.current < self.contents@.len() ==> r == Some(self.contents@[self.current as int]),
            self.current >= self.contents@.len() ==> r is None,
    {
        if self.current < self.contents.len() {
            Some(self.contents[self.current])
        } else {
            None
        }
    }

    /// Whether the next byte is the given one.
    pub fn match_curr(&self, value: u8) -> (r: bool)
        ensures
            r == (self.current < self.contents@.len() && self.contents@[self.current as int] == value),
    {
        match self.peek() {
            Some(b) => b == value,
            None => false,
        }
    }

    /// Skips a comment: everything up to and including the next
    /// newline; reports whether the input ended first.
    fn skip_comment(&mut self) -> (r: bool)
        requires
            old(self).current <= old(self).contents@.len(),
        ensures
            final(self).contents@ == old(self).contents@,
            final(self).end_reached == old(self).end_reached,
            ({
                let q = first_nl(old(self).contents@, old(self).current as int);
                if q == old(self).contents@.len() {
                    r && final(self).current == old(self).contents@.len() && final(self).line
                        == old(self).line
                } else {
                    !r && final(self).current == q + 1 && final(self).line == bump_line(
                        old(self).line,
                        ('\n' as u8),
                    )
                }
            }),
        decreases old(self).contents@.len() - old(self).current,
    {
        match self.advance() {
            None => true,
            Some(b) => {
                if b == ('\n' as u8) {
                    false
                } else {
                    self.skip_comment()
                }
            },
        }
    }

    /// Collects the inside of a string literal up to the closing
    /// quote; an input that ends first is an error.
    pub fn extract_string_token(&mut self) -> (r: Result<String, String>)
        requires
            old(self).current <= old(self).contents@.len(),
        ensures
            final(self).contents@ == old(self).contents@,
            final(self).end_reached == old(self).end_reached,
            ({
                let s = spec_string_token(old(self).contents@, old(self).current as int, old(self).line);
                final(self).current == s.pos && final(self).line == s.line && (match r {
                    Ok(content) => s.result == Ok::<Seq<char>, Seq<char>>(content@),
                    Err(m) => s.result == Err::<Seq<char>, Seq<char>>(m@),
                })
            }),
        decreases old(self).contents@.len() - old(self).current,
    {
        match self.advance() {
            None => Err(String::from_str("unterminated string")),
            Some(b) => {
                if b == ('"' as u8) {
                    Ok(String::new())
                } else {
                    match self.extract_string_token() {
                        Ok(rest) => {
                            let mut s = String::new();
                            push_char(&mut s, b as char);
                            s.append(rest.as_str());
                            proof {
                                assert(s@ =~= seq![b as char] + rest@);
                            }
                            Ok(s)
                        },
                        Err(m) => Err(m),
                    }
                }
            },
        }
    }

    /// Collects the remaining bytes of a number literal: digits and
    /// dots.
    fn collect_number(&mut self, content: &mut Vec<u8>)
        requires
            old(self).current <= old(self).contents@.len(),
        ensures
            final(self).contents@ == old(self).contents@,
            final(self).end_reached == old(self).end_reached,
            final(self).line == old(self).line,
            final(self).current == num_end(old(self).contents@, old(self).current as int),
            final(content)@ == old(content)@ + old(self).contents@.subrange(
                old(self).current as int,
                num_end(old(self).contents@, old(self).current as int),
            ),
        decreases old(self).contents@.len() - old(self).current,
    {
        let more = match self.peek() {
            Some(b) => is_digit(b) || b == ('.' as u8),
            None => false,
        };
        if more {
            let b = match self.advance() {
                Some(b) => b,
                None => 0,
            };
            content.push(b);
            let ghost mid = self.current as int;
            self.collect_number(content);
            proof {
                let bs = old(self).contents@;
                let p0 = old(self).current as int;
                let e = num_end(bs, p0);
                lemma_num_end(bs, mid);
                assert(e == num_end(bs, mid));
                assert(bs.subrange(p0, e) =~= seq![b] + bs.subrange(mid, e));
                assert(final(content)@ =~= old(content)@ + bs.subrange(p0, e));
            }
        } else {
            proof {
                assert(old(self).contents@.subrange(old(self).current as int, old(self).current as int)
                    =~= Seq::<u8>::empty());
                assert(final(content)@ =~= old(content)@);
            }
        }
    }

    /// Reads the rest of a number literal whose first digit was just
    /// consumed, and decodes its value.
    pub fn extract_number(&mut self, start: u8) -> (r: Result<i64, String>)
        requires
            old(self).current <= old(self).contents@.len(),
        ensures
            final(self).contents@ == old(self).contents@,
            final(self).end_reached == old(self).end_reached,
            final(self).line == old(self).line,
            final(self).current == num_end(old(self).contents@, old(self).current as int),
            ({
                let content = seq![start] + old(self).contents@.subrange(
                    old(self).current as int,
                    num_end(old(self).contents@, old(self).current as int),
                );
                match r {
                    Ok(v) => num_value(content) == Some(v),
                    Err(m) => num_value(content) is None && m@ == "unparsable number"@,
                }
            }),
    {
        let mut content: Vec<u8> = Vec::new();
        content.push(start);
        self.collect_number(&mut content);
        match parse_number(&content) {
            Some(v) => Ok(v),
            None => Err(String::from_str("unparsable number")),
        }
    }

    /// Collects the remaining characters of an identifier.
    fn collect_ident(&mut self, content: &mut String)
        requires
            old(self).current <= old(self).contents@.len(),
        ensures
            final(self).contents@ == old(self).contents@,
            final(self).end_reached == old(self).end_reached,
            final(self).line == old(self).line,
            final(self).current == ident_end(old(self).contents@, old(self).current as int),
            final(content)@ == old(content)@ + chars_of(old(self).contents@.subrange(
                old(self).current as int,
                ident_end(old(self).contents@, old(self).current as int),
            )),
        decreases old(self).contents@.len() - old(self).current,
    {
        let more = match self.peek() {
            Some(b) => is_alnum(b),
            None => false,
        };
        if more {
            let b = match self.advance() {
                Some(b) => b,
                None => 0,
            };
            push_char(content, b as char);
            let ghost mid = self.current as int;
            self.collect_ident(content);
            proof {
                let bs = old(self).contents@;
                let p0 = old(self).current as int;
                let e = ident_end(bs, p0);
                lemma_ident_end(bs, mid);
                assert(e == ident_end(bs, mid));
                assert(bs.subrange(p0, e) =~= seq![b] + bs.subrange(mid, e));
                assert(chars_of(bs.subrange(p0, e)) =~= seq![b as char] + chars_of(
                    bs.subrange(mid, e),
                ));
                assert(final(content)@ =~= old(content)@ + chars_of(bs.subrange(p0, e)));
            }
        } else {
            proof {
                assert(chars_of(old(self).contents@.subrange(
                    old(self).current as int,
                    old(self).current as int,
                )) =~= Seq::<char>::empty());
                assert(final(content)@ =~= old(content)@);
            }
        }
    }

    /// Reads the rest of an identifier whose first letter was just
    /// consumed, and looks it up among the reserved words.
    pub fn extract_identifier(&mut self, start: u8) -> (r: Result<Token, String>)
        requires
            old(self).current <= old(self).contents@.len(),
        ensures
            final(self).contents@ == old(self).contents@,
            final(self).end_reached == old(self).end_reached,
            final(self).line == old(self).line,
            final(self).current == ident_end(old(self).contents@, old(self).current as int),
            ({
                let content = seq![start as char] + chars_of(old(self).contents@.subrange(
                    old(self).current as int,
                    ident_end(old(self).contents@, old(self).current as int),
                ));
                match r {
                    Ok(t) => t@ == tok_v(
                        match spec_keyword(content) {
                            Some(k) => k,
                            None => TokenTypeV::Identifier,
                        },
                        content,
                        final(self).line,
                    ),
                    Err(_) => false,
                }
            }),
    {
        let mut content = String::new();
        push_char(&mut content, start as char);
        self.collect_ident(&mut content);
        let ttype = match get_reserved_keyword(&content) {
            Some(k) => k,
            None => TokenType::Identifier,
        };
        Ok(Token { ttype, lexeme: content, line_num: self.line })
    }

    /// Scans one token: `Ok(None)` at the end of the input.
    pub fn scan_token(&mut self) -> (r: Result<Option<Token>, String>)
        requires
            old(self).current <= old(self).contents@.len(),
        ensures
            final(self).contents@ == old(self).contents@,
            final(self).end_reached == old(self).end_reached,
            final(self).current <= final(self).contents@.len(),
            ({
                let t = spec_scan_token(old(self).contents@, old(self).current as int, old(self).line);
                final(self).current == t.pos && final(self).line == t.line && (match r {
                    Ok(None) => t.item == Ok::<Option<TokenV>, Seq<char>>(None),
                    Ok(Some(tok)) => t.item == Ok::<Option<TokenV>, Seq<char>>(Some(tok@)),
                    Err(m) => t.item == Err::<Option<TokenV>, Seq<char>>(m@),
                })
            }),
        decreases old(self).contents@.len() - old(self).current,
    {
        proof {
            lemma_scan_token_progress(old(self).contents@, old(self).current as int, old(self).line);
        }
        let next_char = self.advance();
        let b = match next_char {
            None => {
                return Ok(None);
            },
            Some(b) => b,
        };
        let line_now = self.line;
        if b == (';' as u8) {
            Ok(Some(Token { ttype: TokenType::Semicolon, lexeme: String::from_str(";"), line_num: line_now }))
        } else if b == (',' as u8) {
            Ok(Some(Token { ttype: TokenType::Comma, lexeme: String::from_str(","), line_num: line_now }))
        } else if b == ('.' as u8) {
            Ok(Some(Token { ttype: TokenType::Dot, lexeme: String::from_str("."), line_num: line_now }))
        } else if b == ('(' as u8) {
            Ok(Some(Token { ttype: TokenType::LeftParen, lexeme: String::from_str("("), line_num: line_now }))
        } else if b == (')' as u8) {
            Ok(Some(Token { ttype: TokenType::RightParen, lexeme: String::from_str(")"), line_num: line_now }))
        } else if b == ('{' as u8) {
            Ok(Some(Token { ttype: TokenType::LeftBrace, lexeme: String::from_str("{"), line_num: line_now }))
        } else if b == ('}' as u8) {
            Ok(Some(Token { ttype: TokenType::RightBrace, lexeme: String::from_str("}"), line_num: line_now }))
        } else if b == ('-' as u8) {
            Ok(Some(Token { ttype: TokenType::Minus, lexeme: String::from_str("-"), line_num: line_now }))
        } else if b == ('+' as u8) {
            Ok(Some(Token { ttype: TokenType::Plus, lexeme: String::from_str("+"), line_num: line_now }))
        } else if b == ('*' as u8) {
            Ok(Some(Token { ttype: TokenType::Star, lexeme: String::from_str("*"), line_num: line_now }))
        } else if b == ('!' as u8) {
            if self.match_curr('=' as u8) {
                let _ = self.advance();
                Ok(Some(Token { ttype: TokenType::BangEqual, lexeme: String::from_str("!="), line_num: self.line }))
            } else {
                Ok(Some(Token { ttype: TokenType::Bang, lexeme: String::from_str("!"), line_num: line_now }))
            }
        } else if b == ('=' as u8) {
            if self.match_curr('=' as u8) {
                let _ = self.advance();
                Ok(Some(Token { ttype: TokenType::EqualEqual, lexeme: String::from_str("=="), line_num: self.line }))
            } else {
                Ok(Some(Token { ttype: TokenType::Equal, lexeme: String::from_str("="), line_num: line_now }))
            }
        } else if b == ('<' as u8) {
            if self.match_curr('=' as u8) {
                let _ = self.advance();
                Ok(Some(Token { ttype: TokenType::LessEqual, lexeme: String::from_str("<="), line_num: self.line }))
            } else {
                Ok(Some(Token { ttype: TokenType::Less, lexeme: String::from_str("<"), line_num: line_now }))
            }
        } else if b == ('>' as u8) {
            if self.match_curr('=' as u8) {
                let _ = self.advance();
                Ok(Some(Token { ttype: TokenType::GreaterEqual, lexeme: String::from_str(">="), line_num: self.line }))
            } else {
                Ok(Some(Token { ttype: TokenType::Greater, lexeme: String::from_str(">"), line_num: line_now }))
            }
        } else if b == ('/' as u8) {
            if self.match_curr('/' as u8) {
                proof {
                    lemma_first_nl(old(self).contents@, old(self).current as int + 2);
                }
                if self.skip_comment() {
                    Ok(None)
                } else {
                    self.scan_token()
                }
            } else {
                Ok(Some(Token { ttype: TokenType::Slash, lexeme: String::from_str("/"), line_num: line_now }))
            }
        } else if b == ('"' as u8) {
            match self.extract_string_token() {
                Ok(content) => Ok(Some(Token { ttype: TokenType::Str(content), lexeme: String::new(), line_num: self.line })),
                Err(m) => Err(m),
            }
        } else if is_digit(b) {
            proof {
                lemma_num_end(old(self).contents@, old(self).current as int + 1);
                assert(seq![b] + old(self).contents@.subrange(
                    old(self).current as int + 1,
                    num_end(old(self).contents@, old(self).current as int + 1),
                ) =~= old(self).contents@.subrange(
                    old(self).current as int,
                    num_end(old(self).contents@, old(self).current as int + 1),
                ));
            }
            match self.extract_number(b) {
                Ok(v) => Ok(Some(Token { ttype: TokenType::Number(v), lexeme: String::new(), line_num: self.line })),
                Err(m) => Err(m),
            }
        } else if is_alpha(b) {
            proof {
                lemma_ident_end(old(self).contents@, old(self).current as int + 1);
                assert(seq![b as char] + chars_of(old(self).contents@.subrange(
                    old(self).current as int + 1,
                    ident_end(old(self).contents@, old(self).current as int + 1),
                )) =~= chars_of(old(self).contents@.subrange(
                    old(self).current as int,
                    ident_end(old(self).contents@, old(self).current as int + 1),
                )));
            }
            match self.extract_identifier(b) {
                Ok(t) => Ok(Some(t)),
                Err(m) => Err(m),
            }
        } else if b == (' ' as u8) || b == ('\n' as u8) || b == ('\r' as u8) || b == ('\t' as u8) {
            self.scan_token()
        } else {
            let mut m = String::from_str("error scanning token: ");
            push_char(&mut m, b as char);
            proof {
                assert(m@ =~= "error scanning token: "@ + seq![b as char]);
            }
            Err(m)
        }
    }

    /// Scans the next item of the token stream: the tokens in order,
    /// then one synthetic end-of-file token, then nothing.
    pub fn next(&mut self) -> (r: Option<Result<Token, String>>)
        requires
            old(self).current <= old(self).contents@.len(),
        ensures
            final(self).contents@ == old(self).contents@,
            final(self).current <= final(self).contents@.len(),
            old(self).end_reached ==> r is None && *final(self) == *old(self),
            !old(self).end_reached ==> ({
                let t = spec_scan_token(old(self).contents@, old(self).current as int, old(self).line);
                final(self).current == t.pos && final(self).line == t.line && (match r {
                    Some(Ok(tok)) => (match t.item {
                        Ok(None) => tok@ == tok_v(TokenTypeV::Eof, Seq::<char>::empty(), t.line)
                            && final(self).end_reached,
                        Ok(Some(tv)) => tok@ == tv && !final(self).end_reached,
                        Err(_) => false,
                    }),
                    Some(Err(m)) => t.item == Err::<Option<TokenV>, Seq<char>>(m@)
                        && !final(self).end_reached,
                    None => false,
                })
            }),
    {
        if self.end_reached {
            return None;
        }
        match self.scan_token() {
            Ok(None) => {
                self.end_reached = true;
                Some(Ok(Token { ttype: TokenType::Eof, lexeme: String::new(), line_num: self.line }))
            },
            Ok(Some(t)) => Some(Ok(t)),
            Err(m) => Some(Err(m)),
        }
    }

    /// Scans the whole remaining input: every token in order, closed
    /// by the end-of-file token, or the first error.
    pub fn scan_all(&mut self) -> (r: Result<Vec<Token>, String>)
        requires
            old(self).current <= old(self).contents@.len(),
        ensures
            ({
                let all = spec_scan_all(old(self).contents@, old(self).current as int, old(self).line);
                match r {
                    Ok(ts) => all == Ok::<Seq<TokenV>, Seq<char>>(token_views(ts@)),
                    Err(m) => all == Err::<Seq<TokenV>, Seq<char>>(m@),
                }
            }),
        decreases old(self).contents@.len() - old(self).current,
    {
        proof {
            lemma_scan_token_progress(old(self).contents@, old(self).current as int, old(self).line);
        }
        match self.scan_token() {
            Err(m) => Err(m),
            Ok(None) => {
                let mut ts: Vec<Token> = Vec::new();
                ts.push(Token { ttype: TokenType::Eof, lexeme: String::new(), line_num: self.line });
                proof {
                    assert(token_views(ts@) =~= seq![
                        tok_v(TokenTypeV::Eof, Seq::<char>::empty(), self.line),
                    ]);
                }
                Ok(ts)
            },
            Ok(Some(t)) => {
                match self.scan_all() {
                    Ok(mut rest) => {
                        let ghost tail = rest@;
                        rest.insert(0, t);
                        proof {
                            assert(token_views(rest@) =~= seq![t@] + token_views(tail));
                        }
                        Ok(rest)
                    },
                    Err(m) => Err(m),
                }
            },
        }
    }
}

} // verus!

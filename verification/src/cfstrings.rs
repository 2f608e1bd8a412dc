//! Verified text helpers shared by both code generators: character search,
//! string equality, joining, decimal rendering, and the escaping of string
//! interpolation fragments into the target algebra's safe constants.
use vstd::prelude::*;
use vstd::string::StrSliceExecFns;
use vstd::string::StringExecFns;

verus! {

/// Character-wise equality of two string slices.
pub fn str_eq(a: &str, b: &str) -> (r: bool)
    ensures
        r == (a@ == b@),
{
    let alen = a.unicode_len();
    let blen = b.unicode_len();
    if alen != blen {
        assert(a@ != b@) by {
            assert(a@.len() != b@.len());
        }
        return false;
    }
    let mut i: usize = 0;
    while i < alen
        invariant
            alen == a@.len(),
            blen == b@.len(),
            alen == blen,
            i <= alen,
            forall|j: int| 0 <= j < i ==> a@[j] == b@[j],
        decreases alen - i,
    {
        if a.get_char(i) != b.get_char(i) {
            return false;
        }
        i = i + 1;
    }
    assert(a@ =~= b@);
    true
}

/// Does the rendered text contain the character `c`?
pub fn contains_char(s: &str, c: char) -> (r: bool)
    ensures
        r == s@.contains(c),
{
    let len = s.unicode_len();
    let mut i: usize = 0;
    while i < len
        invariant
            len == s@.len(),
            i <= len,
            forall|j: int| 0 <= j < i ==> s@[j] != c,
        decreases len - i,
    {
        if s.get_char(i) == c {
            assert(s@.contains(c));
            return true;
        }
        i = i + 1;
    }
    assert(!s@.contains(c)) by {
        if s@.contains(c) {
            let j = choose|j: int| 0 <= j < s@.len() && s@[j] == c;
            assert(s@[j] != c);
        }
    }
    false
}

/// The parts joined with `sep` between consecutive parts.
pub open spec fn spec_join(parts: Seq<Seq<char>>, sep: Seq<char>) -> Seq<char>
    decreases parts.len(),
{
    if parts.len() == 0 {
        Seq::empty()
    } else if parts.len() == 1 {
        parts[0]
    } else {
        spec_join(parts.drop_last(), sep) + sep + parts.last()
    }
}

/// Joins the parts with the separator, as `slice::join` does.
pub fn join(parts: &Vec<String>, sep: &str) -> (r: String)
    ensures
        r@ == spec_join(parts@.map_values(|p: String| p@), sep@),
{
    let ghost all = parts@.map_values(|p: String| p@);
    let mut r = String::new();
    let mut i: usize = 0;
    while i < parts.len()
        invariant
            all == parts@.map_values(|p: String| p@),
            i <= parts.len(),
            r@ == spec_join(all.take(i as int), sep@),
        decreases parts.len() - i,
    {
        if i > 0 {
            r.append(sep);
        }
        r.append(parts[i].as_str());
        proof {
            assert(all.take(i + 1).drop_last() =~= all.take(i as int));
            assert(all.take(i + 1).last() == all[i as int]);
        }
        i = i + 1;
    }
    proof {
        assert(all.take(parts@.len() as int) =~= all);
    }
    r
}

/// `s` wrapped in parentheses.
pub fn paren(s: &str) -> (r: String)
    ensures
        r@ == "("@ + s@ + ")"@,
{
    let mut r = String::from_str("(");
    r.append(s);
    r.append(")");
    r
}

/// `s` wrapped in double quotes.
pub fn quoted(s: &str) -> (r: String)
    ensures
        r@ == "\""@ + s@ + "\""@,
{
    let mut r = String::from_str("\"");
    r.append(s);
    r.append("\"");
    r
}

/// The decimal digit character for `d`, which must be below ten.
pub open spec fn spec_digit(d: int) -> char {
    if d == 0 {
        '0'
    } else if d == 1 {
        '1'
    } else if d == 2 {
        '2'
    } else if d == 3 {
        '3'
    } else if d == 4 {
        '4'
    } else if d == 5 {
        '5'
    } else if d == 6 {
        '6'
    } else if d == 7 {
        '7'
    } else if d == 8 {
        '8'
    } else {
        '9'
    }
}

/// The decimal rendering of a non-negative integer.
pub open spec fn spec_u64_str(n: int) -> Seq<char>
    decreases n,
{
    if n < 10 {
        seq![spec_digit(n)]
    } else {
        spec_u64_str(n / 10).push(spec_digit(n % 10))
    }
}

/// The decimal rendering of an integer, with a leading minus sign when negative.
pub open spec fn spec_i64_str(n: int) -> Seq<char> {
    if n < 0 {
        seq!['-'] + spec_u64_str(-n)
    } else {
        spec_u64_str(n)
    }
}

fn digit_char(d: u64) -> (c: char)
    requires
        d < 10,
    ensures
        c == spec_digit(d as int),
{
    match d {
        0 => '0',
        1 => '1',
        2 => '2',
        3 => '3',
        4 => '4',
        5 => '5',
        6 => '6',
        7 => '7',
        8 => '8',
        _ => '9',
    }
}

/// Renders `n` in decimal.
pub fn u64_to_string(n: u64) -> (r: String)
    ensures
        r@ == spec_u64_str(n as int),
    decreases n,
{
    if n < 10 {
        let mut r = String::new();
        let c = digit_char(n);
        push_char(&mut r, c);
        r
    } else {
        let mut r = u64_to_string(n / 10);
        let c = digit_char(n % 10);
        push_char(&mut r, c);
        r
    }
}

/// Renders `n` in decimal, with a minus sign when negative.
pub fn i64_to_string(n: i64) -> (r: String)
    ensures
        r@ == spec_i64_str(n as int),
{
    if n >= 0 {
        u64_to_string(n as u64)
    } else {
        let mag: u64 = if n == i64::MIN {
            9223372036854775808u64
        } else {
            (-n) as u64
        };
        let mut r = String::from_str("-");
        let tail = u64_to_string(mag);
        r.append(tail.as_str());
        proof {
            reveal_strlit("-");
            assert(mag as int == -(n as int));
            assert(r@ =~= seq!['-'] + spec_u64_str(-(n as int)));
        }
        r
    }
}

/// Appends one character.
pub fn push_char(s: &mut String, c: char) -> (u: ())
    ensures
        final(s)@ == old(s)@.push(c),
{
    let frag = char_str(c);
    s.append(frag.as_str());
    proof {
        assert(old(s)@ + seq![c] =~= old(s)@.push(c));
    }
}

/// A one-character string holding `c`.
fn char_str(c: char) -> (r: String)
    ensures
        r@ == seq![c],
{
    let mut v: Vec<char> = Vec::new();
    v.push(c);
    let s = chars_to_string(&v);
    proof {
        assert(v@ =~= seq![c]);
    }
    s
}

/// Relies on `String`'s `FromIterator<char>` impl in std: collecting
/// characters yields the string of exactly those characters in order.
#[verifier::external_body]
fn chars_to_string(v: &Vec<char>) -> (r: String)
    ensures
        r@ == v@,
{
    v.iter().collect()
}

/// Two characters equal up to ASCII case.
pub open spec fn spec_eqic_char(a: char, b: char) -> bool {
    a == b || (a as int == b as int + 32 && 65 <= b as int <= 90) || (b as int == a as int + 32
        && 65 <= a as int <= 90)
}

/// Two texts equal up to ASCII case.
pub open spec fn spec_eq_ignore_ascii_case(a: Seq<char>, b: Seq<char>) -> bool {
    a.len() == b.len() && forall|i: int| 0 <= i < a.len() ==> spec_eqic_char(a[i], b[i])
}

/// Compares two strings ignoring ASCII case.
pub fn eq_ignore_ascii_case(a: &str, b: &str) -> (r: bool)
    ensures
        r == spec_eq_ignore_ascii_case(a@, b@),
{
    let alen = a.unicode_len();
    let blen = b.unicode_len();
    if alen != blen {
        return false;
    }
    let mut i: usize = 0;
    while i < alen
        invariant
            alen == a@.len(),
            blen == b@.len(),
            alen == blen,
            i <= alen,
            forall|j: int| 0 <= j < i ==> spec_eqic_char(a@[j], b@[j]),
        decreases alen - i,
    {
        let ca = a.get_char(i);
        let cb = b.get_char(i);
        let ia = ca as u32;
        let ib = cb as u32;
        let same = ia == ib || (ia == ib + 32 && 65 <= ib && ib <= 90) || (ib == ia + 32 && 65
            <= ia && ia <= 90);
        if !same {
            assert(!spec_eqic_char(a@[i as int], b@[i as int]));
            return false;
        }
        i = i + 1;
    }
    true
}

/// The safe token standing for a literal dollar sign.
pub open spec fn tok_dollar() -> Seq<char> {
    seq!['$', '{', 'c', 'o', 'n', 's', 't', '.', 'd', 'o', 'l', 'l', 'a', 'r', '}']
}

/// The built-in constant standing for the newline escape sequence.
pub open spec fn tok_n() -> Seq<char> {
    seq!['$', '{', 'c', 'o', 'n', 's', 't', '.', 'n', '}']
}

/// The built-in constant standing for the carriage-return escape sequence.
pub open spec fn tok_r() -> Seq<char> {
    seq!['$', '{', 'c', 'o', 'n', 's', 't', '.', 'r', '}']
}

/// The built-in constant standing for the tab escape sequence.
pub open spec fn tok_t() -> Seq<char> {
    seq!['$', '{', 'c', 'o', 'n', 's', 't', '.', 't', '}']
}

/// Escaping of one static interpolation fragment, in a single left-to-right
/// pass: a backslash is escaped where it is seen (so a backslash followed by
/// a quote cannot be mistaken for an escaped quote), then a quote, then a
/// literal dollar sign; the two-character escape sequences for newline,
/// carriage return and tab become the algebra's built-in constants.
pub open spec fn spec_escape(s: Seq<char>) -> Seq<char>
    decreases s.len(),
{
    if s.len() == 0 {
        Seq::empty()
    } else if s.len() >= 2 && s[0] == '\\' && s[1] == 'n' {
        tok_n() + spec_escape(s.skip(2))
    } else if s.len() >= 2 && s[0] == '\\' && s[1] == 'r' {
        tok_r() + spec_escape(s.skip(2))
    } else if s.len() >= 2 && s[0] == '\\' && s[1] == 't' {
        tok_t() + spec_escape(s.skip(2))
    } else if s[0] == '\\' {
        seq!['\\', '\\'] + spec_escape(s.skip(1))
    } else if s[0] == '"' {
        seq!['\\', '"'] + spec_escape(s.skip(1))
    } else if s[0] == '$' {
        tok_dollar() + spec_escape(s.skip(1))
    } else {
        seq![s[0]] + spec_escape(s.skip(1))
    }
}

proof fn lemma_tok_views()
    ensures
        "${const.dollar}"@ == tok_dollar(),
        "${const.n}"@ == tok_n(),
        "${const.r}"@ == tok_r(),
        "${const.t}"@ == tok_t(),
        "\\\\"@ == seq!['\\', '\\'],
        "\\\""@ == seq!['\\', '"'],
{
    reveal_strlit("${const.dollar}");
    reveal_strlit("${const.n}");
    reveal_strlit("${const.r}");
    reveal_strlit("${const.t}");
    reveal_strlit("\\\\");
    reveal_strlit("\\\"");
    assert("${const.dollar}"@ =~= tok_dollar());
    assert("${const.n}"@ =~= tok_n());
    assert("${const.r}"@ =~= tok_r());
    assert("${const.t}"@ =~= tok_t());
    assert("\\\\"@ =~= seq!['\\', '\\']);
    assert("\\\""@ =~= seq!['\\', '"']);
}

/// Escapes one static interpolation fragment for the target algebra.
pub fn escape(s: &str) -> (r: String)
    ensures
        r@ == spec_escape(s@),
{
    let len = s.unicode_len();
    let mut r = String::new();
    proof {
        assert(s@.skip(0) =~= s@);
        assert(r@ + spec_escape(s@) =~= spec_escape(s@));
    }
    let mut i: usize = 0;
    while i < len
        invariant
            len == s@.len(),
            i <= len,
            r@ + spec_escape(s@.skip(i as int)) == spec_escape(s@),
        decreases len - i,
    {
        let ghost rest = s@.skip(i as int);
        proof {
            lemma_tok_views();
            assert(rest[0] == s@[i as int]);
        }
        let c = s.get_char(i);
        let mut step: usize = 1;
        if c == '\\' && i + 1 < len {
            let c2 = s.get_char(i + 1);
            proof {
                assert(rest[1] == s@[i as int + 1]);
            }
            if c2 == 'n' {
                r.append("${const.n}");
                step = 2;
            } else if c2 == 'r' {
                r.append("${const.r}");
                step = 2;
            } else if c2 == 't' {
                r.append("${const.t}");
                step = 2;
            } else {
                r.append("\\\\");
            }
        } else if c == '\\' {
            r.append("\\\\");
        } else if c == '"' {
            r.append("\\\"");
        } else if c == '$' {
            r.append("${const.dollar}");
        } else {
            let frag = s.substring_char(i, i + 1);
            proof {
                assert(frag@ =~= seq![s@[i as int]]);
            }
            r.append(frag);
        }
        proof {
            assert(s@.skip(i as int).skip(step as int) =~= s@.skip(i as int + step as int));
        }
        i = i + step;
    }
    proof {
        assert(s@.skip(len as int) =~= Seq::<char>::empty());
        assert(r@ + Seq::<char>::empty() =~= r@);
    }
    r
}

/// Decoding of an escaped fragment: the inverse reading of `spec_escape`'s
/// output, used to state that escaping never loses or conflates characters.
pub open spec fn spec_unescape(s: Seq<char>) -> Seq<char>
    decreases s.len(),
{
    if s.len() == 0 {
        Seq::empty()
    } else if s.len() >= 15 && s.subrange(0, 15) == tok_dollar() {
        seq!['$'] + spec_unescape(s.skip(15))
    } else if s.len() >= 10 && s.subrange(0, 10) == tok_n() {
        seq!['\\', 'n'] + spec_unescape(s.skip(10))
    } else if s.len() >= 10 && s.subrange(0, 10) == tok_r() {
        seq!['\\', 'r'] + spec_unescape(s.skip(10))
    } else if s.len() >= 10 && s.subrange(0, 10) == tok_t() {
        seq!['\\', 't'] + spec_unescape(s.skip(10))
    } else if s.len() >= 2 && s[0] == '\\' && s[1] == '\\' {
        seq!['\\'] + spec_unescape(s.skip(2))
    } else if s.len() >= 2 && s[0] == '\\' && s[1] == '"' {
        seq!['"'] + spec_unescape(s.skip(2))
    } else {
        seq![s[0]] + spec_unescape(s.skip(1))
    }
}

/// Escaping loses nothing: reading an escaped fragment back yields exactly
/// the original characters, for every input. In particular a literal
/// backslash followed by a quote is never mistaken for an escaped quote,
/// and a literal dollar sign is never mistaken for a variable reference.
pub proof fn lemma_escape_roundtrip(s: Seq<char>)
    ensures
        spec_unescape(spec_escape(s)) == s,
    decreases s.len(),
{
    if s.len() == 0 {
    } else if s.len() >= 2 && s[0] == '\\' && s[1] == 'n' {
        let e = spec_escape(s);
        lemma_escape_roundtrip(s.skip(2));
        assert(e.subrange(0, 10) =~= tok_n());
        if e.len() >= 15 {
            assert(e[8] == 'n');
            assert(e.subrange(0, 15) != tok_dollar()) by {
                if e.subrange(0, 15) == tok_dollar() {
                    assert(e.subrange(0, 15)[8] == 'd');
                }
            }
        }
        assert(e.skip(10) =~= spec_escape(s.skip(2)));
        assert(seq!['\\', 'n'] + s.skip(2) =~= s);
    } else if s.len() >= 2 && s[0] == '\\' && s[1] == 'r' {
        let e = spec_escape(s);
        lemma_escape_roundtrip(s.skip(2));
        assert(e.subrange(0, 10) =~= tok_r());
        if e.len() >= 15 {
            assert(e[8] == 'r');
            assert(e.subrange(0, 15) != tok_dollar()) by {
                if e.subrange(0, 15) == tok_dollar() {
                    assert(e.subrange(0, 15)[8] == 'd');
                }
            }
        }
        assert(e.subrange(0, 10) != tok_n()) by {
            if e.subrange(0, 10) == tok_n() {
                assert(e.subrange(0, 10)[8] == 'n');
            }
        }
        assert(e.skip(10) =~= spec_escape(s.skip(2)));
        assert(seq!['\\', 'r'] + s.skip(2) =~= s);
    } else if s.len() >= 2 && s[0] == '\\' && s[1] == 't' {
        let e = spec_escape(s);
        lemma_escape_roundtrip(s.skip(2));
        assert(e.subrange(0, 10) =~= tok_t());
        if e.len() >= 15 {
            assert(e[8] == 't');
            assert(e.subrange(0, 15) != tok_dollar()) by {
                if e.subrange(0, 15) == tok_dollar() {
                    assert(e.subrange(0, 15)[8] == 'd');
                }
            }
        }
        assert(e.subrange(0, 10) != tok_n()) by {
            if e.subrange(0, 10) == tok_n() {
                assert(e.subrange(0, 10)[8] == 'n');
            }
        }
        assert(e.subrange(0, 10) != tok_r()) by {
            if e.subrange(0, 10) == tok_r() {
                assert(e.subrange(0, 10)[8] == 'r');
            }
        }
        assert(e.skip(10) =~= spec_escape(s.skip(2)));
        assert(seq!['\\', 't'] + s.skip(2) =~= s);
    } else if s[0] == '\\' {
        let e = spec_escape(s);
        lemma_escape_roundtrip(s.skip(1));
        assert(e[0] == '\\');
        lemma_no_token_prefix(e);
        assert(e[1] == '\\');
        assert(e.skip(2) =~= spec_escape(s.skip(1)));
        assert(seq!['\\'] + s.skip(1) =~= s);
    } else if s[0] == '"' {
        let e = spec_escape(s);
        lemma_escape_roundtrip(s.skip(1));
        assert(e[0] == '\\');
        lemma_no_token_prefix(e);
        assert(e[1] == '"');
        assert(e.skip(2) =~= spec_escape(s.skip(1)));
        assert(seq!['"'] + s.skip(1) =~= s);
    } else if s[0] == '$' {
        let e = spec_escape(s);
        lemma_escape_roundtrip(s.skip(1));
        assert(e.subrange(0, 15) =~= tok_dollar());
        assert(e.skip(15) =~= spec_escape(s.skip(1)));
        assert(seq!['$'] + s.skip(1) =~= s);
    } else {
        let e = spec_escape(s);
        lemma_escape_roundtrip(s.skip(1));
        assert(e[0] == s[0]);
        lemma_no_token_prefix(e);
        assert(e.skip(1) =~= spec_escape(s.skip(1)));
        assert(seq![s[0]] + s.skip(1) =~= s);
    }
}

/// A sequence whose first character is not a dollar sign matches none of the
/// safe-token prefixes that `spec_unescape` looks for.
proof fn lemma_no_token_prefix(e: Seq<char>)
    requires
        e.len() > 0,
        e[0] != '$',
    ensures
        e.len() >= 15 ==> e.subrange(0, 15) != tok_dollar(),
        e.len() >= 10 ==> e.subrange(0, 10) != tok_n(),
        e.len() >= 10 ==> e.subrange(0, 10) != tok_r(),
        e.len() >= 10 ==> e.subrange(0, 10) != tok_t(),
{
    if e.len() >= 15 && e.subrange(0, 15) == tok_dollar() {
        assert(e.subrange(0, 15)[0] == '$');
    }
    if e.len() >= 10 && e.subrange(0, 10) == tok_n() {
        assert(e.subrange(0, 10)[0] == '$');
    }
    if e.len() >= 10 && e.subrange(0, 10) == tok_r() {
        assert(e.subrange(0, 10)[0] == '$');
    }
    if e.len() >= 10 && e.subrange(0, 10) == tok_t() {
        assert(e.subrange(0, 10)[0] == '$');
    }
}

} // verus!

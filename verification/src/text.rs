//! Text helpers shared by the rendering and evaluation code: decimal and
//! hexadecimal numerals, lexicographic comparison, and the few calls into
//! `regex` and the standard formatter that are taken on trust.

use vstd::prelude::*;

verus! {

/// What `regex` answers for a pattern and a text: `None` when the pattern does
/// not compile, otherwise whether the pattern matches somewhere in the text.
pub uninterp spec fn pattern_match(pattern: Seq<char>, text: Seq<char>) -> Option<bool>;

/// What the standard `Debug` formatter writes for a string: the text in double
/// quotes with its escapes.
pub uninterp spec fn quoted_text(text: Seq<char>) -> Seq<char>;

/// What the standard `Debug` formatter writes for a character: the character in
/// single quotes with its escapes.
pub uninterp spec fn quoted_char(c: char) -> Seq<char>;

/// Trusted: compiles `pattern` with `regex::Regex::new` and, when that
/// succeeds, asks `Regex::is_match` about `text`. The answer depends on the two
/// strings alone; the contract gives it the name `pattern_match` and claims
/// nothing else about it.
#[verifier::external_body]
pub(crate) fn match_pattern(pattern: &str, text: &str) -> (r: Option<bool>)
    ensures
        r == pattern_match(pattern@, text@),
{
    match regex::Regex::new(pattern) {
        Ok(re) => Some(re.is_match(text)),
        Err(_) => None,
    }
}

/// Trusted: the standard formatter's `{:?}` rendering of a string slice, named
/// `quoted_text`.
#[verifier::external_body]
pub(crate) fn quote_text(text: &str) -> (r: String)
    ensures
        r@ == quoted_text(text@),
{
    format!("{:?}", text)
}

/// Trusted: the standard formatter's `{:?}` rendering of a character, named
/// `quoted_char`.
#[verifier::external_body]
pub(crate) fn quote_char(c: char) -> (r: String)
    ensures
        r@ == quoted_char(c),
{
    format!("{:?}", c)
}

/// The character that writes the digit `d` in bases up to sixteen, lower case.
pub open spec fn digit_char(d: int) -> char {
    if d == 0 {
        '0'
    } else if d == 1 {
        '1'
    } else if d == 2 {
        '2'
    } else if d == 3 {
        '3'
    } else if d == 4 {
        '4'
    } else if d == 5 {
        '5'
    } else if d == 6 {
        '6'
    } else if d == 7 {
        '7'
    } else if d == 8 {
        '8'
    } else if d == 9 {
        '9'
    } else if d == 10 {
        'a'
    } else if d == 11 {
        'b'
    } else if d == 12 {
        'c'
    } else if d == 13 {
        'd'
    } else if d == 14 {
        'e'
    } else {
        'f'
    }
}

/// The decimal numeral of `n`, most significant digit first, without padding.
pub open spec fn decimal(n: nat) -> Seq<char>
    decreases n,
{
    if n < 10 {
        seq![digit_char(n as int)]
    } else {
        decimal(n / 10).push(digit_char((n % 10) as int))
    }
}

/// The decimal numeral of a signed number: a minus sign before the magnitude of
/// a negative one.
pub open spec fn signed_decimal(i: int) -> Seq<char> {
    if i < 0 {
        seq!['-'] + decimal((-i) as nat)
    } else {
        decimal(i as nat)
    }
}

/// The hexadecimal numeral of `n` in exactly `width` digits, lower case.
pub open spec fn hex_digits(n: nat, width: nat) -> Seq<char>
    decreases width,
{
    if width == 0 {
        Seq::<char>::empty()
    } else {
        hex_digits(n / 16, (width - 1) as nat).push(digit_char((n % 16) as int))
    }
}

/// `0x` followed by `width` hexadecimal digits of `n`.
pub open spec fn hex_literal(n: nat, width: nat) -> Seq<char> {
    seq!['0', 'x'] + hex_digits(n, width)
}

fn digit_text(d: u8) -> (r: &'static str)
    requires
        d < 16,
    ensures
        r@ == seq![digit_char(d as int)],
{
    proof {
        reveal_strlit("0");
        reveal_strlit("1");
        reveal_strlit("2");
        reveal_strlit("3");
        reveal_strlit("4");
        reveal_strlit("5");
        reveal_strlit("6");
        reveal_strlit("7");
        reveal_strlit("8");
        reveal_strlit("9");
        reveal_strlit("a");
        reveal_strlit("b");
        reveal_strlit("c");
        reveal_strlit("d");
        reveal_strlit("e");
        reveal_strlit("f");
    }
    let r = if d == 0 {
        "0"
    } else if d == 1 {
        "1"
    } else if d == 2 {
        "2"
    } else if d == 3 {
        "3"
    } else if d == 4 {
        "4"
    } else if d == 5 {
        "5"
    } else if d == 6 {
        "6"
    } else if d == 7 {
        "7"
    } else if d == 8 {
        "8"
    } else if d == 9 {
        "9"
    } else if d == 10 {
        "a"
    } else if d == 11 {
        "b"
    } else if d == 12 {
        "c"
    } else if d == 13 {
        "d"
    } else if d == 14 {
        "e"
    } else {
        "f"
    };
    assert(r@ =~= seq![digit_char(d as int)]);
    r
}

/// Writes `n` in decimal.
pub fn decimal_string(n: u64) -> (r: String)
    ensures
        r@ == decimal(n as nat),
    decreases n,
{
    if n < 10 {
        digit_text(n as u8).to_string()
    } else {
        let mut r = decimal_string(n / 10);
        r.append(digit_text((n % 10) as u8));
        assert(r@ =~= decimal(n as nat));
        r
    }
}

/// Writes a signed number in decimal.
pub fn signed_decimal_string(i: i64) -> (r: String)
    ensures
        r@ == signed_decimal(i as int),
{
    if i < 0 {
        let magnitude: u64 = ((-(i + 1)) as u64) + 1;
        let digits = decimal_string(magnitude);
        let mut r = "-".to_string();
        proof {
            reveal_strlit("-");
        }
        r.append(digits.as_str());
        assert(r@ =~= signed_decimal(i as int));
        r
    } else {
        decimal_string(i as u64)
    }
}

fn hex_digits_string(n: u64, width: u8) -> (r: String)
    ensures
        r@ == hex_digits(n as nat, width as nat),
    decreases width,
{
    if width == 0 {
        let r = String::new();
        assert(r@ =~= hex_digits(n as nat, 0));
        r
    } else {
        let mut r = hex_digits_string(n / 16, width - 1);
        r.append(digit_text((n % 16) as u8));
        assert(r@ =~= hex_digits(n as nat, width as nat));
        r
    }
}

/// Writes `0x` and then `n` in exactly `width` hexadecimal digits.
pub fn hex_literal_string(n: u64, width: u8) -> (r: String)
    ensures
        r@ == hex_literal(n as nat, width as nat),
{
    let digits = hex_digits_string(n, width);
    let mut r = "0x".to_string();
    proof {
        reveal_strlit("0x");
    }
    r.append(digits.as_str());
    assert(r@ =~= hex_literal(n as nat, width as nat));
    r
}

/// The characters of a string slice, in order.
pub fn chars_of(s: &str) -> (v: Vec<char>)
    ensures
        v@ == s@,
{
    let mut v: Vec<char> = Vec::new();
    for c in it: s.chars()
        invariant
            v@ == it.seq().take(it.index()),
    {
        v.push(c);
    }
    v
}

/// The texts `parts`, each two neighbours separated by `separator`.
pub open spec fn joined(parts: Seq<Seq<char>>, separator: Seq<char>) -> Seq<char>
    decreases parts.len(),
{
    if parts.len() == 0 {
        Seq::<char>::empty()
    } else if parts.len() == 1 {
        parts[0]
    } else {
        joined(parts.drop_last(), separator) + separator + parts.last()
    }
}

/// The texts of a sequence of strings.
pub open spec fn texts(parts: Seq<String>) -> Seq<Seq<char>> {
    parts.map_values(|s: String| s@)
}

/// Joins `parts`, separating each two neighbours by `separator`.
pub fn join_strings(parts: &Vec<String>, separator: &str) -> (r: String)
    ensures
        r@ == joined(texts(parts@), separator@),
{
    let mut r = String::new();
    let mut i: usize = 0;
    assert(texts(parts@).take(0) =~= Seq::<Seq<char>>::empty());
    while i < parts.len()
        invariant
            i <= parts.len(),
            r@ == joined(texts(parts@).take(i as int), separator@),
        decreases parts.len() - i,
    {
        let ghost before = texts(parts@).take(i as int);
        let ghost after = texts(parts@).take(i + 1);
        proof {
            assert(after.drop_last() =~= before);
            assert(after.last() == parts@[i as int]@);
        }
        if i > 0 {
            r.append(separator);
        } else {
            assert(r@ =~= Seq::<char>::empty());
            assert(after[0] == parts@[0]@);
        }
        r.append(parts[i].as_str());
        assert(r@ =~= joined(after, separator@));
        i += 1;
    }
    assert(texts(parts@).take(i as int) =~= texts(parts@));
    r
}

/// How one value stands to another under a total order.
#[derive(Clone, Copy, Debug, PartialEq, Eq, Structural)]
pub enum Rank {
    Less,
    Same,
    Greater,
}

/// Dictionary order on sequences of numbers: the first position that differs
/// decides, and a proper prefix comes first.
pub open spec fn lex_rank(a: Seq<int>, b: Seq<int>) -> Rank
    decreases a.len(),
{
    if a.len() == 0 {
        if b.len() == 0 {
            Rank::Same
        } else {
            Rank::Less
        }
    } else if b.len() == 0 {
        Rank::Greater
    } else if a[0] < b[0] {
        Rank::Less
    } else if a[0] > b[0] {
        Rank::Greater
    } else {
        lex_rank(a.drop_first(), b.drop_first())
    }
}

/// The code points of a text.
pub open spec fn char_codes(s: Seq<char>) -> Seq<int> {
    Seq::new(s.len(), |i: int| s[i] as int)
}

/// The numbers of a byte string.
pub open spec fn byte_codes(s: Seq<u8>) -> Seq<int> {
    Seq::new(s.len(), |i: int| s[i] as int)
}

/// Dictionary order is the same when a common first element is dropped.
pub proof fn lemma_lex_rank_skip(a: Seq<int>, b: Seq<int>, i: int)
    requires
        0 <= i <= a.len(),
        i <= b.len(),
        forall|k: int| 0 <= k < i ==> a[k] == b[k],
    ensures
        lex_rank(a, b) == lex_rank(a.skip(i), b.skip(i)),
    decreases i,
{
    if i == 0 {
        assert(a.skip(0) =~= a);
        assert(b.skip(0) =~= b);
    } else {
        lemma_lex_rank_skip(a, b, i - 1);
        let a1 = a.skip(i - 1);
        let b1 = b.skip(i - 1);
        assert(a1[0] == b1[0]);
        assert(a1.drop_first() =~= a.skip(i));
        assert(b1.drop_first() =~= b.skip(i));
    }
}

/// Two sequences rank the same exactly when they are equal.
pub proof fn lemma_lex_rank_same(a: Seq<int>, b: Seq<int>)
    ensures
        lex_rank(a, b) == Rank::Same <==> a == b,
    decreases a.len(),
{
    if a.len() == 0 || b.len() == 0 {
        if a.len() == 0 && b.len() == 0 {
            assert(a =~= b);
        }
    } else {
        lemma_lex_rank_same(a.drop_first(), b.drop_first());
        if a[0] == b[0] && a.drop_first() == b.drop_first() {
            assert(a =~= seq![a[0]] + a.drop_first());
            assert(b =~= seq![b[0]] + b.drop_first());
        }
    }
}

/// Compares two texts in dictionary order of their code points.
pub fn rank_chars(a: &Vec<char>, b: &Vec<char>) -> (r: Rank)
    ensures
        r == lex_rank(char_codes(a@), char_codes(b@)),
{
    let mut i: usize = 0;
    while i < a.len() && i < b.len()
        invariant
            i <= a.len(),
            i <= b.len(),
            forall|k: int| 0 <= k < i ==> a@[k] == b@[k],
        decreases a.len() - i,
    {
        let x = a[i];
        let y = b[i];
        proof {
            lemma_lex_rank_skip(char_codes(a@), char_codes(b@), i as int);
        }
        if x < y {
            return Rank::Less;
        }
        if x > y {
            return Rank::Greater;
        }
        i += 1;
    }
    proof {
        lemma_lex_rank_skip(char_codes(a@), char_codes(b@), i as int);
    }
    if i < b.len() {
        Rank::Less
    } else if i < a.len() {
        Rank::Greater
    } else {
        Rank::Same
    }
}

/// Compares two byte strings in dictionary order.
pub fn rank_bytes(a: &Vec<u8>, b: &Vec<u8>) -> (r: Rank)
    ensures
        r == lex_rank(byte_codes(a@), byte_codes(b@)),
{
    let mut i: usize = 0;
    while i < a.len() && i < b.len()
        invariant
            i <= a.len(),
            i <= b.len(),
            forall|k: int| 0 <= k < i ==> a@[k] == b@[k],
        decreases a.len() - i,
    {
        let x = a[i];
        let y = b[i];
        proof {
            lemma_lex_rank_skip(byte_codes(a@), byte_codes(b@), i as int);
        }
        if x < y {
            return Rank::Less;
        }
        if x > y {
            return Rank::Greater;
        }
        i += 1;
    }
    proof {
        lemma_lex_rank_skip(byte_codes(a@), byte_codes(b@), i as int);
    }
    if i < b.len() {
        Rank::Less
    } else if i < a.len() {
        Rank::Greater
    } else {
        Rank::Same
    }
}

impl Rank {
    /// The rank of the second value to the first, given that of the first to
    /// the second.
    pub open spec fn flipped(self) -> Rank {
        match self {
            Rank::Less => Rank::Greater,
            Rank::Same => Rank::Same,
            Rank::Greater => Rank::Less,
        }
    }
}

/// Dictionary order turns round with its arguments.
pub proof fn lemma_lex_rank_flip(a: Seq<int>, b: Seq<int>)
    ensures
        lex_rank(b, a) == lex_rank(a, b).flipped(),
    decreases a.len(),
{
    if a.len() > 0 && b.len() > 0 && a[0] == b[0] {
        lemma_lex_rank_flip(a.drop_first(), b.drop_first());
    }
}

impl Rank {
    /// Whether this is `Less` or `Same`.
    pub open spec fn at_most(self) -> bool {
        self != Rank::Greater
    }

    /// The rank of a first value to a third, given its rank to a second and
    /// the rank of the second to the third, neither of them `Greater`.
    pub open spec fn followed_by(self, next: Rank) -> Rank {
        if self == Rank::Same && next == Rank::Same {
            Rank::Same
        } else {
            Rank::Less
        }
    }
}

/// Dictionary order is transitive.
pub proof fn lemma_lex_rank_transitive(a: Seq<int>, b: Seq<int>, c: Seq<int>)
    requires
        lex_rank(a, b).at_most(),
        lex_rank(b, c).at_most(),
    ensures
        lex_rank(a, c) == lex_rank(a, b).followed_by(lex_rank(b, c)),
    decreases a.len(),
{
    if a.len() > 0 && b.len() > 0 && c.len() > 0 && a[0] == b[0] && b[0] == c[0] {
        lemma_lex_rank_transitive(a.drop_first(), b.drop_first(), c.drop_first());
    }
}

} // verus!

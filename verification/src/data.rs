//! Values: the scalars that tuples hold.

use crate::error::ErrorView;
use crate::sort::{AttributeView, Domain, RelationSchema};
use crate::text::{lemma_lex_rank_transitive, 
    byte_codes, char_codes, chars_of, decimal, decimal_string, hex_literal, hex_literal_string,
    lemma_lex_rank_flip, lemma_lex_rank_same, lex_rank, quote_char, quote_text, quoted_char,
    quoted_text, Rank, rank_bytes, rank_chars, signed_decimal, signed_decimal_string,
};
use vstd::prelude::*;
use vstd::std_specs::cmp::PartialEqSpecImpl;
use vstd::std_specs::convert::FromSpecImpl;

verus! {

/// A scalar value, tagged with its domain.
///
/// A `Float` holds the sixty-four bits of an IEEE 754 binary64 number; it is
/// compared as the number those bits encode.
#[derive(Debug)]
pub enum Value {
    Boolean(bool),
    Byte(u8),
    UnsignedInteger(u64),
    Integer(i64),
    Float(u64),
    Char(char),
    String(String),
    Binary(Vec<u8>),
}

/// The mathematical content of a [`Value`].
#[verifier::ext_equal]
pub ghost enum ValueView {
    Boolean(bool),
    Byte(u8),
    UnsignedInteger(u64),
    Integer(i64),
    Float(u64),
    Char(char),
    String(Seq<char>),
    Binary(Seq<u8>),
}

impl View for Value {
    type V = ValueView;

    open spec fn view(&self) -> ValueView {
        match self {
            Value::Boolean(v) => ValueView::Boolean(*v),
            Value::Byte(v) => ValueView::Byte(*v),
            Value::UnsignedInteger(v) => ValueView::UnsignedInteger(*v),
            Value::Integer(v) => ValueView::Integer(*v),
            Value::Float(v) => ValueView::Float(*v),
            Value::Char(v) => ValueView::Char(*v),
            Value::String(v) => ValueView::String(v@),
            Value::Binary(v) => ValueView::Binary(v@),
        }
    }
}

impl ValueView {
    /// The domain that the value belongs to.
    pub open spec fn domain(self) -> Domain {
        match self {
            ValueView::Boolean(_) => Domain::Boolean,
            ValueView::Byte(_) => Domain::Byte,
            ValueView::UnsignedInteger(_) => Domain::UnsignedInteger,
            ValueView::Integer(_) => Domain::Integer,
            ValueView::Float(_) => Domain::Float,
            ValueView::Char(_) => Domain::Char,
            ValueView::String(_) => Domain::String,
            ValueView::Binary(_) => Domain::Binary,
        }
    }
}

/// The sign bit of a float.
pub const FLOAT_SIGN: u64 = 0x8000_0000_0000_0000;

/// The bits of a float but the sign bit.
pub const FLOAT_MAGNITUDE: u64 = 0x7fff_ffff_ffff_ffff;

/// The exponent bits of a float.
pub const FLOAT_EXPONENT: u64 = 0x7ff0_0000_0000_0000;

/// The fraction bits of a float.
pub const FLOAT_FRACTION: u64 = 0x000f_ffff_ffff_ffff;

/// Whether the bits encode no number: all exponent bits set and a fraction
/// other than zero.
pub open spec fn float_is_nan(bits: u64) -> bool {
    (bits & FLOAT_EXPONENT) == FLOAT_EXPONENT && (bits & FLOAT_FRACTION) != 0
}

/// A number that orders the encoded numbers as they are ordered: the magnitude
/// bits, negated under a set sign bit. Both zeros have the key zero.
pub open spec fn float_key(bits: u64) -> int {
    if (bits & FLOAT_SIGN) != 0 {
        -((bits & FLOAT_MAGNITUDE) as int)
    } else {
        (bits & FLOAT_MAGNITUDE) as int
    }
}

/// How `x` stands to `y`.
pub open spec fn int_rank(x: int, y: int) -> Rank {
    if x < y {
        Rank::Less
    } else if x > y {
        Rank::Greater
    } else {
        Rank::Same
    }
}

/// The natural order of values. Values of different domains are not
/// comparable, nor is a float that encodes no number with anything; otherwise
/// booleans order `false` before `true`, numbers and characters by size, and
/// strings and binaries as in a dictionary.
pub open spec fn value_rank(a: ValueView, b: ValueView) -> Option<Rank> {
    match (a, b) {
        (ValueView::Boolean(x), ValueView::Boolean(y)) => Some(
            int_rank(if x { 1 } else { 0 }, if y { 1 } else { 0 }),
        ),
        (ValueView::Byte(x), ValueView::Byte(y)) => Some(int_rank(x as int, y as int)),
        (ValueView::UnsignedInteger(x), ValueView::UnsignedInteger(y)) => Some(
            int_rank(x as int, y as int),
        ),
        (ValueView::Integer(x), ValueView::Integer(y)) => Some(int_rank(x as int, y as int)),
        (ValueView::Float(x), ValueView::Float(y)) => if float_is_nan(x) || float_is_nan(y) {
            None
        } else {
            Some(int_rank(float_key(x), float_key(y)))
        },
        (ValueView::Char(x), ValueView::Char(y)) => Some(int_rank(x as int, y as int)),
        (ValueView::String(x), ValueView::String(y)) => Some(
            lex_rank(char_codes(x), char_codes(y)),
        ),
        (ValueView::Binary(x), ValueView::Binary(y)) => Some(
            lex_rank(byte_codes(x), byte_codes(y)),
        ),
        _ => None,
    }
}

/// Equality by value: comparable and ranked the same.
pub open spec fn value_equal(a: ValueView, b: ValueView) -> bool {
    value_rank(a, b) == Some(Rank::Same)
}

/// The decimal numerals of the bytes, separated by a comma and a space.
pub open spec fn byte_list_text(s: Seq<u8>) -> Seq<char>
    decreases s.len(),
{
    if s.len() == 0 {
        Seq::<char>::empty()
    } else if s.len() == 1 {
        decimal(s[0] as nat)
    } else {
        byte_list_text(s.drop_last()) + ", "@ + decimal(s.last() as nat)
    }
}

/// How a value is written: `true` or `false`; a byte as `0x` and two
/// hexadecimal digits; integers in decimal; a float as `0x` and the sixteen
/// hexadecimal digits of its bits; a character and a string quoted as the
/// standard formatter quotes them; a binary as the list of its bytes in square
/// brackets.
pub open spec fn value_text(v: ValueView) -> Seq<char> {
    match v {
        ValueView::Boolean(b) => if b {
            "true"@
        } else {
            "false"@
        },
        ValueView::Byte(n) => hex_literal(n as nat, 2),
        ValueView::UnsignedInteger(n) => decimal(n as nat),
        ValueView::Integer(n) => signed_decimal(n as int),
        ValueView::Float(bits) => hex_literal(bits as nat, 16),
        ValueView::Char(c) => quoted_char(c),
        ValueView::String(s) => quoted_text(s),
        ValueView::Binary(s) => "["@ + byte_list_text(s) + "]"@,
    }
}

fn float_bits_are_nan(bits: u64) -> (r: bool)
    ensures
        r == float_is_nan(bits),
{
    (bits & FLOAT_EXPONENT) == FLOAT_EXPONENT && (bits & FLOAT_FRACTION) != 0
}

fn float_bits_key(bits: u64) -> (r: i64)
    ensures
        r == float_key(bits),
{
    let magnitude: u64 = bits & FLOAT_MAGNITUDE;
    assert(magnitude <= 0x7fff_ffff_ffff_ffff) by (bit_vector)
        requires
            magnitude == bits & 0x7fff_ffff_ffff_ffff,
    ;
    if (bits & FLOAT_SIGN) != 0 {
        -(magnitude as i64)
    } else {
        magnitude as i64
    }
}

fn rank_i64(x: i64, y: i64) -> (r: Rank)
    ensures
        r == int_rank(x as int, y as int),
{
    if x < y {
        Rank::Less
    } else if x > y {
        Rank::Greater
    } else {
        Rank::Same
    }
}

fn rank_u64(x: u64, y: u64) -> (r: Rank)
    ensures
        r == int_rank(x as int, y as int),
{
    if x < y {
        Rank::Less
    } else if x > y {
        Rank::Greater
    } else {
        Rank::Same
    }
}

fn bytes_same(x: &Vec<u8>, y: &Vec<u8>) -> (r: bool)
    ensures
        r == (x@ == y@),
{
    if x.len() != y.len() {
        return false;
    }
    let mut i: usize = 0;
    while i < x.len()
        invariant
            i <= x.len(),
            x.len() == y.len(),
            forall|k: int| 0 <= k < i ==> x@[k] == y@[k],
        decreases x.len() - i,
    {
        if x[i] != y[i] {
            return false;
        }
        i += 1;
    }
    assert(x@ =~= y@);
    true
}

fn byte_list_string(bytes: &Vec<u8>) -> (r: String)
    ensures
        r@ == byte_list_text(bytes@),
{
    let mut r = String::new();
    let mut i: usize = 0;
    while i < bytes.len()
        invariant
            i <= bytes.len(),
            r@ == byte_list_text(bytes@.take(i as int)),
        decreases bytes.len() - i,
    {
        let digits = decimal_string(bytes[i] as u64);
        let ghost before = bytes@.take(i as int);
        let ghost after = bytes@.take(i + 1);
        proof {
            assert(after.drop_last() =~= before);
            assert(after.last() == bytes@[i as int]);
        }
        if i > 0 {
            r.append(", ");
        } else {
            assert(r@ =~= Seq::<char>::empty());
            assert(after.len() == 1);
            assert(after[0] == bytes@[0]);
        }
        r.append(digits.as_str());
        assert(r@ =~= byte_list_text(after));
        i += 1;
    }
    assert(bytes@.take(i as int) =~= bytes@);
    r
}

impl Value {
    /// The domain of this value.
    pub fn data_type(&self) -> (d: Domain)
        ensures
            d == self@.domain(),
    {
        match self {
            Value::Boolean(_) => Domain::Boolean,
            Value::Byte(_) => Domain::Byte,
            Value::UnsignedInteger(_) => Domain::UnsignedInteger,
            Value::Integer(_) => Domain::Integer,
            Value::Float(_) => Domain::Float,
            Value::Char(_) => Domain::Char,
            Value::String(_) => Domain::String,
            Value::Binary(_) => Domain::Binary,
        }
    }

    /// Whether two values are identical: the same domain and the same content,
    /// floats bit for bit. This is the identity under which a relation is a set.
    pub fn same(&self, other: &Value) -> (r: bool)
        ensures
            r == (self@ == other@),
    {
        match (self, other) {
            (Value::Boolean(x), Value::Boolean(y)) => *x == *y,
            (Value::Byte(x), Value::Byte(y)) => *x == *y,
            (Value::UnsignedInteger(x), Value::UnsignedInteger(y)) => *x == *y,
            (Value::Integer(x), Value::Integer(y)) => *x == *y,
            (Value::Float(x), Value::Float(y)) => *x == *y,
            (Value::Char(x), Value::Char(y)) => *x == *y,
            (Value::String(x), Value::String(y)) => *x == *y,
            (Value::Binary(x), Value::Binary(y)) => bytes_same(x, y),
            _ => false,
        }
    }

    /// Compares two values in their natural order; `None` when they are not
    /// comparable.
    pub fn rank(&self, other: &Value) -> (r: Option<Rank>)
        ensures
            r == value_rank(self@, other@),
    {
        match (self, other) {
            (Value::Boolean(x), Value::Boolean(y)) => Some(
                rank_u64(if *x { 1 } else { 0 }, if *y { 1 } else { 0 }),
            ),
            (Value::Byte(x), Value::Byte(y)) => Some(rank_u64(*x as u64, *y as u64)),
            (Value::UnsignedInteger(x), Value::UnsignedInteger(y)) => Some(rank_u64(*x, *y)),
            (Value::Integer(x), Value::Integer(y)) => Some(rank_i64(*x, *y)),
            (Value::Float(x), Value::Float(y)) => {
                if float_bits_are_nan(*x) || float_bits_are_nan(*y) {
                    None
                } else {
                    Some(rank_i64(float_bits_key(*x), float_bits_key(*y)))
                }
            },
            (Value::Char(x), Value::Char(y)) => {
                let (x, y) = (*x, *y);
                Some(
                    if x < y {
                        Rank::Less
                    } else if x > y {
                        Rank::Greater
                    } else {
                        Rank::Same
                    },
                )
            },
            (Value::String(x), Value::String(y)) => {
                let xs = chars_of(x.as_str());
                let ys = chars_of(y.as_str());
                Some(rank_chars(&xs, &ys))
            },
            (Value::Binary(x), Value::Binary(y)) => Some(rank_bytes(x, y)),
            _ => None,
        }
    }

    /// Writes the value.
    pub fn to_string(&self) -> (r: String)
        ensures
            r@ == value_text(self@),
    {
        match self {
            Value::Boolean(b) => if *b {
                "true".to_string()
            } else {
                "false".to_string()
            },
            Value::Byte(n) => hex_literal_string(*n as u64, 2),
            Value::UnsignedInteger(n) => decimal_string(*n),
            Value::Integer(n) => signed_decimal_string(*n),
            Value::Float(bits) => hex_literal_string(*bits, 16),
            Value::Char(c) => quote_char(*c),
            Value::String(s) => quote_text(s.as_str()),
            Value::Binary(bytes) => {
                let list = byte_list_string(bytes);
                let mut r = "[".to_string();
                r.append(list.as_str());
                r.append("]");
                r
            },
        }
    }
}

impl From<bool> for Value {
    fn from(v: bool) -> (r: Self) {
        Value::Boolean(v)
    }
}

impl FromSpecImpl<bool> for Value {
    open spec fn obeys_from_spec() -> bool {
        true
    }

    open spec fn from_spec(v: bool) -> Self {
        Value::Boolean(v)
    }
}

impl From<u8> for Value {
    fn from(v: u8) -> (r: Self) {
        Value::Byte(v)
    }
}

impl FromSpecImpl<u8> for Value {
    open spec fn obeys_from_spec() -> bool {
        true
    }

    open spec fn from_spec(v: u8) -> Self {
        Value::Byte(v)
    }
}

impl From<u64> for Value {
    fn from(v: u64) -> (r: Self) {
        Value::UnsignedInteger(v)
    }
}

impl FromSpecImpl<u64> for Value {
    open spec fn obeys_from_spec() -> bool {
        true
    }

    open spec fn from_spec(v: u64) -> Self {
        Value::UnsignedInteger(v)
    }
}

impl From<i64> for Value {
    fn from(v: i64) -> (r: Self) {
        Value::Integer(v)
    }
}

impl FromSpecImpl<i64> for Value {
    open spec fn obeys_from_spec() -> bool {
        true
    }

    open spec fn from_spec(v: i64) -> Self {
        Value::Integer(v)
    }
}

impl From<char> for Value {
    fn from(v: char) -> (r: Self) {
        Value::Char(v)
    }
}

impl FromSpecImpl<char> for Value {
    open spec fn obeys_from_spec() -> bool {
        true
    }

    open spec fn from_spec(v: char) -> Self {
        Value::Char(v)
    }
}

impl From<String> for Value {
    fn from(v: String) -> (r: Self) {
        Value::String(v)
    }
}

impl FromSpecImpl<String> for Value {
    open spec fn obeys_from_spec() -> bool {
        true
    }

    open spec fn from_spec(v: String) -> Self {
        Value::String(v)
    }
}

impl From<Vec<u8>> for Value {
    fn from(v: Vec<u8>) -> (r: Self) {
        Value::Binary(v)
    }
}

impl FromSpecImpl<Vec<u8>> for Value {
    open spec fn obeys_from_spec() -> bool {
        true
    }

    open spec fn from_spec(v: Vec<u8>) -> Self {
        Value::Binary(v)
    }
}

impl<'a> From<&'a str> for Value {
    fn from(v: &'a str) -> (r: Self)
        ensures
            r@ == ValueView::String(v@),
    {
        Value::String(v.to_string())
    }
}

impl<'a> FromSpecImpl<&'a str> for Value {
    open spec fn obeys_from_spec() -> bool {
        false
    }

    open spec fn from_spec(v: &'a str) -> Self {
        arbitrary()
    }
}

impl Value {
    /// The string value with the text `text`.
    pub fn text(text: &str) -> (r: Self)
        ensures
            r@ == ValueView::String(text@),
    {
        Value::String(text.to_string())
    }
}

impl PartialEq for Value {
    fn eq(&self, other: &Self) -> (r: bool) {
        match self.rank(other) {
            Some(Rank::Same) => true,
            _ => false,
        }
    }
}

impl PartialEqSpecImpl for Value {
    open spec fn obeys_eq_spec() -> bool {
        true
    }

    open spec fn eq_spec(&self, other: &Self) -> bool {
        value_equal(self@, other@)
    }
}

impl Clone for Value {
    fn clone(&self) -> (r: Self)
        ensures
            r@ == self@,
    {
        match self {
            Value::Boolean(v) => Value::Boolean(*v),
            Value::Byte(v) => Value::Byte(*v),
            Value::UnsignedInteger(v) => Value::UnsignedInteger(*v),
            Value::Integer(v) => Value::Integer(*v),
            Value::Float(v) => Value::Float(*v),
            Value::Char(v) => Value::Char(*v),
            Value::String(v) => Value::String(v.clone()),
            Value::Binary(v) => Value::Binary(v.clone()),
        }
    }
}

/// Whether a row has one value for each attribute, each of the attribute's
/// domain.
pub open spec fn row_conforms(attributes: Seq<AttributeView>, row: Seq<ValueView>) -> bool {
    row.len() == attributes.len() && forall|i: int|
        0 <= i < row.len() ==> (#[trigger] row[i]).domain() == attributes[i].domain
}

/// The mathematical content of a relation: the name and attributes of its
/// schema, and its tuples in the order in which it holds them.
pub ghost struct RelationView {
    pub name: Seq<char>,
    pub attributes: Seq<AttributeView>,
    pub rows: Seq<Seq<ValueView>>,
}

impl RelationView {
    /// A relation is well formed when every tuple conforms to the schema and
    /// no tuple occurs twice.
    pub open spec fn wf(self) -> bool {
        &&& forall|i: int| 0 <= i < self.rows.len() ==> row_conforms(self.attributes, #[trigger] self.rows[i])
        &&& self.rows.no_duplicates()
    }

    /// The tuples as a set.
    pub open spec fn tuple_set(self) -> Set<Seq<ValueView>> {
        self.rows.to_set()
    }
}

/// The rows without their repetitions: of equal rows the first stays, and the
/// rows that stay keep their order.
pub open spec fn distinct(rows: Seq<Seq<ValueView>>) -> Seq<Seq<ValueView>>
    decreases rows.len(),
{
    if rows.len() == 0 {
        rows
    } else {
        let before = distinct(rows.drop_last());
        if before.contains(rows.last()) {
            before
        } else {
            before.push(rows.last())
        }
    }
}

/// `distinct` keeps exactly the rows that occur, each once.
pub proof fn lemma_distinct(rows: Seq<Seq<ValueView>>)
    ensures
        distinct(rows).no_duplicates(),
        distinct(rows).len() <= rows.len(),
        forall|t: Seq<ValueView>| #[trigger] rows.contains(t) ==> distinct(rows).contains(t),
        forall|t: Seq<ValueView>| #[trigger] distinct(rows).contains(t) ==> rows.contains(t),
    decreases rows.len(),
{
    if rows.len() > 0 {
        let front = rows.drop_last();
        let before = distinct(front);
        let after = distinct(rows);
        lemma_distinct(front);
        assert forall|t: Seq<ValueView>| #[trigger] rows.contains(t) implies after.contains(t) by {
            let i = choose|i: int| 0 <= i < rows.len() && rows[i] == t;
            if i < rows.len() - 1 {
                assert(front[i] == t);
                assert(front.contains(t));
                assert(before.contains(t));
                let k = choose|k: int| 0 <= k < before.len() && before[k] == t;
                assert(after[k] == t);
            } else if before.contains(t) {
                let k = choose|k: int| 0 <= k < before.len() && before[k] == t;
                assert(after[k] == t);
            } else {
                assert(after[before.len() as int] == t);
            }
        }
        assert forall|t: Seq<ValueView>| #[trigger] after.contains(t) implies rows.contains(t) by {
            let k = choose|k: int| 0 <= k < after.len() && after[k] == t;
            if k < before.len() {
                assert(before[k] == t);
                assert(before.contains(t));
                assert(front.contains(t));
                let i = choose|i: int| 0 <= i < front.len() && front[i] == t;
                assert(rows[i] == t);
            } else {
                assert(rows[rows.len() - 1] == t);
            }
        }
    }
}

/// Rows without repetitions are their own `distinct`.
pub proof fn lemma_distinct_of_distinct(rows: Seq<Seq<ValueView>>)
    requires
        rows.no_duplicates(),
    ensures
        distinct(rows) == rows,
    decreases rows.len(),
{
    if rows.len() > 0 {
        let front = rows.drop_last();
        lemma_distinct_of_distinct(front);
        if front.contains(rows.last()) {
            let i = choose|i: int| 0 <= i < front.len() && front[i] == rows.last();
            assert(rows[i] == rows[rows.len() - 1]);
        }
        assert(front.push(rows.last()) =~= rows);
    }
}

/// The first position from `from` on at which the row's value is not of the
/// attribute's domain, as the error that reports it.
pub open spec fn first_domain_mismatch(
    attributes: Seq<AttributeView>,
    row: Seq<ValueView>,
    from: int,
) -> Option<ErrorView>
    decreases row.len() - from,
{
    if from >= row.len() || from >= attributes.len() {
        None
    } else if row[from].domain() != attributes[from].domain {
        Some(
            ErrorView::InvalidValue {
                expecting_domain: attributes[from].domain,
                given_value: row[from],
            },
        )
    } else {
        first_domain_mismatch(attributes, row, from + 1)
    }
}

/// Why a row does not conform to the attributes, if it does not: it is
/// shorter or longer, which is reported as the first index that only one of
/// the two has; or it holds a value of another domain than the attribute's,
/// which is reported with the first such value.
pub open spec fn conformance_error(attributes: Seq<AttributeView>, row: Seq<ValueView>) -> Option<
    ErrorView,
> {
    if row.len() < attributes.len() {
        Some(ErrorView::AttributeIndexInvalid { index: row.len() as usize })
    } else if row.len() > attributes.len() {
        Some(ErrorView::AttributeIndexInvalid { index: attributes.len() as usize })
    } else {
        first_domain_mismatch(attributes, row, 0)
    }
}

/// A row conforms exactly when there is no conformance error.
pub proof fn lemma_conformance(attributes: Seq<AttributeView>, row: Seq<ValueView>)
    ensures
        conformance_error(attributes, row) is None <==> row_conforms(attributes, row),
{
    if row.len() == attributes.len() {
        lemma_domain_mismatch(attributes, row, 0);
    }
}

proof fn lemma_domain_mismatch(attributes: Seq<AttributeView>, row: Seq<ValueView>, from: int)
    requires
        row.len() == attributes.len(),
        0 <= from,
    ensures
        first_domain_mismatch(attributes, row, from) is None <==> forall|i: int|
            from <= i < row.len() ==> (#[trigger] row[i]).domain() == attributes[i].domain,
    decreases row.len() - from,
{
    if from < row.len() {
        lemma_domain_mismatch(attributes, row, from + 1);
    }
}

/// The conformance error of the first row from `from` on that has one.
pub open spec fn first_nonconforming(
    attributes: Seq<AttributeView>,
    rows: Seq<Seq<ValueView>>,
    from: int,
) -> Option<ErrorView>
    decreases rows.len() - from,
{
    if from >= rows.len() {
        None
    } else if conformance_error(attributes, rows[from]) is Some {
        conformance_error(attributes, rows[from])
    } else {
        first_nonconforming(attributes, rows, from + 1)
    }
}

/// The natural order turns round with its arguments: where one value ranks
/// before another, the other ranks after it; and two values are comparable in
/// one direction exactly when they are in the other.
pub proof fn lemma_value_rank_flip(a: ValueView, b: ValueView)
    ensures
        value_rank(b, a) == match value_rank(a, b) {
            Some(r) => Some(r.flipped()),
            None => None,
        },
{
    match (a, b) {
        (ValueView::String(x), ValueView::String(y)) => {
            lemma_lex_rank_flip(char_codes(x), char_codes(y));
        },
        (ValueView::Binary(x), ValueView::Binary(y)) => {
            lemma_lex_rank_flip(byte_codes(x), byte_codes(y));
        },
        _ => {},
    }
}

/// A tuple comprises values, one for each attribute of a relation schema, in
/// the order of the attributes.
pub trait Tuple: View<V = Seq<ValueView>> {
    /// The number of values.
    fn len(&self) -> (r: usize)
        ensures
            r == self@.len(),
    ;

    /// Whether the tuple has no value.
    fn is_empty(&self) -> (r: bool)
        ensures
            r == (self@.len() == 0),
    ;

    /// The value at `index`.
    fn value(&self, index: usize) -> (r: Option<&Value>)
        ensures
            r is Some == (index < self@.len()),
            r is Some ==> r->Some_0@ == self@[index as int],
    ;

    /// The values, in order.
    fn values(&self) -> (r: &Vec<Value>)
        ensures
            r@.map_values(|v: Value| v@) == self@,
    ;
}

/// A relation is a set of tuples that conform to a relation schema.
pub trait Relation: View<V = RelationView> {
    type Schema: RelationSchema;

    type Item: Tuple;

    /// The schema of the relation.
    fn schema(&self) -> (r: &Self::Schema)
        ensures
            r@.name == self@.name,
            r@.attributes == self@.attributes,
    ;

    /// The tuples of the relation, each once.
    fn tuples(&self) -> (r: &Vec<Self::Item>)
        ensures
            r@.map_values(|t: Self::Item| t@) == self@.rows,
            self@.wf(),
    ;
}

/// Equality by value and identity agree but for floats: two values that are
/// not floats are equal by value exactly when they are identical; two floats
/// are equal by value exactly when both encode a number and the same one, so
/// that the two zeros are equal and a float that encodes no number equals
/// nothing.
pub proof fn law_equality_of_values(a: ValueView, b: ValueView)
    ensures
        !(a is Float) ==> (value_equal(a, b) <==> a == b),
        a is Float && b is Float ==> (value_equal(a, b) <==> !float_is_nan(a->Float_0)
            && !float_is_nan(b->Float_0) && float_key(a->Float_0) == float_key(b->Float_0)),
{
    match (a, b) {
        (ValueView::String(x), ValueView::String(y)) => {
            lemma_lex_rank_same(char_codes(x), char_codes(y));
            if char_codes(x) == char_codes(y) {
                assert(x.len() == char_codes(x).len());
                assert(y.len() == char_codes(y).len());
                assert forall|i: int| 0 <= i < x.len() implies x[i] == y[i] by {
                    assert(char_codes(x)[i] == char_codes(y)[i]);
                }
                assert(x =~= y);
            }
        },
        (ValueView::Binary(x), ValueView::Binary(y)) => {
            lemma_lex_rank_same(byte_codes(x), byte_codes(y));
            if byte_codes(x) == byte_codes(y) {
                assert(x.len() == byte_codes(x).len());
                assert(y.len() == byte_codes(y).len());
                assert forall|i: int| 0 <= i < x.len() implies x[i] == y[i] by {
                    assert(byte_codes(x)[i] == byte_codes(y)[i]);
                }
                assert(x =~= y);
            }
        },
        _ => {},
    }
}

/// The natural order is transitive: a value that ranks at most as a second,
/// which ranks at most as a third, ranks at most as the third, and the same
/// only if both do.
pub proof fn lemma_value_rank_transitive(a: ValueView, b: ValueView, c: ValueView)
    requires
        value_rank(a, b) is Some,
        value_rank(b, c) is Some,
        value_rank(a, b)->Some_0.at_most(),
        value_rank(b, c)->Some_0.at_most(),
    ensures
        value_rank(a, c) == Some(value_rank(a, b)->Some_0.followed_by(value_rank(b, c)->Some_0)),
{
    match (a, b, c) {
        (ValueView::String(x), ValueView::String(y), ValueView::String(z)) => {
            lemma_lex_rank_transitive(char_codes(x), char_codes(y), char_codes(z));
        },
        (ValueView::Binary(x), ValueView::Binary(y), ValueView::Binary(z)) => {
            lemma_lex_rank_transitive(byte_codes(x), byte_codes(y), byte_codes(z));
        },
        _ => {},
    }
}

} // verus!

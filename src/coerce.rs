use vstd::prelude::*;

verus! {

/// A field of a document, as far as coercion reads it.
pub enum FieldValue {
    /// A string, as the parser unescaped it.
    Text(String),
    /// An integer.
    Integer(i64),
    /// A float, held as its default decimal rendering.
    Float(String),
    /// A boolean.
    Boolean(bool),
    /// A date-time, held as the format's canonical rendering of it.
    Datetime(String),
    /// An array or a table, held as its debug rendering.
    Composite(String),
}

/// The character of a decimal digit.
pub open spec fn digit_char(d: nat) -> char {
    if d == 0 {
        '0'
    } else if d == 1 {
        '1'
    } else if d == 2 {
        '2'
    } else if d == 3 {
        '3'
    } else if d == 4 {
        '4'
    } else if d == 5 {
        '5'
    } else if d == 6 {
        '6'
    } else if d == 7 {
        '7'
    } else if d == 8 {
        '8'
    } else {
        '9'
    }
}

/// The decimal digits of `n`, most significant first, without leading zeros.
pub open spec fn digits_of(n: nat) -> Seq<char>
    decreases n,
{
    if n < 10 {
        seq![digit_char(n)]
    } else {
        digits_of(n / 10).push(digit_char(n % 10))
    }
}

/// The decimal rendering of `n`, with a leading `-` when it is negative.
pub open spec fn decimal_of(n: int) -> Seq<char> {
    if n < 0 {
        seq!['-'] + digits_of((-n) as nat)
    } else {
        digits_of(n as nat)
    }
}

/// The environment value of a field, or `None` when the field is not a
/// scalar.
pub open spec fn scalar_text_spec(v: FieldValue) -> Option<Seq<char>> {
    match v {
        FieldValue::Text(s) => Some(s@),
        FieldValue::Integer(i) => Some(decimal_of(i as int)),
        FieldValue::Float(t) => Some(t@),
        FieldValue::Boolean(b) => Some(
            if b {
                "true"@
            } else {
                "false"@
            },
        ),
        FieldValue::Datetime(t) => Some(t@),
        FieldValue::Composite(_) => None,
    }
}

/// Whether a field can become an environment value.
pub open spec fn representable(v: FieldValue) -> bool {
    scalar_text_spec(v) is Some
}

fn digit_str(d: u64) -> (r: &'static str)
    requires
        d < 10,
    ensures
        r@ == seq![digit_char(d as nat)],
{
    proof {
        reveal_strlit("0");
        reveal_strlit("1");
        reveal_strlit("2");
        reveal_strlit("3");
        reveal_strlit("4");
        reveal_strlit("5");
        reveal_strlit("6");
        reveal_strlit("7");
        reveal_strlit("8");
        reveal_strlit("9");
    }
    let r = if d == 0 {
        "0"
    } else if d == 1 {
        "1"
    } else if d == 2 {
        "2"
    } else if d == 3 {
        "3"
    } else if d == 4 {
        "4"
    } else if d == 5 {
        "5"
    } else if d == 6 {
        "6"
    } else if d == 7 {
        "7"
    } else if d == 8 {
        "8"
    } else {
        "9"
    };
    assert(r@ =~= seq![digit_char(d as nat)]);
    r
}

fn push_digits(s: &mut String, m: u64)
    ensures
        final(s)@ == old(s)@ + digits_of(m as nat),
    decreases m,
{
    if m >= 10 {
        push_digits(s, m / 10);
    }
    s.append(digit_str(m % 10));
    assert(final(s)@ =~= old(s)@ + digits_of(m as nat));
}

/// The decimal rendering of `n`.
pub fn decimal(n: i64) -> (r: String)
    ensures
        r@ == decimal_of(n as int),
{
    let mut s = String::new();
    if n < 0 {
        s.append("-");
        proof {
            reveal_strlit("-");
        }
        let m: u64 = ((-(n + 1)) as u64) + 1;
        push_digits(&mut s, m);
        assert(s@ =~= decimal_of(n as int));
    } else {
        push_digits(&mut s, n as u64);
        assert(s@ =~= decimal_of(n as int));
    }
    s
}

/// The environment value of a field: strings as they are, integers in
/// decimal, floats and date-times as rendered, booleans as `true` or
/// `false`; `None` for arrays and tables.
pub fn scalar_text(v: &FieldValue) -> (r: Option<String>)
    ensures
        match r {
            Some(s) => scalar_text_spec(*v) == Some(s@),
            None => scalar_text_spec(*v) is None,
        },
{
    match v {
        FieldValue::Text(s) => Some(s.clone()),
        FieldValue::Integer(i) => Some(decimal(*i)),
        FieldValue::Float(t) => Some(t.clone()),
        FieldValue::Boolean(b) => {
            if *b {
                Some("true".to_owned())
            } else {
                Some("false".to_owned())
            }
        },
        FieldValue::Datetime(t) => Some(t.clone()),
        FieldValue::Composite(_) => None,
    }
}

/// A string field becomes its own text, unchanged.
pub proof fn lemma_text_is_stable(s: String)
    ensures
        scalar_text_spec(FieldValue::Text(s)) == Some(s@),
{
}

/// Every field gets exactly one outcome, and only arrays and tables are
/// refused.
pub proof fn lemma_coercion_total(v: FieldValue)
    ensures
        representable(v) <==> !(v is Composite),
{
}

} // verus!

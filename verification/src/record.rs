//! Result records: one row of query output, a single output column alias
//! mapped to a scalar value, and its serialization as a self-contained
//! JSON object on one line.

use vstd::prelude::*;

use crate::text::{dec_digits, lemma_dec_digits_are_digits, u64_to_string};

verus! {

/// One row of query output: the output column alias and the scalar value
/// the aggregate produced. Ownership transfers to the collector when the
/// record is written; it is consumed exactly once.
pub struct ResultRecord {
    pub alias: String,
    pub value: i64,
}

/// The decimal rendering of a (possibly negative) integer.
pub open spec fn int_digits(v: int) -> Seq<char> {
    if v < 0 {
        seq!['-'] + dec_digits((-v) as nat)
    } else {
        dec_digits(v as nat)
    }
}

/// The serialized form of a record: a JSON object of one key,
/// `{"<alias>":<value>}`.
pub open spec fn record_text(alias: Seq<char>, v: int) -> Seq<char> {
    "{\""@ + alias + "\":"@ + int_digits(v) + "}"@
}

/// A sequence of characters that contains no line boundary, so that it can
/// stand whole on one line of the output stream.
pub open spec fn line_free(s: Seq<char>) -> bool {
    forall|k: int| 0 <= k < s.len() ==> #[trigger] s[k] != '\n'
}

/// Concatenation preserves freedom from line boundaries.
pub proof fn lemma_line_free_concat(a: Seq<char>, b: Seq<char>)
    requires
        line_free(a),
        line_free(b),
    ensures
        line_free(a + b),
{
    assert forall|k: int| 0 <= k < (a + b).len() implies #[trigger] (a + b)[k] != '\n' by {
        if k < a.len() {
            assert((a + b)[k] == a[k]);
        } else {
            assert((a + b)[k] == b[k - a.len()]);
        }
    }
}

/// A decimal rendering never contains a line boundary.
pub proof fn lemma_int_digits_line_free(v: int)
    ensures
        line_free(int_digits(v)),
{
    if v < 0 {
        lemma_dec_digits_are_digits((-v) as nat);
        lemma_line_free_concat(seq!['-'], dec_digits((-v) as nat));
    } else {
        lemma_dec_digits_are_digits(v as nat);
    }
}

/// A serialized record never contains a line boundary, provided its alias
/// does not: the framing of the output stream can rely on it.
pub proof fn lemma_record_text_line_free(alias: Seq<char>, v: int)
    requires
        line_free(alias),
    ensures
        line_free(record_text(alias, v)),
{
    reveal_strlit("{\"");
    reveal_strlit("\":");
    reveal_strlit("}");
    lemma_int_digits_line_free(v);
    lemma_line_free_concat("{\""@, alias);
    lemma_line_free_concat("{\""@ + alias, "\":"@);
    lemma_line_free_concat("{\""@ + alias + "\":"@, int_digits(v));
    lemma_line_free_concat("{\""@ + alias + "\":"@ + int_digits(v), "}"@);
}

/// Renders a signed integer in decimal.
pub fn i64_to_string(v: i64) -> (r: String)
    ensures
        r@ == int_digits(v as int),
{
    if v >= 0 {
        u64_to_string(v as u64)
    } else {
        let wide: i128 = v as i128;
        let neg: i128 = -wide;
        assert(0 <= neg < 0x1_0000_0000_0000_0000_i128);
        let mag: u64 = neg as u64;
        let mut s = String::from_str("-");
        let digits = u64_to_string(mag);
        s.append(digits.as_str());
        proof {
            reveal_strlit("-");
            assert(mag as nat == (-(v as int)) as nat);
            assert("-"@ =~= seq!['-']);
            assert(s@ =~= int_digits(v as int));
        }
        s
    }
}

/// Serializes one record as a self-contained JSON object,
/// `{"<alias>":<value>}`, with no internal line boundary.
pub fn serialize_record(rec: &ResultRecord) -> (r: String)
    ensures
        r@ == record_text(rec.alias@, rec.value as int),
{
    let mut s = String::from_str("{\"");
    s.append(rec.alias.as_str());
    s.append("\":");
    let digits = i64_to_string(rec.value);
    s.append(digits.as_str());
    s.append("}");
    proof {
        assert(s@ =~= record_text(rec.alias@, rec.value as int));
    }
    s
}

} // verus!

//! Text views: the decisions behind showing a string or a number as a text
//! node of a document.

use vstd::prelude::*;

verus! {

/// The decimal digit `d`.
pub open spec fn digit_char(d: int) -> char {
    seq!['0', '1', '2', '3', '4', '5', '6', '7', '8', '9'][d]
}

/// The decimal representation of `n`, without leading zeros.
pub open spec fn decimal(n: nat) -> Seq<char>
    decreases n,
{
    if n < 10 {
        seq![digit_char(n as int)]
    } else {
        decimal(n / 10).push(digit_char((n % 10) as int))
    }
}

/// The decimal representation of `v`, with a minus sign when it is negative.
pub open spec fn signed_decimal(v: int) -> Seq<char> {
    if v < 0 {
        seq!['-'] + decimal((-v) as nat)
    } else {
        decimal(v as nat)
    }
}

/// The number that a sequence of decimal digits spells.
pub open spec fn digits_value(s: Seq<char>) -> int
    decreases s.len(),
{
    if s.len() == 0 {
        0
    } else {
        10 * digits_value(s.drop_last()) + (s.last() as int - '0' as int)
    }
}

proof fn lemma_digit_char(k: int)
    requires
        0 <= k < 10,
    ensures
        digit_char(k) as int - '0' as int == k,
        '0' <= digit_char(k) <= '9',
        k >= 1 ==> digit_char(k) != '0',
{
    let digits = seq!['0', '1', '2', '3', '4', '5', '6', '7', '8', '9'];
    assert(digit_char(k) == digits[k]);
    if k == 0 { assert(digits[0] == '0'); }
    else if k == 1 { assert(digits[1] == '1'); }
    else if k == 2 { assert(digits[2] == '2'); }
    else if k == 3 { assert(digits[3] == '3'); }
    else if k == 4 { assert(digits[4] == '4'); }
    else if k == 5 { assert(digits[5] == '5'); }
    else if k == 6 { assert(digits[6] == '6'); }
    else if k == 7 { assert(digits[7] == '7'); }
    else if k == 8 { assert(digits[8] == '8'); }
    else { assert(digits[9] == '9'); }
}

/// The decimal representation of `n` spells `n`, is made of digits only, and
/// has no leading zero unless it is the single digit of zero.
pub proof fn lemma_decimal_spells(n: nat)
    ensures
        digits_value(decimal(n)) == n,
        decimal(n).len() >= 1,
        forall|i: int| 0 <= i < decimal(n).len() ==> '0' <= #[trigger] decimal(n)[i] <= '9',
        n >= 1 ==> decimal(n)[0] != '0',
        decimal(n).len() > 1 ==> decimal(n)[0] != '0',
    decreases n,
{
    if n < 10 {
        lemma_digit_char(n as int);
        assert(decimal(n) == seq![digit_char(n as int)]);
        assert(decimal(n).drop_last() =~= Seq::<char>::empty());
        assert(digits_value(decimal(n).drop_last()) == 0);
        assert(decimal(n).last() == digit_char(n as int));
    } else {
        lemma_decimal_spells(n / 10);
        lemma_digit_char((n % 10) as int);
        let d = decimal(n / 10);
        assert(decimal(n) == d.push(digit_char((n % 10) as int)));
        assert(decimal(n).drop_last() == d);
        assert forall|i: int| 0 <= i < decimal(n).len() implies '0' <= #[trigger] decimal(n)[i] <= '9' by {
            if i < d.len() {
                assert(decimal(n)[i] == d[i]);
            }
        }
        assert(decimal(n)[0] == d[0]);
        assert(decimal(n).last() == digit_char((n % 10) as int));
        assert(n == 10 * (n / 10) + n % 10);
    }
}

/// Calls `<str as PartialEq>::eq`.
///
/// Trusted: two string slices are equal exactly when they hold the same
/// characters (they compare their UTF-8 bytes, and the encoding is one to one).
#[verifier::external_body]
fn str_eq(a: &str, b: &str) -> (r: bool)
    ensures
        r == (a@ == b@),
{
    a == b
}

/// Calls `<u128 as ToString>::to_string`.
///
/// Trusted: an unsigned integer displays as its decimal representation.
#[verifier::external_body]
fn unsigned_to_string(v: u128) -> (s: String)
    ensures
        s@ == decimal(v as nat),
{
    v.to_string()
}

/// Calls `<i128 as ToString>::to_string`.
///
/// Trusted: a signed integer displays as its decimal representation, with a
/// minus sign when it is negative.
#[verifier::external_body]
fn signed_to_string(v: i128) -> (s: String)
    ensures
        s@ == signed_decimal(v as int),
{
    v.to_string()
}

/// How the node of a text view comes to be.
pub enum TextNodeBuild {
    /// Take over the node that the document being hydrated already has.
    Hydrate,
    /// Create a text node holding the given data.
    Create(String),
}

/// Decides how a text view showing `text` builds its node.
pub fn build_text_node(text: &str, hydrating: bool) -> (r: TextNodeBuild)
    ensures
        hydrating ==> r is Hydrate,
        !hydrating ==> (r matches TextNodeBuild::Create(data) && data@ == text@),
{
    if hydrating {
        TextNodeBuild::Hydrate
    } else {
        TextNodeBuild::Create(text.to_owned())
    }
}

/// Decides how a text view that showed `prev` and now shows `new` updates its
/// node: the data to set, if the text changed.
pub fn rebuild_text_node(new: &str, prev: &str) -> (r: Option<String>)
    ensures
        r is Some <==> new@ != prev@,
        r matches Some(data) ==> data@ == new@,
{
    if !str_eq(prev, new) {
        Some(new.to_owned())
    } else {
        None
    }
}

/// Decides how a view showing the unsigned integer `value` builds its node.
pub fn build_unsigned_node(value: u128, hydrating: bool) -> (r: TextNodeBuild)
    ensures
        hydrating ==> r is Hydrate,
        !hydrating ==> (r matches TextNodeBuild::Create(data) && data@ == decimal(value as nat)),
{
    if hydrating {
        TextNodeBuild::Hydrate
    } else {
        TextNodeBuild::Create(unsigned_to_string(value))
    }
}

/// Decides how a view that showed the unsigned integer `prev` and now shows
/// `new` updates its node: the text to set, if the number changed.
pub fn rebuild_unsigned_node(new: u128, prev: u128) -> (r: Option<String>)
    ensures
        r is Some <==> new != prev,
        r matches Some(data) ==> data@ == decimal(new as nat),
{
    if prev != new {
        Some(unsigned_to_string(new))
    } else {
        None
    }
}

/// Decides how a view showing the signed integer `value` builds its node.
pub fn build_signed_node(value: i128, hydrating: bool) -> (r: TextNodeBuild)
    ensures
        hydrating ==> r is Hydrate,
        !hydrating ==> (r matches TextNodeBuild::Create(data) && data@ == signed_decimal(
            value as int,
        )),
{
    if hydrating {
        TextNodeBuild::Hydrate
    } else {
        TextNodeBuild::Create(signed_to_string(value))
    }
}

/// Decides how a view that showed the signed integer `prev` and now shows
/// `new` updates its node: the text to set, if the number changed.
pub fn rebuild_signed_node(new: i128, prev: i128) -> (r: Option<String>)
    ensures
        r is Some <==> new != prev,
        r matches Some(data) ==> data@ == signed_decimal(new as int),
{
    if prev != new {
        Some(signed_to_string(new))
    } else {
        None
    }
}

} // verus!

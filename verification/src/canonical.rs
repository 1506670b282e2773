//! The canonical text of a transaction list can be read back in one way
//! only, so that it tells any two lists apart.

use vstd::prelude::*;

use crate::encoding::{
    comma_separated, json_array_text, json_escape, json_escaped, json_optional_text,
    json_string_text, status_text, transaction_text, transactions_text,
};
use crate::models::{TransactionStatus, TransactionView};
use crate::text::{decimal_text, digit_char, lemma_decimal_text_is_injective};
use crate::time::{Timestamp, utc_rfc3339_text};

verus! {

/// Text that begins with `x` can be read back in one way only when it is
/// compared with text that begins with `y`: where the two texts are
/// equal, so are `x` and `y`, and so is what follows them.
pub open spec fn read_alike(x: Seq<char>, y: Seq<char>) -> bool {
    forall|r: Seq<char>, s: Seq<char>| #[trigger] (x + r) == #[trigger] (y + s) ==> x == y && r == s
}

/// Joining is associative.
pub proof fn lemma_join_is_associative(a: Seq<char>, b: Seq<char>, c: Seq<char>)
    ensures
        (a + b) + c == a + (b + c),
{
}

/// Equal texts that begin with the escapes of two characters begin with
/// the same character and go on alike.
pub proof fn lemma_escapes_that_begin_alike(c: char, d: char, r: Seq<char>, s: Seq<char>)
    requires
        json_escape(c) + r == json_escape(d) + s,
    ensures
        c == d,
        r == s,
{
    let x = json_escape(c);
    let y = json_escape(d);
    assert((x + r)[0] == x[0]);
    if x.len() >= 2 && y.len() >= 2 {
        assert((x + r)[1] == x[1]);
        if x.len() == 6 && y.len() == 6 {
            assert((x + r)[4] == x[4]);
            assert((x + r)[5] == x[5]);
        }
    }
    crate::text::lemma_same_prefix_cancels(x, r, s);
}

/// The escaped text of a character followed by more text is the
/// character's escape followed by the escaped text of the rest.
pub proof fn lemma_escaped_from_the_left(c: char, rest: Seq<char>)
    ensures
        json_escaped(seq![c] + rest) == json_escape(c) + json_escaped(rest),
    decreases rest.len(),
{
    let whole = seq![c] + rest;
    if rest.len() == 0 {
        assert(json_escaped(whole.drop_last()) =~= Seq::<char>::empty());
    } else {
        assert(whole.drop_last() =~= seq![c] + rest.drop_last());
        lemma_escaped_from_the_left(c, rest.drop_last());
    }
}

/// An escape never begins with the double quote.
pub proof fn lemma_escape_begins_without_quote(c: char)
    ensures
        json_escape(c).len() >= 1,
        json_escape(c)[0] != '"',
{
}

/// Equal texts that begin with two escaped texts, each closed by a double
/// quote, begin with the same text and go on alike.
pub proof fn lemma_closed_texts_that_begin_alike(
    a: Seq<char>,
    b: Seq<char>,
    r: Seq<char>,
    s: Seq<char>,
)
    requires
        json_escaped(a) + seq!['"'] + r == json_escaped(b) + seq!['"'] + s,
    ensures
        a == b,
        r == s,
    decreases a.len(),
{
    let quote = seq!['"'];
    if a.len() == 0 && b.len() == 0 {
        crate::text::lemma_same_prefix_cancels(quote, r, s);
    } else if a.len() == 0 {
        let d = b.first();
        assert(b =~= seq![d] + b.drop_first());
        lemma_escaped_from_the_left(d, b.drop_first());
        lemma_escape_begins_without_quote(d);
        assert((json_escaped(a) + quote + r)[0] == '"');
    } else if b.len() == 0 {
        let c = a.first();
        assert(a =~= seq![c] + a.drop_first());
        lemma_escaped_from_the_left(c, a.drop_first());
        lemma_escape_begins_without_quote(c);
        assert((json_escaped(b) + quote + s)[0] == '"');
    } else {
        let c = a.first();
        let d = b.first();
        assert(a =~= seq![c] + a.drop_first());
        assert(b =~= seq![d] + b.drop_first());
        lemma_escaped_from_the_left(c, a.drop_first());
        lemma_escaped_from_the_left(d, b.drop_first());
        let after_c = json_escaped(a.drop_first()) + quote + r;
        let after_d = json_escaped(b.drop_first()) + quote + s;
        assert(json_escaped(a) + quote + r =~= json_escape(c) + after_c);
        assert(json_escaped(b) + quote + s =~= json_escape(d) + after_d);
        lemma_escapes_that_begin_alike(c, d, after_c, after_d);
        lemma_closed_texts_that_begin_alike(a.drop_first(), b.drop_first(), r, s);
    }
}

/// The JSON strings of two texts are read alike.
pub proof fn lemma_json_strings_are_read_alike(a: Seq<char>, b: Seq<char>)
    ensures
        read_alike(json_string_text(a), json_string_text(b)),
        json_string_text(a) == json_string_text(b) ==> a == b,
{
    let quote = seq!['"'];
    let x = json_string_text(a);
    let y = json_string_text(b);
    assert forall|r: Seq<char>, s: Seq<char>| #[trigger] (x + r) == #[trigger] (y + s) implies x == y
        && r == s by {
        assert(x + r =~= quote + (json_escaped(a) + quote + r));
        assert(y + s =~= quote + (json_escaped(b) + quote + s));
        crate::text::lemma_same_prefix_cancels(
            quote,
            json_escaped(a) + quote + r,
            json_escaped(b) + quote + s,
        );
        lemma_closed_texts_that_begin_alike(a, b, r, s);
    }
    if x == y {
        let nothing = Seq::<char>::empty();
        assert(x =~= quote + (json_escaped(a) + quote + nothing));
        assert(y =~= quote + (json_escaped(b) + quote + nothing));
        crate::text::lemma_same_prefix_cancels(
            quote,
            json_escaped(a) + quote + nothing,
            json_escaped(b) + quote + nothing,
        );
        lemma_closed_texts_that_begin_alike(a, b, nothing, nothing);
    }
}

/// A text is read alike with itself.
pub proof fn lemma_same_text_is_read_alike(x: Seq<char>)
    ensures
        read_alike(x, x),
{
    assert forall|r: Seq<char>, s: Seq<char>| #[trigger] (x + r) == #[trigger] (x + s) implies x == x
        && r == s by {
        crate::text::lemma_same_prefix_cancels(x, r, s);
    }
}

/// The parts joined in order.
pub open spec fn flat(parts: Seq<Seq<char>>) -> Seq<char>
    decreases parts.len(),
{
    if parts.len() == 0 {
        Seq::empty()
    } else {
        flat(parts.drop_last()) + parts.last()
    }
}

/// Joining one more part at the end.
pub proof fn lemma_flat_after_push(parts: Seq<Seq<char>>, x: Seq<char>)
    ensures
        flat(parts.push(x)) == flat(parts) + x,
{
    assert(parts.push(x).drop_last() =~= parts);
}

/// The parts joined in order are the first part followed by the rest
/// joined in order.
pub proof fn lemma_flat_from_the_left(parts: Seq<Seq<char>>)
    requires
        parts.len() > 0,
    ensures
        flat(parts) == parts.first() + flat(parts.drop_first()),
    decreases parts.len(),
{
    if parts.len() == 1 {
        assert(parts.drop_last() =~= Seq::<Seq<char>>::empty());
        assert(parts.drop_first() =~= Seq::<Seq<char>>::empty());
    } else {
        lemma_flat_from_the_left(parts.drop_last());
        assert(parts.drop_last().drop_first() =~= parts.drop_first().drop_last());
    }
}

/// Part by part the two lists are read alike.
pub open spec fn parts_read_alike(p: Seq<Seq<char>>, q: Seq<Seq<char>>) -> bool {
    &&& p.len() == q.len()
    &&& forall|i: int| 0 <= i < p.len() ==> read_alike(#[trigger] p[i], q[i])
}

/// Equal texts that begin with two lists of parts, read alike part by
/// part, begin with the same parts and go on alike.
pub proof fn lemma_parts_that_begin_alike(
    p: Seq<Seq<char>>,
    q: Seq<Seq<char>>,
    r: Seq<char>,
    s: Seq<char>,
)
    requires
        parts_read_alike(p, q),
        flat(p) + r == flat(q) + s,
    ensures
        p == q,
        r == s,
    decreases p.len(),
{
    if p.len() == 0 {
    } else {
        lemma_flat_from_the_left(p);
        lemma_flat_from_the_left(q);
        let after_p = flat(p.drop_first()) + r;
        let after_q = flat(q.drop_first()) + s;
        assert(flat(p) + r =~= p.first() + after_p);
        assert(flat(q) + s =~= q.first() + after_q);
        lemma_parts_that_begin_alike(p.drop_first(), q.drop_first(), r, s);
        assert(p =~= seq![p[0]] + p.drop_first());
    }
}

/// No character of a decimal numeral is a comma.
pub proof fn lemma_decimal_text_has_no_comma(n: nat)
    ensures
        forall|i: int| 0 <= i < decimal_text(n).len() ==> decimal_text(n)[i] != ',',
    decreases n,
{
    let text = decimal_text(n);
    if n >= 10 {
        lemma_decimal_text_has_no_comma(n / 10);
        let front = decimal_text(n / 10);
        assert forall|i: int| 0 <= i < text.len() implies text[i] != ',' by {
            if i < front.len() {
                assert(text[i] == front[i]);
            } else {
                assert(text[i] == digit_char(n % 10));
            }
        }
    } else {
        assert(text[0] == digit_char(n));
    }
}

/// Equal texts that begin with two decimal numerals, each followed by the
/// same text that begins with a comma, begin with the same numeral and
/// go on alike.
pub proof fn lemma_numerals_that_begin_alike(
    a: nat,
    b: nat,
    then: Seq<char>,
    r: Seq<char>,
    s: Seq<char>,
)
    requires
        then.len() > 0,
        then[0] == ',',
        decimal_text(a) + then + r == decimal_text(b) + then + s,
    ensures
        a == b,
        r == s,
{
    let x = decimal_text(a);
    let y = decimal_text(b);
    lemma_decimal_text_has_no_comma(a);
    lemma_decimal_text_has_no_comma(b);
    if x.len() < y.len() {
        assert((x + then + r)[x.len() as int] == then[0]);
    } else if y.len() < x.len() {
        assert((y + then + s)[y.len() as int] == then[0]);
    } else {
        assert(x + then + r =~= x + (then + r));
        assert(y + then + s =~= y + (then + s));
        crate::blockchain::lemma_joined_texts_split(x, then + r, y, then + s);
        lemma_decimal_text_is_injective(a, b);
        crate::text::lemma_same_prefix_cancels(then, r, s);
    }
}

/// Two decimal numerals, each followed by the same text that begins with
/// a comma, are read alike, and are the same text for the same number
/// only.
pub proof fn lemma_numerals_are_read_alike(a: nat, b: nat, then: Seq<char>)
    requires
        then.len() > 0,
        then[0] == ',',
    ensures
        read_alike(decimal_text(a) + then, decimal_text(b) + then),
        decimal_text(a) + then == decimal_text(b) + then ==> a == b,
{
    let x = decimal_text(a) + then;
    let y = decimal_text(b) + then;
    assert forall|r: Seq<char>, s: Seq<char>| #[trigger] (x + r) == #[trigger] (y + s) implies x == y
        && r == s by {
        lemma_numerals_that_begin_alike(a, b, then, r, s);
    }
    if x == y {
        let nothing = Seq::<char>::empty();
        lemma_numerals_that_begin_alike(a, b, then, nothing, nothing);
    }
}

/// The JSON texts of two optional strings are read alike, and are the
/// same text for the same value only.
pub proof fn lemma_optionals_are_read_alike(a: Option<Seq<char>>, b: Option<Seq<char>>)
    ensures
        read_alike(json_optional_text(a), json_optional_text(b)),
        json_optional_text(a) == json_optional_text(b) ==> a == b,
{
    reveal_strlit("null");
    let x = json_optional_text(a);
    let y = json_optional_text(b);
    match (a, b) {
        (Some(t), Some(u)) => {
            lemma_json_strings_are_read_alike(t, u);
        },
        (None, None) => {
            lemma_same_text_is_read_alike(x);
        },
        _ => {
            assert(x[0] != y[0]);
            assert forall|r: Seq<char>, s: Seq<char>| #[trigger] (x + r) == #[trigger] (y + s) implies x
                == y && r == s by {
                assert((x + r)[0] == x[0]);
            }
        },
    }
}

/// The JSON texts of two statuses are read alike, and are the same text
/// for the same status only.
pub proof fn lemma_statuses_are_read_alike(a: TransactionStatus, b: TransactionStatus)
    ensures
        read_alike(status_text(a), status_text(b)),
        status_text(a) == status_text(b) ==> a == b,
{
    reveal_strlit("\"pending\"");
    reveal_strlit("\"confirmed\"");
    let x = status_text(a);
    let y = status_text(b);
    if a == b {
        lemma_same_text_is_read_alike(x);
    } else {
        assert forall|r: Seq<char>, s: Seq<char>| #[trigger] (x + r) == #[trigger] (y + s) implies x
            == y && r == s by {
            assert((x + r)[1] == x[1]);
        }
    }
}

/// The items joined by commas are the first item alone, or the first
/// item, a comma, and the rest joined by commas.
pub proof fn lemma_comma_separated_from_the_left(items: Seq<Seq<char>>)
    requires
        items.len() > 0,
    ensures
        comma_separated(items) == if items.len() == 1 {
            items[0]
        } else {
            items[0] + ","@ + comma_separated(items.drop_first())
        },
    decreases items.len(),
{
    if items.len() == 2 {
        assert(comma_separated(items.drop_last()) == items[0]);
    } else if items.len() > 2 {
        let front = items.drop_last();
        let back = items.drop_first();
        lemma_comma_separated_from_the_left(front);
        assert(front.drop_first() =~= back.drop_last());
    }
}

/// Every item of the one list is read alike with every item of the other.
pub open spec fn items_read_alike(a: Seq<Seq<char>>, b: Seq<Seq<char>>) -> bool {
    forall|i: int, j: int|
        0 <= i < a.len() && 0 <= j < b.len() ==> read_alike(#[trigger] a[i], #[trigger] b[j])
}

/// Every item begins with the character `open`.
pub open spec fn items_begin_with(a: Seq<Seq<char>>, open: char) -> bool {
    forall|i: int| 0 <= i < a.len() ==> (#[trigger] a[i]).len() > 0 && a[i][0] == open
}

/// Equal texts that begin with two lists of items joined by commas and
/// closed by a bracket begin with the same items and go on alike, where
/// the items are read alike and begin with a character that is not the
/// closing bracket.
pub proof fn lemma_lists_that_begin_alike(
    a: Seq<Seq<char>>,
    b: Seq<Seq<char>>,
    open: char,
    r: Seq<char>,
    s: Seq<char>,
)
    requires
        open != ']',
        items_read_alike(a, b),
        items_begin_with(a, open),
        items_begin_with(b, open),
        comma_separated(a) + "]"@ + r == comma_separated(b) + "]"@ + s,
    ensures
        a == b,
        r == s,
    decreases a.len(),
{
    reveal_strlit("]");
    reveal_strlit(",");
    let close = "]"@;
    let comma = ","@;
    if a.len() == 0 && b.len() == 0 {
        crate::text::lemma_same_prefix_cancels(close, r, s);
    } else if a.len() == 0 {
        lemma_comma_separated_from_the_left(b);
        assert((comma_separated(a) + close + r)[0] == ']');
    } else if b.len() == 0 {
        lemma_comma_separated_from_the_left(a);
        assert((comma_separated(b) + close + s)[0] == ']');
    } else {
        lemma_comma_separated_from_the_left(a);
        lemma_comma_separated_from_the_left(b);
        let rest_a = a.drop_first();
        let rest_b = b.drop_first();
        let after_a = if a.len() == 1 {
            close + r
        } else {
            comma + (comma_separated(rest_a) + close + r)
        };
        let after_b = if b.len() == 1 {
            close + s
        } else {
            comma + (comma_separated(rest_b) + close + s)
        };
        assert(comma_separated(a) + close + r =~= a[0] + after_a);
        assert(comma_separated(b) + close + s =~= b[0] + after_b);
        assert(after_a[0] == if a.len() == 1 {
            ']'
        } else {
            ','
        });
        if a.len() == 1 {
            crate::text::lemma_same_prefix_cancels(close, r, s);
        } else {
            crate::text::lemma_same_prefix_cancels(
                comma,
                comma_separated(rest_a) + close + r,
                comma_separated(rest_b) + close + s,
            );
            lemma_lists_that_begin_alike(rest_a, rest_b, open, r, s);
            assert(a =~= seq![a[0]] + rest_a);
        }
    }
}

/// Two JSON arrays of items that are read alike and begin with a
/// character that is not the closing bracket are read alike, and are the
/// same text for the same items only.
pub proof fn lemma_arrays_are_read_alike(a: Seq<Seq<char>>, b: Seq<Seq<char>>, open: char)
    requires
        open != ']',
        items_read_alike(a, b),
        items_begin_with(a, open),
        items_begin_with(b, open),
    ensures
        read_alike(json_array_text(a), json_array_text(b)),
        json_array_text(a) == json_array_text(b) ==> a == b,
{
    let x = json_array_text(a);
    let y = json_array_text(b);
    let start = "["@;
    assert forall|r: Seq<char>, s: Seq<char>| #[trigger] (x + r) == #[trigger] (y + s) implies x == y
        && r == s by {
        assert(x + r =~= start + (comma_separated(a) + "]"@ + r));
        assert(y + s =~= start + (comma_separated(b) + "]"@ + s));
        crate::text::lemma_same_prefix_cancels(
            start,
            comma_separated(a) + "]"@ + r,
            comma_separated(b) + "]"@ + s,
        );
        lemma_lists_that_begin_alike(a, b, open, r, s);
    }
    if x == y {
        let nothing = Seq::<char>::empty();
        assert(x =~= start + (comma_separated(a) + "]"@ + nothing));
        assert(y =~= start + (comma_separated(b) + "]"@ + nothing));
        crate::text::lemma_same_prefix_cancels(
            start,
            comma_separated(a) + "]"@ + nothing,
            comma_separated(b) + "]"@ + nothing,
        );
        lemma_lists_that_begin_alike(a, b, open, nothing, nothing);
    }
}

/// The JSON strings of two lists of texts, as arrays, are read alike, and
/// are the same text for the same list only.
pub proof fn lemma_string_arrays_are_read_alike(a: Seq<Seq<char>>, b: Seq<Seq<char>>)
    ensures
        read_alike(
            json_array_text(a.map_values(|s: Seq<char>| json_string_text(s))),
            json_array_text(b.map_values(|s: Seq<char>| json_string_text(s))),
        ),
        json_array_text(a.map_values(|s: Seq<char>| json_string_text(s))) == json_array_text(
            b.map_values(|s: Seq<char>| json_string_text(s)),
        ) ==> a == b,
{
    let ja = a.map_values(|s: Seq<char>| json_string_text(s));
    let jb = b.map_values(|s: Seq<char>| json_string_text(s));
    assert forall|i: int, j: int| 0 <= i < ja.len() && 0 <= j < jb.len() implies read_alike(
        #[trigger] ja[i],
        #[trigger] jb[j],
    ) by {
        lemma_json_strings_are_read_alike(a[i], b[j]);
    }
    lemma_arrays_are_read_alike(ja, jb, '"');
    if json_array_text(ja) == json_array_text(jb) {
        assert forall|i: int| 0 <= i < a.len() implies a[i] == b[i] by {
            assert(ja[i] == jb[i]);
            lemma_json_strings_are_read_alike(a[i], b[i]);
        }
    }
}

/// The parts of a transaction's canonical text, in order: the names of
/// the fields and the values between them.  The amount stands together
/// with the name that follows it.
pub open spec fn transaction_parts(t: TransactionView) -> Seq<Seq<char>> {
    Seq::<Seq<char>>::empty()
        .push("{\"transaction_hash\":"@)
        .push(json_string_text(t.transaction_hash))
        .push(",\"sender_wallet_id\":"@)
        .push(json_string_text(t.sender_wallet_id))
        .push(",\"recipient_wallet_id\":"@)
        .push(json_string_text(t.recipient_wallet_id))
        .push(",\"amount\":"@)
        .push(decimal_text(t.amount) + ",\"note\":"@)
        .push(json_optional_text(t.note))
        .push(",\"timestamp\":"@)
        .push(json_string_text(utc_rfc3339_text(t.timestamp.nanos as int)))
        .push(",\"sender_public_key\":"@)
        .push(json_string_text(t.sender_public_key))
        .push(",\"digital_signature\":"@)
        .push(json_string_text(t.digital_signature))
        .push(",\"input_utxos\":"@)
        .push(json_array_text(t.input_utxos.map_values(|s: Seq<char>| json_string_text(s))))
        .push(",\"output_utxo\":"@)
        .push(json_string_text(t.output_utxo))
        .push(",\"change_utxo\":"@)
        .push(json_optional_text(t.change_utxo))
        .push(",\"status\":"@)
        .push(status_text(t.status))
        .push(",\"block_hash\":"@)
        .push(json_optional_text(t.block_hash))
        .push("}"@)
}

/// A transaction's canonical text is its parts joined in order.
#[verifier::rlimit(50)]
pub proof fn lemma_transaction_text_is_flat(t: TransactionView)
    ensures
        transaction_text(t) == flat(transaction_parts(t)),
        transaction_parts(t).len() == 26,
{
    let upto = Seq::<Seq<char>>::empty();
    let upto_0 = upto.push("{\"transaction_hash\":"@);
    lemma_flat_after_push(upto, "{\"transaction_hash\":"@);
    let upto_1 = upto_0.push(json_string_text(t.transaction_hash));
    lemma_flat_after_push(upto_0, json_string_text(t.transaction_hash));
    let upto_2 = upto_1.push(",\"sender_wallet_id\":"@);
    lemma_flat_after_push(upto_1, ",\"sender_wallet_id\":"@);
    let upto_3 = upto_2.push(json_string_text(t.sender_wallet_id));
    lemma_flat_after_push(upto_2, json_string_text(t.sender_wallet_id));
    let upto_4 = upto_3.push(",\"recipient_wallet_id\":"@);
    lemma_flat_after_push(upto_3, ",\"recipient_wallet_id\":"@);
    let upto_5 = upto_4.push(json_string_text(t.recipient_wallet_id));
    lemma_flat_after_push(upto_4, json_string_text(t.recipient_wallet_id));
    let upto_6 = upto_5.push(",\"amount\":"@);
    lemma_flat_after_push(upto_5, ",\"amount\":"@);
    let upto_7 = upto_6.push(decimal_text(t.amount) + ",\"note\":"@);
    lemma_flat_after_push(upto_6, decimal_text(t.amount) + ",\"note\":"@);
    lemma_join_is_associative(flat(upto_6), decimal_text(t.amount), ",\"note\":"@);
    let upto_8 = upto_7.push(json_optional_text(t.note));
    lemma_flat_after_push(upto_7, json_optional_text(t.note));
    let upto_9 = upto_8.push(",\"timestamp\":"@);
    lemma_flat_after_push(upto_8, ",\"timestamp\":"@);
    let upto_10 = upto_9.push(json_string_text(utc_rfc3339_text(t.timestamp.nanos as int)));
    lemma_flat_after_push(upto_9, json_string_text(utc_rfc3339_text(t.timestamp.nanos as int)));
    let upto_11 = upto_10.push(",\"sender_public_key\":"@);
    lemma_flat_after_push(upto_10, ",\"sender_public_key\":"@);
    let upto_12 = upto_11.push(json_string_text(t.sender_public_key));
    lemma_flat_after_push(upto_11, json_string_text(t.sender_public_key));
    let upto_13 = upto_12.push(",\"digital_signature\":"@);
    lemma_flat_after_push(upto_12, ",\"digital_signature\":"@);
    let upto_14 = upto_13.push(json_string_text(t.digital_signature));
    lemma_flat_after_push(upto_13, json_string_text(t.digital_signature));
    let upto_15 = upto_14.push(",\"input_utxos\":"@);
    lemma_flat_after_push(upto_14, ",\"input_utxos\":"@);
    let inputs = json_array_text(t.input_utxos.map_values(|s: Seq<char>| json_string_text(s)));
    let upto_16 = upto_15.push(inputs);
    lemma_flat_after_push(upto_15, inputs);
    let upto_17 = upto_16.push(",\"output_utxo\":"@);
    lemma_flat_after_push(upto_16, ",\"output_utxo\":"@);
    let upto_18 = upto_17.push(json_string_text(t.output_utxo));
    lemma_flat_after_push(upto_17, json_string_text(t.output_utxo));
    let upto_19 = upto_18.push(",\"change_utxo\":"@);
    lemma_flat_after_push(upto_18, ",\"change_utxo\":"@);
    let upto_20 = upto_19.push(json_optional_text(t.change_utxo));
    lemma_flat_after_push(upto_19, json_optional_text(t.change_utxo));
    let upto_21 = upto_20.push(",\"status\":"@);
    lemma_flat_after_push(upto_20, ",\"status\":"@);
    let upto_22 = upto_21.push(status_text(t.status));
    lemma_flat_after_push(upto_21, status_text(t.status));
    let upto_23 = upto_22.push(",\"block_hash\":"@);
    lemma_flat_after_push(upto_22, ",\"block_hash\":"@);
    let upto_24 = upto_23.push(json_optional_text(t.block_hash));
    lemma_flat_after_push(upto_23, json_optional_text(t.block_hash));
    lemma_flat_after_push(upto_24, "}"@);
}

/// Two instants differ and have the same RFC 3339 text.
pub open spec fn time_texts_collide(x: Timestamp, y: Timestamp) -> bool {
    x != y && utc_rfc3339_text(x.nanos as int) == utc_rfc3339_text(y.nanos as int)
}

/// The canonical texts of two transactions are read alike, and are the
/// same text for the same transaction only, unless the times of the two
/// differ and have the same RFC 3339 text.
#[verifier::rlimit(50)]
pub proof fn lemma_transactions_are_read_alike(a: TransactionView, b: TransactionView)
    ensures
        read_alike(transaction_text(a), transaction_text(b)),
        transaction_text(a) == transaction_text(b) ==> a == b || time_texts_collide(
            a.timestamp,
            b.timestamp,
        ),
        transaction_text(a).len() > 0,
        transaction_text(a)[0] == '{',
{
    reveal_strlit(",\"note\":");
    reveal_strlit("{\"transaction_hash\":");
    let p = transaction_parts(a);
    let q = transaction_parts(b);
    lemma_transaction_text_is_flat(a);
    lemma_transaction_text_is_flat(b);
    lemma_same_text_is_read_alike("{\"transaction_hash\":"@);
    assert(p[1] == json_string_text(a.transaction_hash));
    lemma_json_strings_are_read_alike(a.transaction_hash, b.transaction_hash);
    lemma_same_text_is_read_alike(",\"sender_wallet_id\":"@);
    assert(p[3] == json_string_text(a.sender_wallet_id));
    lemma_json_strings_are_read_alike(a.sender_wallet_id, b.sender_wallet_id);
    lemma_same_text_is_read_alike(",\"recipient_wallet_id\":"@);
    assert(p[5] == json_string_text(a.recipient_wallet_id));
    lemma_json_strings_are_read_alike(a.recipient_wallet_id, b.recipient_wallet_id);
    lemma_same_text_is_read_alike(",\"amount\":"@);
    assert(p[7] == decimal_text(a.amount) + ",\"note\":"@);
    lemma_numerals_are_read_alike(a.amount, b.amount, ",\"note\":"@);
    assert(p[8] == json_optional_text(a.note));
    lemma_optionals_are_read_alike(a.note, b.note);
    lemma_same_text_is_read_alike(",\"timestamp\":"@);
    assert(p[10] == json_string_text(utc_rfc3339_text(a.timestamp.nanos as int)));
    lemma_json_strings_are_read_alike(
        utc_rfc3339_text(a.timestamp.nanos as int),
        utc_rfc3339_text(b.timestamp.nanos as int),
    );
    lemma_same_text_is_read_alike(",\"sender_public_key\":"@);
    assert(p[12] == json_string_text(a.sender_public_key));
    lemma_json_strings_are_read_alike(a.sender_public_key, b.sender_public_key);
    lemma_same_text_is_read_alike(",\"digital_signature\":"@);
    assert(p[14] == json_string_text(a.digital_signature));
    lemma_json_strings_are_read_alike(a.digital_signature, b.digital_signature);
    lemma_same_text_is_read_alike(",\"input_utxos\":"@);
    assert(p[16] == json_array_text(a.input_utxos.map_values(|s: Seq<char>| json_string_text(s))));
    lemma_string_arrays_are_read_alike(a.input_utxos, b.input_utxos);
    lemma_same_text_is_read_alike(",\"output_utxo\":"@);
    assert(p[18] == json_string_text(a.output_utxo));
    lemma_json_strings_are_read_alike(a.output_utxo, b.output_utxo);
    lemma_same_text_is_read_alike(",\"change_utxo\":"@);
    assert(p[20] == json_optional_text(a.change_utxo));
    lemma_optionals_are_read_alike(a.change_utxo, b.change_utxo);
    lemma_same_text_is_read_alike(",\"status\":"@);
    assert(p[22] == status_text(a.status));
    lemma_statuses_are_read_alike(a.status, b.status);
    lemma_same_text_is_read_alike(",\"block_hash\":"@);
    assert(p[24] == json_optional_text(a.block_hash));
    lemma_optionals_are_read_alike(a.block_hash, b.block_hash);
    lemma_same_text_is_read_alike("}"@);
    let x = transaction_text(a);
    let y = transaction_text(b);
    assert forall|r: Seq<char>, s: Seq<char>| #[trigger] (x + r) == #[trigger] (y + s) implies x == y
        && r == s by {
        lemma_parts_that_begin_alike(p, q, r, s);
    }
    if x == y {
        let nothing = Seq::<char>::empty();
        lemma_parts_that_begin_alike(p, q, nothing, nothing);
    }
    lemma_flat_from_the_left(p);
}

/// At some same place of the two lists stand transactions whose times
/// differ and have the same RFC 3339 text.
pub open spec fn times_collide(a: Seq<TransactionView>, b: Seq<TransactionView>) -> bool {
    exists|i: int|
        0 <= i < a.len() && i < b.len() && #[trigger] time_texts_collide(
            a[i].timestamp,
            b[i].timestamp,
        )
}

/// The canonical text tells transaction lists apart: two lists with the
/// same canonical text are the same list, in length, order and every
/// field of every transaction, unless two times at the same place differ
/// and have the same RFC 3339 text.
pub proof fn canonical_text_tells_lists_apart(a: Seq<TransactionView>, b: Seq<TransactionView>)
    requires
        transactions_text(a) == transactions_text(b),
    ensures
        a == b || times_collide(a, b),
{
    let ta = a.map_values(|t: TransactionView| transaction_text(t));
    let tb = b.map_values(|t: TransactionView| transaction_text(t));
    assert forall|i: int, j: int| 0 <= i < ta.len() && 0 <= j < tb.len() implies read_alike(
        #[trigger] ta[i],
        #[trigger] tb[j],
    ) by {
        lemma_transactions_are_read_alike(a[i], b[j]);
    }
    assert forall|i: int| 0 <= i < ta.len() implies (#[trigger] ta[i]).len() > 0 && ta[i][0]
        == '{' by {
        lemma_transactions_are_read_alike(a[i], a[i]);
    }
    assert forall|i: int| 0 <= i < tb.len() implies (#[trigger] tb[i]).len() > 0 && tb[i][0]
        == '{' by {
        lemma_transactions_are_read_alike(b[i], b[i]);
    }
    lemma_arrays_are_read_alike(ta, tb, '{');
    if !times_collide(a, b) {
        assert forall|i: int| 0 <= i < a.len() implies a[i] == b[i] by {
            assert(ta[i] == tb[i]);
            lemma_transactions_are_read_alike(a[i], b[i]);
        }
    }
}

} // verus!

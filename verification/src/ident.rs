//! Identifiers: a category followed by a serial number.
//!
//! An identifier is the category's text, the separator `#`, and the serial
//! number in decimal. Two identifiers with different serial numbers differ,
//! whatever their categories are, because the decimal digits hold no `#`.

use crate::sync::guarded;
use crate::sync::lock;
use crate::sync::new_mutex;
use std::sync::Arc;
use std::sync::Mutex;
use vstd::prelude::*;

verus! {

/// The character that stands for the digit `d`, for `d < 10`.
pub open spec fn digit_char(d: nat) -> char {
    if d == 0 {
        '0'
    } else if d == 1 {
        '1'
    } else if d == 2 {
        '2'
    } else if d == 3 {
        '3'
    } else if d == 4 {
        '4'
    } else if d == 5 {
        '5'
    } else if d == 6 {
        '6'
    } else if d == 7 {
        '7'
    } else if d == 8 {
        '8'
    } else {
        '9'
    }
}

/// The decimal digits of `n`, most significant first, without leading zeros.
pub open spec fn decimal(n: nat) -> Seq<char>
    decreases n,
{
    if n < 10 {
        seq![digit_char(n)]
    } else {
        decimal(n / 10).push(digit_char(n % 10))
    }
}

/// The identifier with the given category and serial number.
pub open spec fn id_text(category: Seq<char>, serial: nat) -> Seq<char> {
    category + seq!['#'] + decimal(serial)
}

/// The serial number that follows `serial`: the counter starts again at zero
/// after the largest `u64`.
pub open spec fn next_serial(serial: u64) -> u64 {
    if serial == u64::MAX {
        0
    } else {
        (serial + 1) as u64
    }
}

/// The serial number that is issued `steps` issues after `start`.
pub open spec fn serial_after(start: u64, steps: nat) -> u64
    decreases steps,
{
    if steps == 0 {
        start
    } else {
        next_serial(serial_after(start, (steps - 1) as nat))
    }
}

/// A decimal rendering is never empty and holds no separator.
pub proof fn lemma_decimal_has_digits_only(n: nat)
    ensures
        decimal(n).len() >= 1,
        n >= 10 ==> decimal(n).len() >= 2,
        forall|i: int| 0 <= i < decimal(n).len() ==> #[trigger] decimal(n)[i] != '#',
    decreases n,
{
    if n >= 10 {
        lemma_decimal_has_digits_only(n / 10);
    }
}

/// The digits below ten have ten different characters.
pub proof fn lemma_digit_char_injective(a: nat, b: nat)
    requires
        a < 10,
        b < 10,
        digit_char(a) == digit_char(b),
    ensures
        a == b,
{
}

/// Different numbers have different decimal renderings.
pub proof fn lemma_decimal_injective(a: nat, b: nat)
    requires
        decimal(a) == decimal(b),
    ensures
        a == b,
    decreases a,
{
    lemma_decimal_has_digits_only(a);
    lemma_decimal_has_digits_only(b);
    if a < 10 {
        assert(decimal(a).len() == 1);
        assert(b < 10);
        assert(decimal(a)[0] == digit_char(a));
        assert(decimal(b)[0] == digit_char(b));
        lemma_digit_char_injective(a, b);
    } else {
        assert(decimal(a).len() >= 2);
        if b < 10 {
            assert(decimal(b).len() == 1);
        }
        assert(b >= 10);
        let da = decimal(a / 10);
        let db = decimal(b / 10);
        assert(decimal(a) == da.push(digit_char(a % 10)));
        assert(decimal(b) == db.push(digit_char(b % 10)));
        assert(da.push(digit_char(a % 10)).last() == digit_char(a % 10));
        assert(db.push(digit_char(b % 10)).last() == digit_char(b % 10));
        lemma_digit_char_injective(a % 10, b % 10);
        assert(da.push(digit_char(a % 10)).drop_last() =~= da);
        assert(db.push(digit_char(b % 10)).drop_last() =~= db);
        assert(da == db);
        lemma_decimal_injective(a / 10, b / 10);
    }
}

/// An identifier determines its category and its serial number.
pub proof fn lemma_id_text_injective(c1: Seq<char>, n1: nat, c2: Seq<char>, n2: nat)
    requires
        id_text(c1, n1) == id_text(c2, n2),
    ensures
        c1 == c2,
        n1 == n2,
{
    let s1 = id_text(c1, n1);
    let s2 = id_text(c2, n2);
    let d1 = decimal(n1);
    let d2 = decimal(n2);
    lemma_decimal_has_digits_only(n1);
    lemma_decimal_has_digits_only(n2);
    assert(s1.len() == c1.len() + 1 + d1.len());
    assert(s2.len() == c2.len() + 1 + d2.len());
    assert(s1[c1.len() as int] == '#');
    assert(s2[c2.len() as int] == '#');
    if c1.len() < c2.len() {
        let k = c2.len() as int;
        assert(s1[k] == d1[k - c1.len() - 1]);
        assert(false);
    }
    if c2.len() < c1.len() {
        let k = c1.len() as int;
        assert(s2[k] == d2[k - c2.len() - 1]);
        assert(false);
    }
    assert(c1 =~= s1.subrange(0, c1.len() as int));
    assert(c2 =~= s2.subrange(0, c2.len() as int));
    assert(d1 =~= s1.subrange(c1.len() as int + 1, s1.len() as int));
    assert(d2 =~= s2.subrange(c2.len() as int + 1, s2.len() as int));
    lemma_decimal_injective(n1, n2);
}

/// Identifiers with different serial numbers are different, whatever their
/// categories are.
pub proof fn law_distinct_serials_give_distinct_ids(
    c1: Seq<char>,
    n1: nat,
    c2: Seq<char>,
    n2: nat,
)
    requires
        n1 != n2,
    ensures
        id_text(c1, n1) != id_text(c2, n2),
{
    if id_text(c1, n1) == id_text(c2, n2) {
        lemma_id_text_injective(c1, n1, c2, n2);
    }
}

/// `serial_after` counts up from `start` and wraps around at `2^64`.
pub proof fn lemma_serial_after_value(start: u64, steps: nat)
    ensures
        serial_after(start, steps) == (start + steps) % 0x1_0000_0000_0000_0000,
    decreases steps,
{
    if steps > 0 {
        lemma_serial_after_value(start, (steps - 1) as nat);
    }
}

/// Any two of the first `2^64` identifiers that are issued one after another
/// from one counter are different, whatever their categories are.
pub proof fn law_issued_ids_are_distinct(
    start: u64,
    i: nat,
    j: nat,
    ci: Seq<char>,
    cj: Seq<char>,
)
    requires
        i < j < 0x1_0000_0000_0000_0000,
    ensures
        id_text(ci, serial_after(start, i) as nat) != id_text(cj, serial_after(start, j) as nat),
{
    lemma_serial_after_value(start, i);
    lemma_serial_after_value(start, j);
    law_distinct_serials_give_distinct_ids(
        ci,
        serial_after(start, i) as nat,
        cj,
        serial_after(start, j) as nat,
    );
}

/// The one-character text of the digit `d`.
fn digit_text(d: u64) -> (r: &'static str)
    requires
        d < 10,
    ensures
        r@ == seq![digit_char(d as nat)],
{
    proof {
        reveal_strlit("0");
        reveal_strlit("1");
        reveal_strlit("2");
        reveal_strlit("3");
        reveal_strlit("4");
        reveal_strlit("5");
        reveal_strlit("6");
        reveal_strlit("7");
        reveal_strlit("8");
        reveal_strlit("9");
    }
    let r: &'static str = if d == 0 {
        "0"
    } else if d == 1 {
        "1"
    } else if d == 2 {
        "2"
    } else if d == 3 {
        "3"
    } else if d == 4 {
        "4"
    } else if d == 5 {
        "5"
    } else if d == 6 {
        "6"
    } else if d == 7 {
        "7"
    } else if d == 8 {
        "8"
    } else {
        "9"
    };
    assert(r@ =~= seq![digit_char(d as nat)]);
    r
}

/// Appends the decimal digits of `n` to `text`.
fn push_decimal(text: &mut String, n: u64)
    ensures
        final(text)@ == old(text)@ + decimal(n as nat),
    decreases n,
{
    if n >= 10 {
        push_decimal(text, n / 10);
    }
    text.append(digit_text(n % 10));
    assert(text@ =~= old(text)@ + decimal(n as nat));
}

/// Renders the identifier with the given category and serial number.
pub fn render(category: &str, serial: u64) -> (r: String)
    ensures
        r@ == id_text(category@, serial as nat),
{
    let mut text = String::from_str(category);
    proof {
        reveal_strlit("#");
    }
    text.append("#");
    push_decimal(&mut text, serial);
    assert(text@ =~= id_text(category@, serial as nat));
    text
}

/// Issues the identifier for `category` with the serial number that `next`
/// holds, and moves `next` on to the following serial number.
pub fn issue(next: &mut u64, category: &str) -> (r: Arc<String>)
    ensures
        r@ == id_text(category@, *old(next) as nat),
        *final(next) == next_serial(*old(next)),
{
    let serial: u64 = *next;
    *next = if serial == u64::MAX {
        0
    } else {
        serial + 1
    };
    Arc::new(render(category, serial))
}

/// A source of identifiers that many threads can share. One counter serves
/// all categories, so no two of the first `2^64` identifiers of one generator
/// are the same (see [`law_issued_ids_are_distinct`]).
pub struct IdGenerator {
    next: Mutex<u64>,
}

impl IdGenerator {
    /// A generator whose first serial number is zero.
    pub fn new() -> IdGenerator {
        IdGenerator { next: new_mutex(0) }
    }

    /// A fresh identifier for `category`: the category, `#`, and the serial
    /// number that the counter held when this call had the lock. The counter
    /// moves on by [`issue`] while the lock is held.
    pub fn id(&self, category: &str) -> (r: Arc<String>)
        ensures
            exists|serial: u64| r@ == id_text(category@, serial as nat),
    {
        let mut guard = lock(&self.next);
        let next = guarded(&mut guard);
        let ghost serial: u64 = *next;
        let r = issue(next, category);
        assert(r@ == id_text(category@, serial as nat));
        r
    }
}

} // verus!

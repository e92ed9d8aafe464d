//! Text as sequences of characters: strings taken apart, runs of characters
//! of one kind, and numbers written out.

use vstd::prelude::*;
use vstd::string::StringExecFns;

verus! {

/// The characters of a string, in order.
pub fn chars_of(text: &str) -> (chars: Vec<char>)
    ensures
        chars@ == text@,
{
    let mut chars: Vec<char> = Vec::new();
    for c in it: text.chars()
        invariant
            it.seq() == text@,
            chars@ == text@.take(it.index() as int),
    {
        chars.push(c);
        assert(text@.take(it.index() + 1) == text@.take(it.index() as int).push(
            text@[it.index() as int],
        ));
    }
    assert(text@.take(text@.len() as int) == text@);
    chars
}

/// Whether `name` spells `word`.
pub fn is_word(name: &[char], word: &str) -> (same: bool)
    ensures
        same == (name@ == word@),
{
    let n = word.unicode_len();
    if name.len() != n {
        return false;
    }
    let mut i: usize = 0;
    while i < n
        invariant
            i <= n,
            n == name@.len(),
            n == word@.len(),
            forall|k: int| 0 <= k < i ==> name@[k] == word@[k],
        decreases n - i,
    {
        if name[i] != word.get_char(i) {
            return false;
        }
        i += 1;
    }
    assert(name@ =~= word@);
    true
}

/// Where the run of characters that satisfy `p` and starts at `from` ends:
/// the offset of the first character from there on that does not satisfy
/// `p`, or the length of the text.
pub open spec fn run_end(text: Seq<char>, from: int, p: spec_fn(char) -> bool) -> int
    decreases text.len() - from,
{
    if 0 <= from < text.len() && p(text[from]) {
        run_end(text, from + 1, p)
    } else {
        from
    }
}

/// A run ends where it is said to: at `end`, if every character from `from`
/// up to `end` satisfies `p` and the one at `end`, if there is one, does not.
pub proof fn lemma_run_end(text: Seq<char>, from: int, end: int, p: spec_fn(char) -> bool)
    requires
        0 <= from <= end <= text.len(),
        forall|k: int| from <= k < end ==> p(#[trigger] text[k]),
        end < text.len() ==> !p(text[end]),
    ensures
        run_end(text, from, p) == end,
    decreases end - from,
{
    if from < end {
        lemma_run_end(text, from + 1, end, p);
    }
}

/// A run lies within the text, and all of it satisfies the predicate.
pub proof fn lemma_run_within(text: Seq<char>, from: int, p: spec_fn(char) -> bool)
    requires
        0 <= from <= text.len(),
    ensures
        from <= run_end(text, from, p) <= text.len(),
        forall|k: int| from <= k < run_end(text, from, p) ==> p(#[trigger] text[k]),
        run_end(text, from, p) < text.len() ==> !p(text[run_end(text, from, p)]),
    decreases text.len() - from,
{
    if from < text.len() && p(text[from]) {
        lemma_run_within(text, from + 1, p);
    }
}

/// The character that writes a digit.
pub open spec fn digit_char(digit: int) -> char
    recommends
        0 <= digit <= 9,
{
    ('0' as int + digit) as char
}

/// A natural number in decimal digits, without leading zeros.
pub open spec fn decimal_digits(n: nat) -> Seq<char>
    decreases n,
{
    if n < 10 {
        seq![digit_char(n as int)]
    } else {
        decimal_digits(n / 10).push(digit_char(n as int % 10))
    }
}

/// An integer in decimal digits, with `-` in front where it is negative.
pub open spec fn decimal(n: int) -> Seq<char> {
    if n < 0 {
        seq!['-'] + decimal_digits((-n) as nat)
    } else {
        decimal_digits(n as nat)
    }
}

/// The characters of digits that were collected lowest first.
spec fn rendered(digits: Seq<u8>) -> Seq<char> {
    Seq::new(digits.len(), |k: int| digit_char(digits[digits.len() - 1 - k] as int))
}

/// The text of a digit.
fn digit_str(digit: u8) -> (text: &'static str)
    requires
        digit <= 9,
    ensures
        text@ == seq![digit_char(digit as int)],
{
    proof {
        reveal_strlit("0");
        reveal_strlit("1");
        reveal_strlit("2");
        reveal_strlit("3");
        reveal_strlit("4");
        reveal_strlit("5");
        reveal_strlit("6");
        reveal_strlit("7");
        reveal_strlit("8");
        reveal_strlit("9");
    }
    let text = match digit {
        0 => "0",
        1 => "1",
        2 => "2",
        3 => "3",
        4 => "4",
        5 => "5",
        6 => "6",
        7 => "7",
        8 => "8",
        _ => "9",
    };
    assert(text@ =~= seq![digit_char(digit as int)]);
    text
}

/// Writes an integer in decimal digits.
pub fn decimal_string(n: i32) -> (text: String)
    ensures
        text@ == decimal(n as int),
{
    let mut magnitude: u32 = if n < 0 {
        (-(n as i64)) as u32
    } else {
        n as u32
    };
    let ghost whole = magnitude as nat;
    let mut digits: Vec<u8> = Vec::new();
    assert(rendered(digits@) =~= Seq::empty());
    while magnitude >= 10
        invariant
            decimal_digits(whole) == decimal_digits(magnitude as nat) + rendered(digits@),
            forall|k: int| 0 <= k < digits@.len() ==> digits@[k] <= 9,
        decreases magnitude,
    {
        let ghost before = digits@;
        digits.push((magnitude % 10) as u8);
        assert(rendered(digits@) =~= seq![digit_char(magnitude as int % 10)] + rendered(before));
        assert(decimal_digits(magnitude as nat) + rendered(before) =~= decimal_digits(
            magnitude as nat / 10,
        ) + rendered(digits@));
        magnitude = magnitude / 10;
    }
    let ghost before = digits@;
    digits.push(magnitude as u8);
    assert(rendered(digits@) =~= decimal_digits(magnitude as nat) + rendered(before));
    let mut text = String::new();
    if n < 0 {
        proof {
            reveal_strlit("-");
        }
        text.append("-");
    }
    let ghost sign = text@;
    assert(sign =~= if n < 0 {
        seq!['-']
    } else {
        Seq::empty()
    });
    let mut i = digits.len();
    while i > 0
        invariant
            i <= digits@.len(),
            forall|k: int| 0 <= k < digits@.len() ==> digits@[k] <= 9,
            text@ == sign + rendered(digits@).take(digits@.len() - i),
        decreases i,
    {
        i -= 1;
        text.append(digit_str(digits[i]));
        assert(text@ =~= sign + rendered(digits@).take(digits@.len() - i));
    }
    assert(rendered(digits@).take(digits@.len() as int) =~= rendered(digits@));
    text
}

} // verus!

//! Text helpers: comparison, decimal numbers, case folding and substring search.

use vstd::prelude::*;
use vstd::string::*;

verus! {

/// The digit character of a number below ten.
pub open spec fn digit(d: nat) -> char {
    (('0' as u32 + d) as u32) as char
}

/// The decimal numeral of a number, without sign and without leading zeros.
pub open spec fn decimal(n: nat) -> Seq<char>
    decreases n,
{
    if n < 10 {
        seq![digit(n)]
    } else {
        decimal(n / 10).push(digit(n % 10))
    }
}

/// The lower-case form of a character: ASCII capitals are folded, all others stay.
pub open spec fn ascii_lower(c: char) -> char {
    if 'A' <= c && c <= 'Z' {
        ((c as u32 + 32) as u32) as char
    } else {
        c
    }
}

/// The lower-case form of a text.
pub open spec fn lowered(s: Seq<char>) -> Seq<char> {
    s.map_values(|c: char| ascii_lower(c))
}

/// Whether `needle` stands somewhere in `hay` as one contiguous run.
pub open spec fn has_run(hay: Seq<char>, needle: Seq<char>) -> bool {
    exists|i: int| #[trigger] run_at(hay, needle, i)
}

/// Whether `needle` stands in `hay` from position `i` on.
pub open spec fn run_at(hay: Seq<char>, needle: Seq<char>, i: int) -> bool {
    &&& 0 <= i
    &&& i + needle.len() <= hay.len()
    &&& hay.subrange(i, i + needle.len()) == needle
}

/// The characters of an optional text.
pub open spec fn optional_text(s: Option<String>) -> Option<Seq<char>> {
    match s {
        Some(t) => Some(t@),
        None => None,
    }
}

/// An optional text has the characters of the text, where there is one.
pub proof fn law_optional_text(s: Option<String>)
    ensures
        s is Some <==> optional_text(s) is Some,
        s is Some ==> optional_text(s)->0 == s->0@,
{
}

/// The number that a sequence of digit characters stands for.
pub open spec fn numeral_value(s: Seq<char>) -> int
    decreases s.len(),
{
    if s.len() == 0 {
        0
    } else {
        10 * numeral_value(s.drop_last()) + (s.last() as u32 - '0' as u32)
    }
}

/// A numeral is made of the characters '0' to '9', begins with '0' only where it is "0", and
/// stands for the number that it was made of.
pub proof fn law_decimal_stands_for_its_number(n: nat)
    ensures
        decimal(n).len() > 0,
        forall|i: int| 0 <= i < decimal(n).len() ==> '0' <= #[trigger] decimal(n)[i] <= '9',
        decimal(n)[0] == '0' ==> n == 0 && decimal(n).len() == 1,
        numeral_value(decimal(n)) == n,
    decreases n,
{
    if n < 10 {
        assert(decimal(n).drop_last() =~= seq![]);
        assert(numeral_value(decimal(n).drop_last()) == 0);
    } else {
        law_decimal_stands_for_its_number(n / 10);
        assert(decimal(n).drop_last() =~= decimal(n / 10));
    }
}

/// Different numbers have different numerals.
pub proof fn law_decimal_is_unambiguous(m: nat, n: nat)
    ensures
        decimal(m) == decimal(n) ==> m == n,
{
    law_decimal_stands_for_its_number(m);
    law_decimal_stands_for_its_number(n);
}

/// Lower case keeps the length, moves the letters 'A' to 'Z' up by 32 and keeps all other
/// characters.
pub proof fn law_lowered_folds_capitals_only(s: Seq<char>)
    ensures
        lowered(s).len() == s.len(),
        forall|i: int|
            0 <= i < s.len() && 'A' <= s[i] <= 'Z' ==> #[trigger] lowered(s)[i] as u32 == s[i] as u32
                + 32,
        forall|i: int|
            0 <= i < s.len() && !('A' <= s[i] <= 'Z') ==> #[trigger] lowered(s)[i] == s[i],
{
}

/// A text stands in another exactly where that other one is something, the text, and something.
pub proof fn law_run_is_a_part(hay: Seq<char>, needle: Seq<char>)
    ensures
        has_run(hay, needle) <==> exists|before: Seq<char>, after: Seq<char>|
            hay == #[trigger] (before + needle + after),
{
    if has_run(hay, needle) {
        let i = choose|i: int| #[trigger] run_at(hay, needle, i);
        let before = hay.take(i);
        let after = hay.skip(i + needle.len());
        assert(hay =~= before + needle + after) by {
            assert forall|k: int| i <= k < i + needle.len() implies hay[k] == needle[k - i] by {
                assert(hay.subrange(i, i + needle.len())[k - i] == hay[k]);
            }
        }
    }
    if exists|before: Seq<char>, after: Seq<char>| hay == #[trigger] (before + needle + after) {
        let (before, after) = choose|before: Seq<char>, after: Seq<char>|
            hay == #[trigger] (before + needle + after);
        let i = before.len() as int;
        assert(hay.subrange(i, i + needle.len()) =~= needle);
        assert(run_at(hay, needle, i));
    }
}

/// Whether two texts have the same characters.
pub fn same_text(a: &str, b: &str) -> (r: bool)
    ensures
        r == (a@ == b@),
{
    let x = a.as_bytes();
    let y = b.as_bytes();
    proof {
        vstd::utf8::encode_utf8_decode_utf8(a@);
        vstd::utf8::encode_utf8_decode_utf8(b@);
    }
    if x.len() != y.len() {
        return false;
    }
    let mut i: usize = 0;
    while i < x.len()
        invariant
            i <= x.len(),
            x@.len() == y@.len(),
            x@ == vstd::utf8::encode_utf8(a@),
            y@ == vstd::utf8::encode_utf8(b@),
            forall|j: int| 0 <= j < i ==> x@[j] == y@[j],
        decreases x.len() - i,
    {
        if x[i] != y[i] {
            return false;
        }
        i = i + 1;
    }
    assert(x@ =~= y@);
    true
}

/// The text of a digit.
fn digit_text(d: u64) -> (r: &'static str)
    requires
        d < 10,
    ensures
        r@ == seq![digit(d as nat)],
{
    proof {
        reveal_strlit("0");
        reveal_strlit("1");
        reveal_strlit("2");
        reveal_strlit("3");
        reveal_strlit("4");
        reveal_strlit("5");
        reveal_strlit("6");
        reveal_strlit("7");
        reveal_strlit("8");
        reveal_strlit("9");
    }
    let r = match d {
        0 => "0",
        1 => "1",
        2 => "2",
        3 => "3",
        4 => "4",
        5 => "5",
        6 => "6",
        7 => "7",
        8 => "8",
        _ => "9",
    };
    assert(r@ =~= seq![digit(d as nat)]);
    r
}

/// Writes a number in decimal.
pub fn decimal_text(n: u64) -> (r: String)
    ensures
        r@ == decimal(n as nat),
    decreases n,
{
    if n < 10 {
        digit_text(n).to_owned()
    } else {
        let mut r = decimal_text(n / 10);
        r.append(digit_text(n % 10));
        assert(r@ =~= decimal(n as nat));
        r
    }
}

/// The characters of a text, ASCII capitals folded to lower case.
pub fn ascii_lowercase(s: &str) -> (r: Vec<char>)
    ensures
        r@ == lowered(s@),
{
    let mut r: Vec<char> = Vec::new();
    for c in it: s.chars()
        invariant
            it.seq() == s@,
            r@ == lowered(s@.take(it.index() as int)),
    {
        let folded = if 'A' <= c && c <= 'Z' {
            ((c as u8) + 32) as char
        } else {
            c
        };
        r.push(folded);
        proof {
            let n = it.index() as int;
            assert(s@.take(n + 1) =~= s@.take(n).push(c));
            assert(r@ =~= lowered(s@.take(n + 1)));
        }
    }
    assert(s@.take(s@.len() as int) =~= s@);
    r
}

/// Whether the characters of `needle` stand in `hay` as one contiguous run.
pub fn contains_run(hay: &Vec<char>, needle: &str) -> (r: bool)
    ensures
        r == has_run(hay@, needle@),
{
    let mut wanted: Vec<char> = Vec::new();
    for c in it: needle.chars()
        invariant
            it.seq() == needle@,
            wanted@ == needle@.take(it.index() as int),
    {
        wanted.push(c);
        assert(needle@.take(it.index() as int + 1) =~= needle@.take(it.index() as int).push(c));
    }
    assert(wanted@ =~= needle@);
    let n: usize = wanted.len();
    if n > hay.len() {
        return false;
    }
    let last: usize = hay.len() - n;
    let mut i: usize = 0;
    while i <= last
        invariant
            n == wanted@.len(),
            last + n == hay.len(),
            wanted@ == needle@,
            forall|j: int| 0 <= j < i ==> !run_at(hay@, needle@, j),
        decreases last + 1 - i,
    {
        let mut k: usize = 0;
        while k < n && hay[i + k] == wanted[k]
            invariant
                k <= n,
                i <= last,
                n == wanted@.len(),
                last + n == hay.len(),
                forall|j: int| 0 <= j < k ==> hay@[i + j] == wanted@[j],
            decreases n - k,
        {
            k = k + 1;
        }
        if k == n {
            assert(hay@.subrange(i as int, i + n) =~= needle@);
            assert(run_at(hay@, needle@, i as int));
            return true;
        }
        assert(!run_at(hay@, needle@, i as int)) by {
            if run_at(hay@, needle@, i as int) {
                assert(hay@.subrange(i as int, i + n)[k as int] == needle@[k as int]);
            }
        }
        if i == last {
            return false;
        }
        i = i + 1;
    }
    false
}

} // verus!

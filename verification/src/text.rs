//! Text helpers: comparing, searching, and decimal numbers.

use vstd::prelude::*;

verus! {

/// Whether two texts hold the same characters.
pub fn same_text(a: &str, b: &str) -> (r: bool)
    ensures
        r == (a@ == b@),
{
    a.to_owned() == b.to_owned()
}

/// Three texts, one after the other.
pub fn concat3(a: &str, b: &str, c: &str) -> (r: String)
    ensures
        r@ == a@ + b@ + c@,
{
    a.to_owned().concat(b).concat(c)
}

/// The characters of a text, in order.
pub fn chars_of(s: &str) -> (r: Vec<char>)
    ensures
        r@ == s@,
{
    let mut out: Vec<char> = Vec::new();
    for c in it: s.chars()
        invariant
            it.seq() == s@,
            out@ == s@.take(it.index() as int),
    {
        proof {
            assert(s@.take(it.index() as int + 1) == s@.take(it.index() as int).push(c));
        }
        out.push(c);
    }
    assert(s@.take(s@.len() as int) == s@);
    out
}

/// The first index at or after `from` that holds `c`, or the length of `s` where none does.
pub open spec fn index_from(s: Seq<char>, c: char, from: int) -> int
    decreases s.len() - from,
{
    if from >= s.len() {
        s.len() as int
    } else if s[from] == c {
        from
    } else {
        index_from(s, c, from + 1)
    }
}

/// `index_from` is the least index of its kind.
pub proof fn lemma_index_from(s: Seq<char>, c: char, from: int)
    requires
        0 <= from <= s.len(),
    ensures
        from <= index_from(s, c, from) <= s.len(),
        index_from(s, c, from) < s.len() ==> s[index_from(s, c, from)] == c,
        forall|i: int| from <= i < index_from(s, c, from) ==> s[i] != c,
    decreases s.len() - from,
{
    if from < s.len() && s[from] != c {
        lemma_index_from(s, c, from + 1);
    }
}

/// An index that holds `c`, with no `c` between `from` and it, is `index_from`.
pub proof fn lemma_index_from_is(s: Seq<char>, c: char, from: int, at: int)
    requires
        0 <= from <= at <= s.len(),
        at < s.len() ==> s[at] == c,
        forall|i: int| from <= i < at ==> s[i] != c,
    ensures
        index_from(s, c, from) == at,
    decreases at - from,
{
    if from < at {
        lemma_index_from_is(s, c, from + 1, at);
    }
}

/// Searches `chars` for `c`, starting at `from`.
pub fn find_char(chars: &Vec<char>, c: char, from: usize) -> (r: usize)
    requires
        from <= chars@.len(),
    ensures
        r == index_from(chars@, c, from as int),
        from <= r <= chars@.len(),
{
    let mut i: usize = from;
    while i < chars.len()
        invariant
            from <= i <= chars@.len(),
            forall|j: int| from <= j < i ==> chars@[j] != c,
        decreases chars@.len() - i,
    {
        if chars[i] == c {
            proof {
                lemma_index_from_is(chars@, c, from as int, i as int);
            }
            return i;
        }
        i += 1;
    }
    proof {
        lemma_index_from_is(chars@, c, from as int, i as int);
    }
    i
}

/// Whether a text holds the character `c`.
pub fn has_char(s: &str, c: char) -> (r: bool)
    ensures
        r == s@.contains(c),
{
    let chars = chars_of(s);
    let at = find_char(&chars, c, 0);
    proof {
        lemma_index_from(s@, c, 0);
        if s@.contains(c) {
            let i = choose|i: int| 0 <= i < s@.len() && s@[i] == c;
            assert(at <= i);
        } else if at < s@.len() {
            assert(s@[at as int] == c);
        }
    }
    at < chars.len()
}

/// Whether a text starts with the character `c`.
pub fn starts_with_char(s: &str, c: char) -> (r: bool)
    ensures
        r == (s@.len() > 0 && s@[0] == c),
{
    !s.is_empty() && s.get_char(0) == c
}

/// The decimal digit `d`.
pub open spec fn digit_char(d: nat) -> char {
    (48 + d) as char
}

/// The number `n` written in decimal, without leading zeros.
pub open spec fn decimal(n: nat) -> Seq<char>
    decreases n,
{
    if n < 10 {
        seq![digit_char(n)]
    } else {
        decimal(n / 10).push(digit_char(n % 10))
    }
}

/// Whether `c` is one of the ten decimal digits.
pub open spec fn is_digit(c: char) -> bool {
    '0' <= c <= '9'
}

/// Whether a text is made of decimal digits, and of at least one.
pub open spec fn all_digits(s: Seq<char>) -> bool {
    &&& s.len() > 0
    &&& forall|i: int| 0 <= i < s.len() ==> is_digit(#[trigger] s[i])
}

/// The number that a run of decimal digits denotes.
pub open spec fn digits_value(s: Seq<char>) -> nat
    decreases s.len(),
{
    if s.len() == 0 {
        0
    } else {
        digits_value(s.drop_last()) * 10 + (s.last() as int - 48) as nat
    }
}

/// The port that a text denotes: decimal digits whose value a port can hold.
pub open spec fn port_value(s: Seq<char>) -> Option<u16> {
    if all_digits(s) && digits_value(s) <= u16::MAX {
        Some(digits_value(s) as u16)
    } else {
        None
    }
}

/// Reading a written number gives it back.
pub proof fn lemma_decimal(n: nat)
    ensures
        all_digits(decimal(n)),
        digits_value(decimal(n)) == n,
    decreases n,
{
    reveal_with_fuel(digits_value, 2);
    if n < 10 {
        assert(seq![digit_char(n)].drop_last() == Seq::<char>::empty());
    } else {
        lemma_decimal(n / 10);
        assert(decimal(n).drop_last() == decimal(n / 10));
        assert forall|i: int| 0 <= i < decimal(n).len() implies is_digit(#[trigger] decimal(n)[i]) by {
            if i < decimal(n / 10).len() {
                assert(is_digit(decimal(n / 10)[i]));
            }
        }
    }
}

/// A digit as a one-character text.
fn digit_text(d: u64) -> (r: &'static str)
    requires
        d < 10,
    ensures
        r@ == seq![digit_char(d as nat)],
{
    proof {
        reveal_strlit("0");
        reveal_strlit("1");
        reveal_strlit("2");
        reveal_strlit("3");
        reveal_strlit("4");
        reveal_strlit("5");
        reveal_strlit("6");
        reveal_strlit("7");
        reveal_strlit("8");
        reveal_strlit("9");
    }
    if d == 0 {
        "0"
    } else if d == 1 {
        "1"
    } else if d == 2 {
        "2"
    } else if d == 3 {
        "3"
    } else if d == 4 {
        "4"
    } else if d == 5 {
        "5"
    } else if d == 6 {
        "6"
    } else if d == 7 {
        "7"
    } else if d == 8 {
        "8"
    } else {
        "9"
    }
}

/// Writes a number in decimal.
pub fn decimal_text(n: u64) -> (r: String)
    ensures
        r@ == decimal(n as nat),
    decreases n,
{
    if n < 10 {
        digit_text(n).to_owned()
    } else {
        let mut out = decimal_text(n / 10);
        out.append(digit_text(n % 10));
        out
    }
}

/// Digits that follow only make a number larger.
proof fn lemma_value_grows(s: Seq<char>, n: int)
    requires
        0 <= n <= s.len(),
        all_digits(s),
    ensures
        digits_value(s.take(n)) <= digits_value(s),
    decreases s.len(),
{
    if n < s.len() {
        assert(s.drop_last().take(n) == s.take(n));
        if s.len() > 1 {
            assert forall|i: int| 0 <= i < s.drop_last().len() implies is_digit(#[trigger] s.drop_last()[i]) by {
                assert(is_digit(s[i]));
            }
            lemma_value_grows(s.drop_last(), n);
        } else {
            assert(s.take(n) == Seq::<char>::empty());
        }
    } else {
        assert(s.take(n) == s);
    }
}

/// Reads a port number: decimal digits only, at most 65535.
pub fn parse_port(s: &str) -> (r: Option<u16>)
    ensures
        r == port_value(s@),
{
    let chars = chars_of(s);
    if chars.len() == 0 {
        return None;
    }
    let mut value: u32 = 0;
    let mut i: usize = 0;
    assert(s@.take(0) == Seq::<char>::empty());
    while i < chars.len()
        invariant
            chars@ == s@,
            i <= chars@.len(),
            value <= u16::MAX,
            value == digits_value(s@.take(i as int)),
            forall|j: int| 0 <= j < i ==> is_digit(#[trigger] s@[j]),
        decreases chars@.len() - i,
    {
        let c = chars[i];
        if c < '0' || c > '9' {
            assert(!is_digit(s@[i as int]));
            return None;
        }
        let next: u32 = value * 10 + (c as u32 - 48);
        proof {
            assert(s@.take(i as int + 1).drop_last() == s@.take(i as int));
            assert(digits_value(s@.take(i as int + 1)) == next);
        }
        if next > 65535 {
            proof {
                if all_digits(s@) {
                    lemma_value_grows(s@, i as int + 1);
                }
            }
            return None;
        }
        value = next;
        i += 1;
    }
    assert(s@.take(i as int) == s@);
    Some(value as u16)
}

/// A port is read digit by digit: a text is one only if it is made of decimal digits, one digit
/// is its own value, a digit put behind a port makes it ten times as much and that digit more,
/// and a number too large for a port is none, however it goes on.
pub proof fn law_ports_are_decimal(s: Seq<char>, c: char)
    ensures
        port_value(Seq::empty()) is None,
        port_value(s) is Some ==> s.len() > 0 && forall|i: int|
            0 <= i < s.len() ==> '0' <= #[trigger] s[i] <= '9',
        '0' <= c <= '9' ==> port_value(seq![c]) == Some((c as int - '0' as int) as u16),
        '0' <= c <= '9' && port_value(s) is Some ==> {
            let value = 10 * port_value(s)->Some_0 + (c as int - '0' as int);
            port_value(s.push(c)) == (if value <= 65535 {
                Some(value as u16)
            } else {
                None
            })
        },
        s.len() > 0 && port_value(s) is None ==> port_value(s.push(c)) is None,
{
    reveal_with_fuel(digits_value, 2);
    assert(seq![c].drop_last() == Seq::<char>::empty());
    let t = s.push(c);
    assert(t.drop_last() == s);
    assert(t.last() == c);
    if all_digits(s) {
        assert forall|i: int| 0 <= i < s.len() implies '0' <= #[trigger] s[i] <= '9' by {
            assert(is_digit(s[i]));
        }
        if '0' <= c <= '9' {
            assert forall|i: int| 0 <= i < t.len() implies is_digit(#[trigger] t[i]) by {
                if i < s.len() {
                    assert(is_digit(s[i]));
                }
            }
        }
    }
    if s.len() > 0 && port_value(s) is None && all_digits(t) {
        assert forall|i: int| 0 <= i < s.len() implies is_digit(#[trigger] s[i]) by {
            assert(is_digit(t[i]));
        }
    }
}

/// A run of digits denotes ten times what it denotes without its last digit, and that digit more.
pub proof fn law_digits_have_places(s: Seq<char>, c: char)
    requires
        '0' <= c <= '9',
    ensures
        digits_value(Seq::empty()) == 0,
        digits_value(s.push(c)) == 10 * digits_value(s) + (c as int - '0' as int),
{
    assert(s.push(c).drop_last() == s);
}

/// A number is written in digits that denote it, without a leading zero, and every text of digits
/// without a leading zero is what its number is written as.
pub proof fn law_decimals_are_unique(n: nat, s: Seq<char>)
    ensures
        decimal(n).len() > 0,
        forall|i: int| 0 <= i < decimal(n).len() ==> '0' <= #[trigger] decimal(n)[i] <= '9',
        digits_value(decimal(n)) == n,
        decimal(n).len() == 1 || decimal(n)[0] != '0',
        s.len() > 0 && (s.len() == 1 || s[0] != '0') && (forall|i: int|
            0 <= i < s.len() ==> '0' <= #[trigger] s[i] <= '9') ==> s == decimal(digits_value(s)),
{
    lemma_decimal(n);
    assert forall|i: int| 0 <= i < decimal(n).len() implies '0' <= #[trigger] decimal(n)[i] <= '9' by {
        assert(is_digit(decimal(n)[i]));
    }
    lemma_no_leading_zero(n);
    if s.len() > 0 && (s.len() == 1 || s[0] != '0') && (forall|i: int|
        0 <= i < s.len() ==> '0' <= #[trigger] s[i] <= '9') {
        lemma_written_is(s);
    }
}

/// A number is written without a leading zero.
proof fn lemma_no_leading_zero(n: nat)
    ensures
        decimal(n).len() > 0,
        decimal(n).len() == 1 || decimal(n)[0] != '0',
        n > 0 ==> decimal(n)[0] != '0',
    decreases n,
{
    if n >= 10 {
        lemma_no_leading_zero(n / 10);
        assert(decimal(n)[0] == decimal(n / 10)[0]);
    }
}

/// Digits without a leading zero denote a number that is not 0, unless they are a single 0.
proof fn lemma_value_is_positive(s: Seq<char>)
    requires
        s.len() > 0,
        s[0] != '0',
        forall|i: int| 0 <= i < s.len() ==> '0' <= #[trigger] s[i] <= '9',
    ensures
        digits_value(s) > 0,
    decreases s.len(),
{
    if s.len() > 1 {
        lemma_value_is_positive(s.drop_last());
    }
}

/// Digits without a leading zero are what their number is written as.
proof fn lemma_written_is(s: Seq<char>)
    requires
        s.len() > 0,
        s.len() == 1 || s[0] != '0',
        forall|i: int| 0 <= i < s.len() ==> '0' <= #[trigger] s[i] <= '9',
    ensures
        s == decimal(digits_value(s)),
    decreases s.len(),
{
    reveal_with_fuel(digits_value, 2);
    let last = (s.last() as int - 48) as nat;
    assert('0' <= s[s.len() - 1] <= '9');
    assert(digit_char(last) == s.last());
    if s.len() == 1 {
        assert(s.drop_last() == Seq::<char>::empty());
        assert(s == seq![s.last()]);
    } else {
        let front = s.drop_last();
        assert(front[0] == s[0]);
        lemma_value_is_positive(front);
        lemma_written_is(front);
        let n = digits_value(s);
        assert(n == digits_value(front) * 10 + last);
        assert(n / 10 == digits_value(front) && n % 10 == last);
        assert(s == front.push(s.last()));
    }
}

} // verus!

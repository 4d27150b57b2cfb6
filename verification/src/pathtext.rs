//! The text of object paths: components between slashes, and positions in
//! decimal.
use crate::text::{push_char, to_chars};
use crate::replica::texts;
use vstd::prelude::*;
use vstd::std_specs::iter::IteratorSpec;

verus! {

/// The components of a path: the texts between its slashes. A path without a
/// slash is its own single component; one that starts with a slash has an
/// empty first component.
pub open spec fn split_path(s: Seq<char>) -> Seq<Seq<char>>
    decreases s.len(),
{
    if s.len() == 0 {
        seq![Seq::<char>::empty()]
    } else {
        let before = split_path(s.drop_last());
        if s.last() == '/' {
            before.push(Seq::<char>::empty())
        } else {
            before.update(before.len() - 1, before.last().push(s.last()))
        }
    }
}

/// A path always has a first component.
pub proof fn lemma_split_nonempty(s: Seq<char>)
    ensures
        split_path(s).len() >= 1,
    decreases s.len(),
{
    if s.len() > 0 {
        lemma_split_nonempty(s.drop_last());
    }
}

/// Text without a slash, appended to a path, extends its last component.
pub proof fn lemma_split_append(s: Seq<char>, c: Seq<char>)
    requires
        !c.contains('/'),
    ensures
        split_path(s + c) == split_path(s).update(
            split_path(s).len() - 1,
            split_path(s).last() + c,
        ),
    decreases c.len(),
{
    lemma_split_nonempty(s);
    let parts = split_path(s);
    if c.len() == 0 {
        assert(s + c =~= s);
        assert(parts.last() + c =~= parts.last());
        assert(parts.update(parts.len() - 1, parts.last()) =~= parts);
    } else {
        let shorter = c.drop_last();
        assert(!shorter.contains('/')) by {
            if shorter.contains('/') {
                let i = choose|i: int| 0 <= i < shorter.len() && shorter[i] == '/';
                assert(c[i] == '/');
            }
        }
        lemma_split_append(s, shorter);
        assert((s + c).drop_last() =~= s + shorter);
        assert((s + c).last() == c.last());
        assert(c.last() != '/') by {
            assert(c[c.len() - 1] == c.last());
        }
        assert(parts.last() + c =~= (parts.last() + shorter).push(c.last()));
        assert(split_path(s + c) =~= parts.update(parts.len() - 1, parts.last() + c));
    }
}

/// The components of `s`, in order.
pub fn split_text(s: &str) -> (parts: Vec<String>)
    ensures
        texts(parts@) == split_path(s@),
{
    let mut parts: Vec<String> = Vec::new();
    let mut current = String::new();
    assert(s@.take(0) =~= Seq::<char>::empty());
    assert(texts(parts@).push(current@) =~= split_path(s@.take(0)));
    for c in it: s.chars()
        invariant
            it.seq() == s@,
            texts(parts@).push(current@) == split_path(it.seq().take(it.index() as int)),
    {
        let ghost i = it.index() as int;
        let ghost before = s@.take(i);
        let ghost after = s@.take(i + 1);
        assert(after.drop_last() =~= before);
        assert(after.last() == c);
        if c == '/' {
            parts.push(current);
            current = String::new();
            assert(texts(parts@).push(current@) =~= split_path(after));
        } else {
            push_char(&mut current, c);
            assert(texts(parts@).push(current@) =~= split_path(after));
        }
    }
    assert(s@.take(s@.len() as int) =~= s@);
    parts.push(current);
    assert(texts(parts@) =~= split_path(s@));
    parts
}

/// The value of a decimal digit.
pub open spec fn digit_value(c: char) -> Option<nat> {
    let n = c as u32;
    if 48 <= n <= 57 {
        Some((n - 48) as nat)
    } else {
        None
    }
}

/// Whether `s` is made of decimal digits only.
pub open spec fn all_digits(s: Seq<char>) -> bool {
    forall|i: int| 0 <= i < s.len() ==> (#[trigger] digit_value(s[i])) is Some
}

/// The number that a text of decimal digits stands for.
pub open spec fn digits_value(s: Seq<char>) -> nat
    decreases s.len(),
{
    if s.len() == 0 {
        0
    } else {
        digits_value(s.drop_last()) * 10 + digit_value(s.last()).unwrap()
    }
}

/// The position that a text stands for: one or more decimal digits, after an
/// optional `+`, whose number fits in thirty-two bits.
pub open spec fn index_of_text(s: Seq<char>) -> Option<u32> {
    let digits = if s.len() > 0 && s[0] == '+' {
        s.skip(1)
    } else {
        s
    };
    if digits.len() > 0 && all_digits(digits) && digits_value(digits) <= u32::MAX {
        Some(digits_value(digits) as u32)
    } else {
        None
    }
}

/// A longer text of digits stands for no smaller a number than its start.
pub proof fn lemma_digits_grow(s: Seq<char>, k: int)
    requires
        0 <= k <= s.len(),
    ensures
        digits_value(s.take(k)) <= digits_value(s),
    decreases s.len() - k,
{
    if k == s.len() {
        assert(s.take(k) =~= s);
    } else {
        lemma_digits_grow(s, k + 1);
        assert(s.take(k + 1).drop_last() =~= s.take(k));
    }
}

/// Reads a position from a text: `None` where the text stands for none.
#[verifier::loop_isolation(false)]
pub fn parse_index(s: &str) -> (r: Option<u32>)
    ensures
        r == index_of_text(s@),
{
    let chars = to_chars(s);
    let n = chars.len();
    let start: usize = if n > 0 && chars[0] == '+' {
        1
    } else {
        0
    };
    let ghost digits = chars@.skip(start as int);
    assert(chars@.skip(0) =~= chars@);
    if start == n {
        return None;
    }
    let mut value: u64 = 0;
    let mut i: usize = start;
    assert(digits.take(0) =~= Seq::<char>::empty());
    while i < n
        invariant
            start <= i <= n,
            n == chars.len(),
            digits == chars@.skip(start as int),
            all_digits(digits.take(i - start)),
            value == digits_value(digits.take(i - start)),
            value <= u32::MAX,
        decreases n - i,
    {
        let c = chars[i];
        let code = c as u32;
        let ghost k = i - start;
        assert(digits[k] == c);
        assert(digits.take(k + 1).drop_last() =~= digits.take(k));
        assert(digits.take(k + 1).last() == c);
        if code < 48 || code > 57 {
            assert(digit_value(digits[k]) is None);
            return None;
        }
        let next: u64 = value * 10 + (code - 48) as u64;
        assert(digit_value(c) == Some((code - 48) as nat));
        assert(digits_value(digits.take(k + 1)) == next);
        if next > u32::MAX as u64 {
            proof {
                lemma_digits_grow(digits, k + 1);
            }
            assert(digits_value(digits) > u32::MAX);
            return None;
        }
        assert forall|j: int| 0 <= j < k + 1 implies (#[trigger] digit_value(
            digits.take(k + 1)[j],
        )) is Some by {
            if j < k {
                assert(digits.take(k + 1)[j] == digits.take(k)[j]);
            }
        }
        value = next;
        i += 1;
    }
    assert(digits.take(n - start) =~= digits);
    assert(all_digits(digits));
    assert(digits_value(digits) == value);
    assert(digits.len() > 0);
    Some(value as u32)
}

/// The decimal digit of a value below ten.
pub open spec fn digit_char(n: nat) -> char {
    (48 + n) as u8 as char
}

/// The decimal text of a position, without leading zeros.
pub open spec fn text_of_index(n: nat) -> Seq<char>
    decreases n,
{
    if n < 10 {
        seq![digit_char(n)]
    } else {
        text_of_index(n / 10).push(digit_char(n % 10))
    }
}

/// The decimal text of a number is made of digits, has no slash, and stands
/// for that number.
pub proof fn lemma_text_of_index(n: nat)
    ensures
        text_of_index(n).len() > 0,
        all_digits(text_of_index(n)),
        digits_value(text_of_index(n)) == n,
        !text_of_index(n).contains('/'),
        text_of_index(n)[0] != '+',
    decreases n,
{
    let t = text_of_index(n);
    let d = digit_char(n % 10);
    assert(((48 + n % 10) as u8) as char as u32 == 48 + n % 10);
    assert(digit_value(d) == Some(n % 10));
    if n < 10 {
        assert(t.drop_last() =~= Seq::<char>::empty());
        assert(digits_value(t.drop_last()) == 0);
        assert(t.last() == d);
        assert(digits_value(t) == n);
    } else {
        lemma_text_of_index(n / 10);
        let shorter = text_of_index(n / 10);
        assert(t.drop_last() =~= shorter);
        assert(t.last() == d);
        assert forall|i: int| 0 <= i < t.len() implies (#[trigger] digit_value(t[i])) is Some by {
            if i < shorter.len() {
                assert(t[i] == shorter[i]);
            }
        }
        assert(t[0] == shorter[0]);
    }
    assert(!t.contains('/')) by {
        if t.contains('/') {
            let i = choose|i: int| 0 <= i < t.len() && t[i] == '/';
            assert(digit_value(t[i]) is Some);
        }
    }
    assert(digit_value(t[0]) is Some);
}

/// Writing a position and reading the text gives the position back.
pub proof fn lemma_index_round_trip(n: u32)
    ensures
        index_of_text(text_of_index(n as nat)) == Some(n),
{
    lemma_text_of_index(n as nat);
}

/// The decimal text of a position.
pub fn render_index(n: u64) -> (s: String)
    ensures
        s@ == text_of_index(n as nat),
{
    let mut digits: Vec<char> = Vec::new();
    let mut rest: u64 = n;
    // The digits are produced from the last to the first.
    while rest >= 10
        invariant
            forall|tail: Seq<char>|
                #![trigger text_of_index(rest as nat) + tail]
                tail == digits@.reverse() ==> text_of_index(n as nat) == text_of_index(
                    rest as nat,
                ) + tail,
        decreases rest,
    {
        let d = (48 + rest % 10) as u8 as char;
        let ghost old_digits = digits@;
        digits.push(d);
        proof {
            let tail = digits@.reverse();
            assert(tail =~= seq![d] + old_digits.reverse());
            assert(text_of_index(rest as nat) + old_digits.reverse() =~= text_of_index(
                (rest / 10) as nat,
            ) + tail);
        }
        rest = rest / 10;
    }
    let first = (48 + rest) as u8 as char;
    let mut s = String::new();
    push_char(&mut s, first);
    let mut i: usize = digits.len();
    proof {
        assert(text_of_index(n as nat) == text_of_index(rest as nat) + digits@.reverse());
        assert(digits@.reverse().take(0) =~= Seq::<char>::empty());
        assert(s@ =~= text_of_index(rest as nat) + digits@.reverse().take(0));
    }
    while i > 0
        invariant
            i <= digits.len(),
            s@ == text_of_index(rest as nat) + digits@.reverse().take(digits.len() - i),
        decreases i,
    {
        i -= 1;
        push_char(&mut s, digits[i]);
        proof {
            let r = digits@.reverse();
            let k = digits.len() - i - 1;
            assert(r[k] == digits@[i as int]);
            assert(r.take(k + 1) =~= r.take(k).push(r[k]));
        }
    }
    assert(digits@.reverse().take(digits.len() as int) =~= digits@.reverse());
    s
}

} // verus!

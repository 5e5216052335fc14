//! Small verified building blocks for text: decimal numbers, repeated
//! characters, blank detection and `{}` template substitution.

use vstd::prelude::*;
use vstd::string::StringExecFns;

verus! {

/// `String::push` of the standard library: appends one character.
#[verifier::external_body]
pub(crate) fn push_char(s: &mut String, c: char)
    ensures
        final(s)@ == old(s)@.push(c),
{
    s.push(c)
}

/// The decimal digit for `d`, which is meant to be below ten.
pub open spec fn digit_spec(d: nat) -> char {
    if d == 0 {
        '0'
    } else if d == 1 {
        '1'
    } else if d == 2 {
        '2'
    } else if d == 3 {
        '3'
    } else if d == 4 {
        '4'
    } else if d == 5 {
        '5'
    } else if d == 6 {
        '6'
    } else if d == 7 {
        '7'
    } else if d == 8 {
        '8'
    } else {
        '9'
    }
}

/// The decimal representation of `n`, without sign or leading zeros.
pub open spec fn decimal_spec(n: nat) -> Seq<char>
    decreases n,
{
    if n < 10 {
        seq![digit_spec(n)]
    } else {
        decimal_spec(n / 10).push(digit_spec(n % 10))
    }
}

fn digit(d: u128) -> (c: char)
    requires
        d < 10,
    ensures
        c == digit_spec(d as nat),
{
    if d == 0 {
        '0'
    } else if d == 1 {
        '1'
    } else if d == 2 {
        '2'
    } else if d == 3 {
        '3'
    } else if d == 4 {
        '4'
    } else if d == 5 {
        '5'
    } else if d == 6 {
        '6'
    } else if d == 7 {
        '7'
    } else if d == 8 {
        '8'
    } else {
        '9'
    }
}

/// Writes `n` in decimal.
pub fn to_decimal(n: u128) -> (s: String)
    ensures
        s@ == decimal_spec(n as nat),
{
    let mut low: Vec<char> = Vec::new();
    let mut rest: u128 = n;
    while rest >= 10
        invariant
            decimal_spec(n as nat) == decimal_spec(rest as nat) + low@.reverse(),
        decreases rest,
    {
        let d = digit(rest % 10);
        proof {
            assert(low@.push(d).reverse() =~= seq![d] + low@.reverse());
            assert(decimal_spec(rest as nat) == decimal_spec((rest / 10) as nat).push(d));
            assert(decimal_spec((rest / 10) as nat).push(d) + low@.reverse() =~= decimal_spec(
                (rest / 10) as nat,
            ) + (seq![d] + low@.reverse()));
        }
        low.push(d);
        rest = rest / 10;
    }
    let mut s = String::new();
    push_char(&mut s, digit(rest));
    let mut i: usize = low.len();
    while i > 0
        invariant
            i <= low.len(),
            s@ == seq![digit_spec(rest as nat)] + low@.reverse().take(low.len() - i),
        decreases i,
    {
        i = i - 1;
        proof {
            let r = low@.reverse();
            let k: int = low.len() - i - 1;
            assert(r[k] == low@[i as int]);
            assert(r.take(k + 1) =~= r.take(k).push(r[k]));
        }
        push_char(&mut s, low[i]);
    }
    proof {
        assert(low@.reverse().take(low.len() as int) =~= low@.reverse());
    }
    s
}

/// `n` copies of `c`.
pub open spec fn repeat_spec(c: char, n: nat) -> Seq<char> {
    Seq::new(n, |i: int| c)
}

/// A string of `n` copies of `c`.
pub fn repeat_char(c: char, n: usize) -> (s: String)
    ensures
        s@ == repeat_spec(c, n as nat),
{
    let mut s = String::new();
    let mut i: usize = 0;
    while i < n
        invariant
            i <= n,
            s@ == repeat_spec(c, i as nat),
        decreases n - i,
    {
        push_char(&mut s, c);
        i = i + 1;
        proof {
            assert(s@ =~= repeat_spec(c, i as nat));
        }
    }
    s
}

/// The characters of `s`, in order.
pub fn to_chars(s: &str) -> (v: Vec<char>)
    ensures
        v@ == s@,
{
    let mut v: Vec<char> = Vec::new();
    for c in it: s.chars()
        invariant
            it.seq() == s@,
            v@ == it.seq().take(it.index() as int),
    {
        proof {
            let k: int = it.index() as int;
            assert(it.seq().take(k + 1) =~= it.seq().take(k).push(it.seq()[k]));
        }
        v.push(c);
    }
    proof {
        assert(s@.take(s@.len() as int) =~= s@);
    }
    v
}

/// Appends the characters `v[from..to]` to `s`.
pub fn push_chars(s: &mut String, v: &Vec<char>, from: usize, to: usize)
    requires
        from <= to <= v.len(),
    ensures
        final(s)@ == old(s)@ + v@.subrange(from as int, to as int),
{
    let mut i: usize = from;
    while i < to
        invariant
            from <= i <= to <= v.len(),
            s@ == old(s)@ + v@.subrange(from as int, i as int),
        decreases to - i,
    {
        push_char(s, v[i]);
        i = i + 1;
        proof {
            assert(s@ =~= old(s)@ + v@.subrange(from as int, i as int));
        }
    }
}

/// Whether two texts are the same.
pub fn same_text(a: &str, b: &str) -> (r: bool)
    ensures
        r == (a@ == b@),
{
    let x = to_chars(a);
    let y = to_chars(b);
    if x.len() != y.len() {
        return false;
    }
    let mut i: usize = 0;
    while i < x.len()
        invariant
            i <= x.len(),
            x.len() == y.len(),
            x@ == a@,
            y@ == b@,
            forall|j: int| 0 <= j < i ==> x@[j] == y@[j],
        decreases x.len() - i,
    {
        if x[i] != y[i] {
            return false;
        }
        i = i + 1;
    }
    proof {
        assert(x@ =~= y@);
    }
    true
}

/// Whether `c` is white space: the characters that Unicode gives the
/// property `White_Space`.
pub open spec fn is_whitespace_spec(c: char) -> bool {
    let n = c as u32;
    ||| 0x09 <= n <= 0x0D
    ||| n == 0x20
    ||| n == 0x85
    ||| n == 0xA0
    ||| n == 0x1680
    ||| 0x2000 <= n <= 0x200A
    ||| n == 0x2028
    ||| n == 0x2029
    ||| n == 0x202F
    ||| n == 0x205F
    ||| n == 0x3000
}

pub fn is_whitespace(c: char) -> (r: bool)
    ensures
        r == is_whitespace_spec(c),
{
    let n: u32 = c as u32;
    (0x09 <= n && n <= 0x0D) || n == 0x20 || n == 0x85 || n == 0xA0 || n == 0x1680 || (0x2000 <= n
        && n <= 0x200A) || n == 0x2028 || n == 0x2029 || n == 0x202F || n == 0x205F || n == 0x3000
}

/// A text is blank when it holds nothing but white space.
pub open spec fn is_blank_spec(s: Seq<char>) -> bool {
    forall|i: int| 0 <= i < s.len() ==> is_whitespace_spec(#[trigger] s[i])
}

/// Whether `s` is empty once white space is trimmed from both ends.
pub fn is_blank(s: &str) -> (r: bool)
    ensures
        r == is_blank_spec(s@),
{
    let v = to_chars(s);
    let mut i: usize = 0;
    while i < v.len()
        invariant
            i <= v.len(),
            v@ == s@,
            forall|j: int| 0 <= j < i ==> is_whitespace_spec(#[trigger] v@[j]),
        decreases v.len() - i,
    {
        if !is_whitespace(v[i]) {
            return false;
        }
        i = i + 1;
    }
    true
}

/// `template` with every `{}` replaced by `value`, scanning from the left.
pub open spec fn fill_spec(template: Seq<char>, value: Seq<char>) -> Seq<char>
    decreases template.len(),
{
    if template.len() == 0 {
        Seq::empty()
    } else if template.len() >= 2 && template[0] == '{' && template[1] == '}' {
        value + fill_spec(template.skip(2), value)
    } else {
        seq![template[0]] + fill_spec(template.skip(1), value)
    }
}

/// Fills the `{}` placeholders of a message template with `value`.
pub fn fill_template(template: &str, value: &str) -> (s: String)
    ensures
        s@ == fill_spec(template@, value@),
{
    let t = to_chars(template);
    let mut s = String::new();
    let mut i: usize = 0;
    proof {
        assert(t@.skip(0) =~= t@);
    }
    while i < t.len()
        invariant
            i <= t.len(),
            t@ == template@,
            fill_spec(template@, value@) == s@ + fill_spec(t@.skip(i as int), value@),
        decreases t.len() - i,
    {
        let ghost rest = t@.skip(i as int);
        if t[i] == '{' && i + 1 < t.len() && t[i + 1] == '}' {
            proof {
                assert(rest.skip(2) =~= t@.skip(i + 2));
                assert(s@ + (value@ + fill_spec(rest.skip(2), value@)) =~= (s@ + value@)
                    + fill_spec(rest.skip(2), value@));
            }
            s.append(value);
            i = i + 2;
        } else {
            proof {
                assert(rest.skip(1) =~= t@.skip(i + 1));
                assert(s@ + (seq![rest[0]] + fill_spec(rest.skip(1), value@)) =~= s@.push(t@[i as int])
                    + fill_spec(rest.skip(1), value@));
            }
            push_char(&mut s, t[i]);
            i = i + 1;
        }
    }
    proof {
        assert(s@ + Seq::<char>::empty() =~= s@);
    }
    s
}

} // verus!

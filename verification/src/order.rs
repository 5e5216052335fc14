//! The order in which paths are planned: component by component, each
//! component by character code.

use crate::paths::SEPARATOR;
use crate::text::to_chars;
use core::cmp::Ordering;
use vstd::prelude::*;

verus! {

/// The character `a` ranks before the character `b`: the separator ranks
/// before every other character, and the others rank by their code. With
/// the separator first, a path whose component ends comes before one whose
/// component goes on, so paths compare component by component.
pub open spec fn char_before(a: char, b: char) -> bool {
    if a == SEPARATOR {
        b != SEPARATOR
    } else if b == SEPARATOR {
        false
    } else {
        a < b
    }
}

/// `a` comes before `b`, or is `b`: at the first place where the two differ
/// the character of `a` ranks before that of `b`, or `a` ends first.
pub open spec fn lex_le(a: Seq<char>, b: Seq<char>) -> bool
    decreases a.len(),
{
    if a.len() == 0 {
        true
    } else if b.len() == 0 {
        false
    } else if a[0] != b[0] {
        char_before(a[0], b[0])
    } else {
        lex_le(a.skip(1), b.skip(1))
    }
}

/// Every text is at most itself.
pub proof fn lemma_lex_reflexive(a: Seq<char>)
    ensures
        lex_le(a, a),
    decreases a.len(),
{
    if a.len() > 0 {
        lemma_lex_reflexive(a.skip(1));
    }
}

/// Of two texts one is at most the other.
pub proof fn lemma_lex_total(a: Seq<char>, b: Seq<char>)
    ensures
        lex_le(a, b) || lex_le(b, a),
    decreases a.len(),
{
    if a.len() > 0 && b.len() > 0 && a[0] == b[0] {
        lemma_lex_total(a.skip(1), b.skip(1));
    }
}

/// Two texts that are each at most the other are the same text.
pub proof fn lemma_lex_antisymmetric(a: Seq<char>, b: Seq<char>)
    requires
        lex_le(a, b),
        lex_le(b, a),
    ensures
        a == b,
    decreases a.len(),
{
    if a.len() == 0 || b.len() == 0 {
        assert(a =~= b);
    } else {
        lemma_lex_antisymmetric(a.skip(1), b.skip(1));
        assert(a =~= seq![a[0]] + a.skip(1));
        assert(b =~= seq![b[0]] + b.skip(1));
    }
}

/// The order passes along a chain.
pub proof fn lemma_lex_transitive(a: Seq<char>, b: Seq<char>, c: Seq<char>)
    requires
        lex_le(a, b),
        lex_le(b, c),
    ensures
        lex_le(a, c),
    decreases a.len(),
{
    if a.len() > 0 && b.len() > 0 && c.len() > 0 && a[0] == b[0] && b[0] == c[0] {
        lemma_lex_transitive(a.skip(1), b.skip(1), c.skip(1));
    }
}

/// How one path stands to another in the planning order.
#[derive(Clone, Copy, Debug, PartialEq, Eq, Structural)]
pub enum Precedence {
    Before,
    Same,
    After,
}

/// The place of `a` relative to `b` in the planning order.
pub open spec fn precedence_spec(a: Seq<char>, b: Seq<char>) -> Precedence {
    if a == b {
        Precedence::Same
    } else if lex_le(a, b) {
        Precedence::Before
    } else {
        Precedence::After
    }
}

/// Finds the place of `a` relative to `b` in the planning order.
pub fn precedence(a: &str, b: &str) -> (r: Precedence)
    ensures
        r == precedence_spec(a@, b@),
{
    let x = to_chars(a);
    let y = to_chars(b);
    let mut i: usize = 0;
    proof {
        assert(x@.skip(0) =~= x@);
        assert(y@.skip(0) =~= y@);
    }
    while i < x.len() && i < y.len()
        invariant
            i <= x.len(),
            i <= y.len(),
            x@ == a@,
            y@ == b@,
            x@.take(i as int) == y@.take(i as int),
            lex_le(x@, y@) == lex_le(x@.skip(i as int), y@.skip(i as int)),
        decreases x.len() - i,
    {
        if x[i] != y[i] {
            proof {
                assert(x@[i as int] != y@[i as int]);
            }
            if x[i] == SEPARATOR {
                return Precedence::Before;
            } else if y[i] == SEPARATOR {
                return Precedence::After;
            } else if x[i] < y[i] {
                return Precedence::Before;
            } else {
                return Precedence::After;
            }
        }
        proof {
            assert(x@.skip(i as int).skip(1) =~= x@.skip(i + 1));
            assert(y@.skip(i as int).skip(1) =~= y@.skip(i + 1));
            assert(x@.take(i + 1) =~= x@.take(i as int).push(x@[i as int]));
            assert(y@.take(i + 1) =~= y@.take(i as int).push(y@[i as int]));
        }
        i = i + 1;
    }
    if i < y.len() {
        proof {
            assert(x@.len() != y@.len());
        }
        Precedence::Before
    } else if i < x.len() {
        proof {
            assert(x@.len() != y@.len());
        }
        Precedence::After
    } else {
        proof {
            assert(x@.take(i as int) =~= x@);
            assert(y@.take(i as int) =~= y@);
        }
        Precedence::Same
    }
}

/// Compares two paths in the planning order, in the terms of `core::cmp`.
pub fn compare_paths(a: &str, b: &str) -> (r: Ordering)
    ensures
        match r {
            Ordering::Less => precedence_spec(a@, b@) == Precedence::Before,
            Ordering::Equal => precedence_spec(a@, b@) == Precedence::Same,
            Ordering::Greater => precedence_spec(a@, b@) == Precedence::After,
        },
{
    match precedence(a, b) {
        Precedence::Before => Ordering::Less,
        Precedence::Same => Ordering::Equal,
        Precedence::After => Ordering::Greater,
    }
}

} // verus!

//! Identifier hygiene: reserved-word detection and escaping, and the decimal
//! numerals used by synthetic names.
//!
//! Every identifier about to be emitted is checked against a fixed set of
//! reserved target-language words; a colliding identifier is rewritten by
//! prefixing a single escape character, a non-colliding one passes through
//! unchanged.

use vstd::prelude::*;
use vstd::string::StringExecFns;

verus! {

/// A target identifier collides exactly when it equals one of the fixed
/// reserved words of the target language.
pub open spec fn spec_is_reserved(n: Seq<char>) -> bool {
    ||| n == "as"@
    ||| n == "break"@
    ||| n == "const"@
    ||| n == "continue"@
    ||| n == "crate"@
    ||| n == "else"@
    ||| n == "enum"@
    ||| n == "false"@
    ||| n == "fn"@
    ||| n == "for"@
    ||| n == "if"@
    ||| n == "impl"@
    ||| n == "in"@
    ||| n == "let"@
    ||| n == "loop"@
    ||| n == "match"@
    ||| n == "mod"@
    ||| n == "move"@
    ||| n == "mut"@
    ||| n == "pub"@
    ||| n == "ref"@
    ||| n == "return"@
    ||| n == "self"@
    ||| n == "struct"@
    ||| n == "super"@
    ||| n == "trait"@
    ||| n == "true"@
    ||| n == "type"@
    ||| n == "use"@
    ||| n == "where"@
    ||| n == "while"@
}

/// An escaped identifier: the escape character followed by the original name.
pub open spec fn spec_escaped(n: Seq<char>) -> Seq<char> {
    seq!['_'] + n
}

/// What reserved-word escaping produces for a given identifier.
pub open spec fn spec_rust_id(n: Seq<char>) -> Seq<char> {
    if spec_is_reserved(n) {
        spec_escaped(n)
    } else {
        n
    }
}

fn str_eq(a: &str, b: &str) -> (r: bool)
    ensures
        r == (a@ == b@),
{
    let sa = a.to_owned();
    let sb = b.to_owned();
    sa == sb
}

/// Whether `name` is one of the reserved target-language words.
pub fn is_reserved(name: &str) -> (r: bool)
    ensures
        r == spec_is_reserved(name@),
{
    str_eq(name, "as") || str_eq(name, "break") || str_eq(name, "const")
        || str_eq(name, "continue") || str_eq(name, "crate") || str_eq(name, "else")
        || str_eq(name, "enum") || str_eq(name, "false") || str_eq(name, "fn")
        || str_eq(name, "for") || str_eq(name, "if") || str_eq(name, "impl")
        || str_eq(name, "in") || str_eq(name, "let") || str_eq(name, "loop")
        || str_eq(name, "match") || str_eq(name, "mod") || str_eq(name, "move")
        || str_eq(name, "mut") || str_eq(name, "pub") || str_eq(name, "ref")
        || str_eq(name, "return") || str_eq(name, "self") || str_eq(name, "struct")
        || str_eq(name, "super") || str_eq(name, "trait") || str_eq(name, "true")
        || str_eq(name, "type") || str_eq(name, "use") || str_eq(name, "where")
        || str_eq(name, "while")
}

/// Escape an identifier that collides with a reserved word; pass any other
/// identifier through unchanged.
pub fn rust_id(name: &str) -> (r: String)
    ensures
        r@ == spec_rust_id(name@),
{
    if is_reserved(name) {
        let s = String::from_str("_");
        let r = s.concat(name);
        proof {
            reveal_strlit("_");
            assert(r@ =~= spec_escaped(name@));
        }
        r
    } else {
        name.to_owned()
    }
}

/// The digit character for a single decimal digit.
pub open spec fn dec_digit(d: int) -> char {
    if d == 0 {
        '0'
    } else if d == 1 {
        '1'
    } else if d == 2 {
        '2'
    } else if d == 3 {
        '3'
    } else if d == 4 {
        '4'
    } else if d == 5 {
        '5'
    } else if d == 6 {
        '6'
    } else if d == 7 {
        '7'
    } else if d == 8 {
        '8'
    } else {
        '9'
    }
}

/// The decimal numeral of a non-negative integer, most significant digit
/// first.
pub open spec fn dec_rep(n: int) -> Seq<char>
    decreases n via dec_rep_decreases
{
    if n < 10 {
        seq![dec_digit(n)]
    } else {
        dec_rep(n / 10).push(dec_digit(n % 10))
    }
}

#[via_fn]
proof fn dec_rep_decreases(n: int) {
    if n >= 10 {
        assert(0 <= n / 10 < n) by (nonlinear_arith)
            requires
                n >= 10,
        ;
    }
}

fn push_dec_digit(s: &mut String, d: u128)
    requires
        d < 10,
    ensures
        final(s)@ == old(s)@.push(dec_digit(d as int)),
{
    let c: &str = if d == 0 {
        "0"
    } else if d == 1 {
        "1"
    } else if d == 2 {
        "2"
    } else if d == 3 {
        "3"
    } else if d == 4 {
        "4"
    } else if d == 5 {
        "5"
    } else if d == 6 {
        "6"
    } else if d == 7 {
        "7"
    } else if d == 8 {
        "8"
    } else {
        "9"
    };
    proof {
        reveal_strlit("0");
        reveal_strlit("1");
        reveal_strlit("2");
        reveal_strlit("3");
        reveal_strlit("4");
        reveal_strlit("5");
        reveal_strlit("6");
        reveal_strlit("7");
        reveal_strlit("8");
        reveal_strlit("9");
        assert(c@ =~= seq![dec_digit(d as int)]);
    }
    s.append(c);
    assert(s@ =~= old(s)@.push(dec_digit(d as int)));
}

/// Render a number as its decimal numeral.
pub fn dec_numeral(n: u128) -> (r: String)
    ensures
        r@ == dec_rep(n as int),
    decreases n,
{
    if n < 10 {
        let mut s = String::new();
        push_dec_digit(&mut s, n);
        proof {
            assert(s@ =~= dec_rep(n as int));
        }
        s
    } else {
        let mut s = dec_numeral(n / 10);
        push_dec_digit(&mut s, n % 10);
        s
    }
}

/// The numeric value of a decimal digit character; inverse of `dec_digit`.
pub open spec fn dec_digit_val(c: char) -> int {
    if c == '0' {
        0
    } else if c == '1' {
        1
    } else if c == '2' {
        2
    } else if c == '3' {
        3
    } else if c == '4' {
        4
    } else if c == '5' {
        5
    } else if c == '6' {
        6
    } else if c == '7' {
        7
    } else if c == '8' {
        8
    } else {
        9
    }
}

/// The number a digit sequence denotes in decimal.
pub open spec fn dec_val(s: Seq<char>) -> int
    decreases s.len(),
{
    if s.len() == 0 {
        0
    } else {
        dec_val(s.drop_last()) * 10 + dec_digit_val(s.last())
    }
}

/// Reading back the decimal numeral of `n` yields `n`.
pub proof fn lemma_dec_val_of_rep(n: int)
    requires
        n >= 0,
    ensures
        dec_val(dec_rep(n)) == n,
    decreases n,
{
    if n < 10 {
        let s = dec_rep(n);
        assert(s =~= seq![dec_digit(n)]);
        assert(s.len() == 1);
        assert(s.last() == dec_digit(n));
        assert(s.drop_last() =~= Seq::<char>::empty());
        assert(dec_val(s.drop_last()) == 0);
        assert(dec_digit_val(dec_digit(n)) == n);
        assert(dec_val(s) == 0 * 10 + n);
    } else {
        assert(0 <= n / 10 < n) by (nonlinear_arith)
            requires
                n >= 10,
        ;
        lemma_dec_val_of_rep(n / 10);
        let s = dec_rep(n);
        assert(s.drop_last() =~= dec_rep(n / 10));
        assert(s.last() == dec_digit(n % 10));
        assert(0 <= n % 10 < 10);
        assert(dec_digit_val(dec_digit(n % 10)) == n % 10);
        vstd::arithmetic::div_mod::lemma_fundamental_div_mod(n, 10);
    }
}

/// Distinct numbers have distinct decimal numerals.
pub proof fn lemma_dec_rep_injective(a: int, b: int)
    requires
        a >= 0,
        b >= 0,
        a != b,
    ensures
        dec_rep(a) != dec_rep(b),
{
    if dec_rep(a) == dec_rep(b) {
        lemma_dec_val_of_rep(a);
        lemma_dec_val_of_rep(b);
    }
}

/// Appending different suffixes to one prefix gives different sequences.
pub proof fn lemma_concat_injective(p: Seq<char>, x: Seq<char>, y: Seq<char>)
    requires
        x != y,
    ensures
        p + x != p + y,
{
    if p + x == p + y {
        assert((p + x).len() == (p + y).len());
        assert forall|i: int| 0 <= i < x.len() implies x[i] == y[i] by {
            assert((p + x)[p.len() + i] == x[i]);
            assert((p + y)[p.len() + i] == y[i]);
        }
        assert(x =~= y);
    }
}

} // verus!

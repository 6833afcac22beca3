//! The text fragments the renderer emits: decimal numerals, depth- and
//! line-scoped flag names, the counter-management commands, the condition
//! latch, and the per-line guard prefixes, each as a spec-level definition
//! with an executable twin.

use vstd::prelude::*;
use vstd::string::StrSliceExecFns;
use vstd::string::StringExecFns;

verus! {

/// The reserved name the generated code uses as its score holder, and the stem
/// of every synthetic flag name.
pub open spec fn magic() -> Seq<char> {
    "__mcfn_internal"@
}

/// The character for one decimal digit.
pub open spec fn digit_char(d: nat) -> char {
    if d == 0 {
        '0'
    } else if d == 1 {
        '1'
    } else if d == 2 {
        '2'
    } else if d == 3 {
        '3'
    } else if d == 4 {
        '4'
    } else if d == 5 {
        '5'
    } else if d == 6 {
        '6'
    } else if d == 7 {
        '7'
    } else if d == 8 {
        '8'
    } else {
        '9'
    }
}

/// The decimal numeral of `n`, most significant digit first, no leading zeros.
pub open spec fn dec_digits(n: nat) -> Seq<char>
    decreases n,
{
    if n < 10 {
        seq![digit_char(n)]
    } else {
        dec_digits(n / 10).push(digit_char(n % 10))
    }
}

/// Digits of distinct values differ.
proof fn lemma_digit_char_injective(a: nat, b: nat)
    requires
        a < 10,
        b < 10,
        a != b,
    ensures
        digit_char(a) != digit_char(b),
{
}

/// The decimal numeral is injective: distinct numbers never share it.
pub proof fn lemma_dec_digits_injective(a: nat, b: nat)
    requires
        a != b,
    ensures
        dec_digits(a) != dec_digits(b),
    decreases a + b,
{
    if a < 10 && b < 10 {
        lemma_digit_char_injective(a, b);
        assert(dec_digits(a)[0] != dec_digits(b)[0]);
    } else if a < 10 {
        assert(dec_digits(b).len() == dec_digits(b / 10).len() + 1);
        assert(dec_digits(b / 10).len() >= 1) by {
            lemma_dec_digits_len(b / 10);
        }
        assert(dec_digits(a).len() == 1);
    } else if b < 10 {
        assert(dec_digits(a).len() == dec_digits(a / 10).len() + 1);
        assert(dec_digits(a / 10).len() >= 1) by {
            lemma_dec_digits_len(a / 10);
        }
        assert(dec_digits(b).len() == 1);
    } else {
        if dec_digits(a) == dec_digits(b) {
            assert(dec_digits(a).last() == dec_digits(b).last());
            if a % 10 != b % 10 {
                lemma_digit_char_injective(a % 10, b % 10);
                assert(false);
            }
            assert(a / 10 != b / 10);
            lemma_dec_digits_injective(a / 10, b / 10);
            assert(dec_digits(a).drop_last() =~= dec_digits(a / 10));
            assert(dec_digits(b).drop_last() =~= dec_digits(b / 10));
            assert(false);
        }
    }
}

/// Every numeral has at least one digit.
pub proof fn lemma_dec_digits_len(n: nat)
    ensures
        dec_digits(n).len() >= 1,
    decreases n,
{
    if n >= 10 {
        lemma_dec_digits_len(n / 10);
    }
}

/// One decimal digit as text.
fn digit_str(d: u64) -> (r: &'static str)
    requires
        d < 10,
    ensures
        r@ == seq![digit_char(d as nat)],
{
    proof {
        reveal_strlit("0");
        reveal_strlit("1");
        reveal_strlit("2");
        reveal_strlit("3");
        reveal_strlit("4");
        reveal_strlit("5");
        reveal_strlit("6");
        reveal_strlit("7");
        reveal_strlit("8");
        reveal_strlit("9");
    }
    if d == 0 {
        "0"
    } else if d == 1 {
        "1"
    } else if d == 2 {
        "2"
    } else if d == 3 {
        "3"
    } else if d == 4 {
        "4"
    } else if d == 5 {
        "5"
    } else if d == 6 {
        "6"
    } else if d == 7 {
        "7"
    } else if d == 8 {
        "8"
    } else {
        "9"
    }
}

/// The decimal numeral of `n` as a `String`.
pub fn dec_string(n: u64) -> (r: String)
    ensures
        r@ == dec_digits(n as nat),
    decreases n,
{
    if n < 10 {
        digit_str(n).to_owned()
    } else {
        let head = dec_string(n / 10);
        head.concat(digit_str(n % 10))
    }
}

/// The synthetic flag objective for the latch emitted by the `then` at source
/// line `line` while the renderer stood at nesting depth `depth`. Deriving the
/// name from both numbers keeps it deterministic and collision-free: sibling
/// blocks share a depth but never a line, nested blocks differ in both.
pub open spec fn flag_name(depth: nat, line: u32) -> Seq<char> {
    magic() + "_"@ + dec_digits(depth) + "_"@ + dec_digits(line as nat)
}

/// Executable twin of `flag_name`.
pub fn flag_name_string(depth: u64, line: u32) -> (r: String)
    ensures
        r@ == flag_name(depth as nat, line),
{
    let mut r = "__mcfn_internal".to_owned();
    r.append("_");
    r.append(dec_string(depth).as_str());
    r.append("_");
    r.append(dec_string(line as u64).as_str());
    r
}

/// Flags latched at the same depth by `then` directives on distinct lines
/// never collide.
pub proof fn lemma_flag_name_distinct(depth: nat, line_a: u32, line_b: u32)
    requires
        line_a != line_b,
    ensures
        flag_name(depth, line_a) != flag_name(depth, line_b),
{
    lemma_dec_digits_injective(line_a as nat, line_b as nat);
    let head = magic() + "_"@ + dec_digits(depth) + "_"@;
    let fa = flag_name(depth, line_a);
    let fb = flag_name(depth, line_b);
    if fa == fb {
        assert(fa =~= head + dec_digits(line_a as nat));
        assert(fb =~= head + dec_digits(line_b as nat));
        assert(fa.skip(head.len() as int) =~= dec_digits(line_a as nat));
        assert(fb.skip(head.len() as int) =~= dec_digits(line_b as nat));
        assert(false);
    }
}

/// The command that creates the named counter.
pub open spec fn declare_cmd(name: Seq<char>) -> Seq<char> {
    "scoreboard objectives add "@ + name + " dummy\n"@
}

/// Executable twin of `declare_cmd`.
pub fn declare_cmd_string(name: &str) -> (r: String)
    ensures
        r@ == declare_cmd(name@),
{
    let mut r = "scoreboard objectives add ".to_owned();
    r.append(name);
    r.append(" dummy\n");
    r
}

/// The command that removes the named counter.
pub open spec fn delete_cmd(name: Seq<char>) -> Seq<char> {
    "scoreboard objectives remove "@ + name + "\n"@
}

/// Executable twin of `delete_cmd`.
pub fn delete_cmd_string(name: &str) -> (r: String)
    ensures
        r@ == delete_cmd(name@),
{
    let mut r = "scoreboard objectives remove ".to_owned();
    r.append(name);
    r.append("\n");
    r
}

/// The command that zeroes the latch flag before it is evaluated.
pub open spec fn zero_cmd(flag: Seq<char>) -> Seq<char> {
    "scoreboard players set "@ + magic() + " "@ + flag + " 0\n"@
}

/// Executable twin of `zero_cmd`.
pub fn zero_cmd_string(flag: &str) -> (r: String)
    ensures
        r@ == zero_cmd(flag@),
{
    let mut r = "scoreboard players set ".to_owned();
    r.append("__mcfn_internal");
    r.append(" ");
    r.append(flag);
    r.append(" 0\n");
    r
}

/// The clauses `" if c"` for every positive condition, in order.
pub open spec fn if_clauses(conds: Seq<Seq<char>>) -> Seq<char>
    decreases conds.len(),
{
    if conds.len() == 0 {
        Seq::empty()
    } else {
        if_clauses(conds.drop_last()) + " if "@ + conds.last()
    }
}

/// The clauses `" unless c"` for every negated condition, in order.
pub open spec fn unless_clauses(conds: Seq<Seq<char>>) -> Seq<char>
    decreases conds.len(),
{
    if conds.len() == 0 {
        Seq::empty()
    } else {
        unless_clauses(conds.drop_last()) + " unless "@ + conds.last()
    }
}

/// The single command that evaluates the whole conjunction once and latches
/// the flag to 1 when it holds.
pub open spec fn eval_cmd(ifs: Seq<Seq<char>>, ifns: Seq<Seq<char>>, flag: Seq<char>) -> Seq<char> {
    "execute"@ + if_clauses(ifs) + unless_clauses(ifns) + " run scoreboard players set "@ + magic()
        + " "@ + flag + " 1\n"@
}

/// The prefix that guards one line on the latch holding.
pub open spec fn guard_prefix(flag: Seq<char>) -> Seq<char> {
    "execute if score "@ + magic() + " "@ + flag + " matches 1 run "@
}

/// Executable twin of `guard_prefix`.
pub fn guard_prefix_string(flag: &str) -> (r: String)
    ensures
        r@ == guard_prefix(flag@),
{
    let mut r = "execute if score ".to_owned();
    r.append("__mcfn_internal");
    r.append(" ");
    r.append(flag);
    r.append(" matches 1 run ");
    r
}

/// The prefix that guards one line on the latch not holding.
pub open spec fn unless_prefix(flag: Seq<char>) -> Seq<char> {
    "execute unless score "@ + magic() + " "@ + flag + " matches 1 run "@
}

/// Executable twin of `unless_prefix`.
pub fn unless_prefix_string(flag: &str) -> (r: String)
    ensures
        r@ == unless_prefix(flag@),
{
    let mut r = "execute unless score ".to_owned();
    r.append("__mcfn_internal");
    r.append(" ");
    r.append(flag);
    r.append(" matches 1 run ");
    r
}

/// The index of the first line break, or the length if none.
pub open spec fn find_newline(s: Seq<char>) -> int
    decreases s.len(),
{
    if s.len() == 0 {
        0
    } else if s[0] == '\n' {
        0
    } else {
        1 + find_newline(s.drop_first())
    }
}

/// `find_newline` points at the first line break: everything before it is not
/// one, and it is in range.
pub proof fn lemma_find_newline_bounds(s: Seq<char>)
    ensures
        0 <= find_newline(s) <= s.len(),
        forall|j: int| 0 <= j < find_newline(s) ==> #[trigger] s[j] != '\n',
        find_newline(s) < s.len() ==> s[find_newline(s)] == '\n',
    decreases s.len(),
{
    if s.len() != 0 && s[0] != '\n' {
        let d = s.drop_first();
        lemma_find_newline_bounds(d);
        assert forall|j: int| 0 <= j < find_newline(s) implies #[trigger] s[j] != '\n' by {
            if j >= 1 {
                assert(s[j] == d[j - 1]);
            }
        }
        if find_newline(s) < s.len() {
            assert(s[find_newline(s)] == d[find_newline(d)]);
        }
    }
}

/// A scan that stopped at `k` computes `find_newline`.
pub proof fn lemma_find_newline_at(s: Seq<char>, k: int)
    requires
        0 <= k <= s.len(),
        forall|j: int| 0 <= j < k ==> #[trigger] s[j] != '\n',
        k < s.len() ==> s[k] == '\n',
    ensures
        find_newline(s) == k,
    decreases k,
{
    if k != 0 {
        lemma_find_newline_at(s.drop_first(), k - 1);
    }
}

/// The text split at line breaks: the final break, when there is one, ends the
/// last line rather than opening an empty one.
pub open spec fn split_lines(s: Seq<char>) -> Seq<Seq<char>>
    decreases s.len(),
    via split_lines_decreases
{
    if s.len() == 0 {
        Seq::empty()
    } else {
        let k = find_newline(s);
        if k == s.len() {
            seq![s]
        } else {
            seq![s.take(k)] + split_lines(s.skip(k + 1))
        }
    }
}

#[via_fn]
proof fn split_lines_decreases(s: Seq<char>) {
    if s.len() != 0 {
        lemma_find_newline_bounds(s);
    }
}

/// Each given line in turn, prefixed with `p` and closed with a line break.
pub open spec fn glue_prefixed(p: Seq<char>, ls: Seq<Seq<char>>) -> Seq<char>
    decreases ls.len(),
{
    if ls.len() == 0 {
        Seq::empty()
    } else {
        p + ls[0] + "\n"@ + glue_prefixed(p, ls.drop_first())
    }
}

/// The block `s`, re-emitted with every one of its lines prefixed with `p`.
pub open spec fn prefix_lines(p: Seq<char>, s: Seq<char>) -> Seq<char> {
    glue_prefixed(p, split_lines(s))
}

/// Executable twin of `prefix_lines`.
pub fn prefix_lines_string(p: &str, s: &str) -> (r: String)
    ensures
        r@ == prefix_lines(p@, s@),
    decreases s@.len(),
{
    let n = s.unicode_len();
    if n == 0 {
        return String::new();
    }
    let mut k: usize = 0;
    while k < n && s.get_char(k) != '\n'
        invariant
            n == s@.len(),
            k <= n,
            forall|j: int| 0 <= j < k ==> #[trigger] s@[j] != '\n',
        decreases n - k,
    {
        k = k + 1;
    }
    proof {
        lemma_find_newline_at(s@, k as int);
    }
    let mut r = p.to_owned();
    if k == n {
        r.append(s);
        r.append("\n");
        proof {
            assert(split_lines(s@) == seq![s@]);
            let ls = split_lines(s@);
            assert(ls[0] == s@);
            assert(ls.drop_first() =~= Seq::<Seq<char>>::empty());
            assert(glue_prefixed(p@, ls) == p@ + ls[0] + "\n"@ + glue_prefixed(p@, ls.drop_first()));
            assert(glue_prefixed(p@, Seq::<Seq<char>>::empty()) == Seq::<char>::empty());
            assert(r@ =~= prefix_lines(p@, s@));
        }
        r
    } else {
        let head = s.substring_char(0, k);
        let tail = s.substring_char(k + 1, n);
        r.append(head);
        r.append("\n");
        let rest = prefix_lines_string(p, tail);
        r.append(rest.as_str());
        proof {
            assert(head@ =~= s@.take(k as int));
            assert(tail@ =~= s@.skip(k + 1));
            assert(split_lines(s@) == seq![s@.take(k as int)] + split_lines(s@.skip(k + 1)));
            assert((seq![s@.take(k as int)] + split_lines(s@.skip(k + 1)))[0] == s@.take(k as int));
            assert((seq![s@.take(k as int)] + split_lines(s@.skip(k + 1))).drop_first()
                =~= split_lines(s@.skip(k + 1)));
            let ls = split_lines(s@);
            assert(glue_prefixed(p@, ls) == p@ + ls[0] + "\n"@ + glue_prefixed(p@, ls.drop_first()));
            assert(glue_prefixed(p@, ls.drop_first()) == rest@);
            assert(r@ =~= prefix_lines(p@, s@));
        }
        r
    }
}

} // verus!

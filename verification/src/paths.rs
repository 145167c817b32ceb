//! Naming of the per-process state directories and files, and the decimal
//! text of process IDs that appears in those names.
use vstd::prelude::*;

verus! {

/// Name of the directory, under the system temp directory, that holds one
/// sub-directory per monitored process.
pub const STATE_ROOT_DIR: &'static str = "opencode-subagent-statusline";

/// Name of the state file inside each per-process directory.
pub const STATE_FILE_NAME: &'static str = "state.json";

/// Largest value of a `u32`, as a mathematical integer.
pub open spec fn u32_max() -> nat {
    0xffff_ffff
}

/// An ASCII decimal digit.
pub open spec fn is_digit(c: char) -> bool {
    '0' <= c && c <= '9'
}

/// The value of an ASCII decimal digit.
pub open spec fn digit_value(c: char) -> nat {
    (c as int - '0' as int) as nat
}

/// The character of a decimal digit `d < 10`.
pub open spec fn digit_char(d: nat) -> char {
    seq!['0', '1', '2', '3', '4', '5', '6', '7', '8', '9'][d as int]
}

/// Every character of `s` is a decimal digit.
pub open spec fn all_digits(s: Seq<char>) -> bool {
    forall|i: int| 0 <= i < s.len() ==> is_digit(#[trigger] s[i])
}

/// The number that a string of decimal digits denotes (most significant first).
pub open spec fn digits_value(s: Seq<char>) -> nat
    decreases s.len(),
{
    if s.len() == 0 {
        0
    } else {
        digits_value(s.drop_last()) * 10 + digit_value(s.last())
    }
}

/// The shortest decimal text of `n`, with no sign and no leading zeros.
pub open spec fn decimal(n: nat) -> Seq<char>
    decreases n,
{
    if n < 10 {
        seq![digit_char(n)]
    } else {
        decimal(n / 10).push(digit_char(n % 10))
    }
}

/// What the standard library's `u32` parser makes of `s`: an optional `+`,
/// then one or more ASCII digits whose value fits in a `u32`.
pub open spec fn parse_u32_text(s: Seq<char>) -> Option<u32> {
    let digits = if s.len() > 0 && s[0] == '+' { s.drop_first() } else { s };
    if digits.len() > 0 && all_digits(digits) && digits_value(digits) <= u32_max() {
        Some(digits_value(digits) as u32)
    } else {
        None
    }
}

/// The prefix of a per-process directory name.
pub open spec fn pid_prefix() -> Seq<char> {
    seq!['p', 'i', 'd', '-']
}

/// The name of the state directory of process `pid`: `pid-<pid>`.
pub open spec fn pid_dir_text(pid: u32) -> Seq<char> {
    pid_prefix() + decimal(pid as nat)
}

/// The process ID that a directory name stands for: the name must start with
/// `pid-` and the rest must parse as a `u32`.
pub open spec fn pid_of_dir_text(name: Seq<char>) -> Option<u32> {
    if name.len() >= 4 && name.take(4) == pid_prefix() {
        parse_u32_text(name.skip(4))
    } else {
        None
    }
}

/// The text of one decimal digit.
fn digit_str(d: u32) -> (s: &'static str)
    requires
        d < 10,
    ensures
        s@ == seq![digit_char(d as nat)],
{
    match d {
        0 => { proof { reveal_strlit("0"); } "0" },
        1 => { proof { reveal_strlit("1"); } "1" },
        2 => { proof { reveal_strlit("2"); } "2" },
        3 => { proof { reveal_strlit("3"); } "3" },
        4 => { proof { reveal_strlit("4"); } "4" },
        5 => { proof { reveal_strlit("5"); } "5" },
        6 => { proof { reveal_strlit("6"); } "6" },
        7 => { proof { reveal_strlit("7"); } "7" },
        8 => { proof { reveal_strlit("8"); } "8" },
        _ => { proof { reveal_strlit("9"); } "9" },
    }
}

/// The decimal text of `n`, as `format!("{}", n)` writes it.
pub fn decimal_string(n: u32) -> (s: String)
    ensures
        s@ == decimal(n as nat),
    decreases n,
{
    if n < 10 {
        digit_str(n).to_owned()
    } else {
        let mut s = decimal_string(n / 10);
        s.append(digit_str(n % 10));
        s
    }
}

/// The name of the state directory of process `pid`, as in
/// `${TMPDIR}/opencode-subagent-statusline/pid-${PID}/state.json`.
pub fn pid_dir_name(pid: u32) -> (s: String)
    ensures
        s@ == pid_dir_text(pid),
{
    proof {
        reveal_strlit("pid-");
    }
    let mut s = "pid-".to_owned();
    s.append(decimal_string(pid).as_str());
    s
}

/// The digit characters are digits, and each denotes its own value.
proof fn lemma_digit_char(d: nat)
    requires
        d < 10,
    ensures
        is_digit(digit_char(d)),
        digit_value(digit_char(d)) == d,
        digit_char(d) != '+',
{
    if d == 0 {} else if d == 1 {} else if d == 2 {} else if d == 3 {} else if d == 4 {}
    else if d == 5 {} else if d == 6 {} else if d == 7 {} else if d == 8 {} else {}
}

/// The decimal text of `n` is a non-empty string of digits, without a sign,
/// whose value is `n`.
proof fn lemma_decimal(n: nat)
    ensures
        decimal(n).len() > 0,
        all_digits(decimal(n)),
        digits_value(decimal(n)) == n,
        decimal(n)[0] != '+',
    decreases n,
{
    if n < 10 {
        lemma_digit_char(n);
        assert(decimal(n).drop_last() =~= Seq::<char>::empty());
        assert(digits_value(Seq::<char>::empty()) == 0);
    } else {
        lemma_decimal(n / 10);
        lemma_digit_char(n % 10);
        let s = decimal(n);
        assert(s.drop_last() =~= decimal(n / 10));
        assert(s.last() == digit_char(n % 10));
        assert((n / 10) * 10 + n % 10 == n) by (nonlinear_arith);
        assert(digits_value(s) == digits_value(decimal(n / 10)) * 10 + digit_value(digit_char(n % 10)));
        assert forall|i: int| 0 <= i < s.len() implies is_digit(#[trigger] s[i]) by {
            if i < s.len() - 1 {
                assert(s[i] == decimal(n / 10)[i]);
            }
        }
    }
}

/// The decimal text of a positive number has no leading zero.
proof fn lemma_decimal_leading_digit(n: nat)
    requires
        n > 0,
    ensures
        decimal(n)[0] != '0',
    decreases n,
{
    if n < 10 {
        if n == 1 {} else if n == 2 {} else if n == 3 {} else if n == 4 {} else if n == 5 {}
        else if n == 6 {} else if n == 7 {} else if n == 8 {} else {}
    } else {
        lemma_decimal_leading_digit(n / 10);
        lemma_decimal(n / 10);
        assert(decimal(n)[0] == decimal(n / 10)[0]);
    }
}

/// The decimal text of `n` is its canonical form, as `format!("{}", n)`
/// writes it: a non-empty string of ASCII digits whose value is `n`, with no
/// leading zero unless `n` is 0, which is written `0`.
pub proof fn lemma_decimal_canonical(n: nat)
    ensures
        decimal(n).len() > 0,
        all_digits(decimal(n)),
        digits_value(decimal(n)) == n,
        n > 0 ==> decimal(n)[0] != '0',
        n == 0 ==> decimal(n) == seq!['0'],
{
    lemma_decimal(n);
    if n > 0 {
        lemma_decimal_leading_digit(n);
    }
}

/// The directory name of a process is `pid-` followed by the canonical decimal
/// text of its PID: no leading zeros, value equal to the PID.
pub proof fn lemma_pid_dir_text_canonical(pid: u32)
    ensures
        pid_dir_text(pid).len() >= 5,
        pid_dir_text(pid).take(4) == pid_prefix(),
        digits_value(pid_dir_text(pid).skip(4)) == pid,
        all_digits(pid_dir_text(pid).skip(4)),
        pid > 0 ==> pid_dir_text(pid)[4] != '0',
{
    lemma_decimal_canonical(pid as nat);
    assert(pid_dir_text(pid).take(4) =~= pid_prefix());
    assert(pid_dir_text(pid).skip(4) =~= decimal(pid as nat));
}

/// Extending a string of digits never lowers its value.
proof fn lemma_digits_value_prefix(s: Seq<char>, k: int)
    requires
        0 <= k <= s.len(),
    ensures
        digits_value(s.take(k)) <= digits_value(s),
    decreases s.len() - k,
{
    if k < s.len() {
        lemma_digits_value_prefix(s.drop_last(), k);
        assert(s.drop_last().take(k) =~= s.take(k));
    } else {
        assert(s.take(k) =~= s);
    }
}

/// Parse the part of `s` from character `from` on as a `u32`, as `str::parse`
/// does.
fn parse_u32_from(s: &str, from: usize) -> (r: Option<u32>)
    requires
        from <= s@.len(),
    ensures
        r == parse_u32_text(s@.skip(from as int)),
{
    let n = s.unicode_len();
    let ghost text = s@.skip(from as int);
    let mut i = from;
    if i < n && s.get_char(i) == '+' {
        i = i + 1;
    }
    let start = i;
    let ghost digits = s@.subrange(start as int, n as int);
    assert(digits =~= if text.len() > 0 && text[0] == '+' { text.drop_first() } else { text });
    if start == n {
        return None;
    }
    let mut acc: u64 = 0;
    while i < n
        invariant
            start <= i <= n,
            n == s@.len(),
            digits == s@.subrange(start as int, n as int),
            text == s@.skip(from as int),
            digits == (if text.len() > 0 && text[0] == '+' { text.drop_first() } else { text }),
            digits.len() > 0,
            acc == digits_value(digits.take(i - start)),
            all_digits(digits.take(i - start)),
            acc <= u32_max(),
        decreases n - i,
    {
        let c = s.get_char(i);
        let k: usize = i - start;
        if !('0' <= c && c <= '9') {
            assert(!is_digit(digits[k as int]));
            return None;
        }
        assert(digits.take(k + 1).drop_last() =~= digits.take(k as int));
        acc = acc * 10 + ((c as u32) - ('0' as u32)) as u64;
        assert(all_digits(digits.take(k + 1))) by {
            assert forall|j: int| 0 <= j < k + 1 implies is_digit(#[trigger] digits.take(k + 1)[j]) by {
                if j < k {
                    assert(digits.take(k + 1)[j] == digits.take(k as int)[j]);
                }
            }
        }
        if acc > 0xffff_ffff {
            proof {
                if all_digits(digits) {
                    lemma_digits_value_prefix(digits, k + 1);
                }
            }
            return None;
        }
        i = i + 1;
    }
    assert(digits.take(n - start) =~= digits);
    Some(acc as u32)
}

/// Parse `s` as a `u32` in the way `s.parse::<u32>().ok()` does.
pub fn parse_u32(s: &str) -> (r: Option<u32>)
    ensures
        r == parse_u32_text(s@),
{
    assert(s@.skip(0) =~= s@);
    parse_u32_from(s, 0)
}

/// The process ID named by a state directory such as `pid-12988`; `None`
/// when the name does not start with `pid-` followed by a `u32`.
pub fn parse_pid_dir_name(name: &str) -> (r: Option<u32>)
    ensures
        r == pid_of_dir_text(name@),
{
    let n = name.unicode_len();
    if n < 4 {
        return None;
    }
    let c0 = name.get_char(0);
    let c1 = name.get_char(1);
    let c2 = name.get_char(2);
    let c3 = name.get_char(3);
    if !(c0 == 'p' && c1 == 'i' && c2 == 'd' && c3 == '-') {
        assert(name@.take(4)[0] == c0 && name@.take(4)[1] == c1);
        assert(name@.take(4)[2] == c2 && name@.take(4)[3] == c3);
        return None;
    }
    assert(name@.take(4) =~= pid_prefix());
    parse_u32_from(name, 4)
}

/// A state directory name gives back the process ID it was made from.
pub proof fn lemma_pid_dir_round_trip(pid: u32)
    ensures
        pid_of_dir_text(pid_dir_text(pid)) == Some(pid),
{
    let name = pid_dir_text(pid);
    lemma_decimal(pid as nat);
    assert(name.take(4) =~= pid_prefix());
    assert(name.skip(4) =~= decimal(pid as nat));
}

} // verus!

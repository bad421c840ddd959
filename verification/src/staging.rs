//! Names for staged copies.
//!
//! A dynamic linker may hand back an image it has already mapped when it is
//! asked for the same path again. To get fresh code, every load opens a copy
//! under a name that was never used before: the artifact's file name, the
//! process id and a timestamp in nanoseconds.

use crate::error::ModuleError;
use vstd::prelude::*;

verus! {

/// The decimal digit for a number below ten.
pub open spec fn digit(d: nat) -> char
    recommends
        d < 10,
{
    if d == 0 {
        '0'
    } else if d == 1 {
        '1'
    } else if d == 2 {
        '2'
    } else if d == 3 {
        '3'
    } else if d == 4 {
        '4'
    } else if d == 5 {
        '5'
    } else if d == 6 {
        '6'
    } else if d == 7 {
        '7'
    } else if d == 8 {
        '8'
    } else {
        '9'
    }
}

/// A number in decimal, without leading zeros.
pub open spec fn decimal(n: nat) -> Seq<char>
    decreases n,
{
    if n < 10 {
        seq![digit(n)]
    } else {
        decimal(n / 10).push(digit(n % 10))
    }
}

/// The name of the staged copy of a file called `file_name`, made by process
/// `pid` at `nanos` nanoseconds.
pub open spec fn staged_name(file_name: Seq<char>, pid: nat, nanos: nat) -> Seq<char> {
    file_name + seq!['_'] + decimal(pid) + seq!['_'] + decimal(nanos)
}

/// Whether a character is a decimal digit.
pub open spec fn is_digit(c: char) -> bool {
    c == '0' || c == '1' || c == '2' || c == '3' || c == '4' || c == '5' || c == '6' || c == '7'
        || c == '8' || c == '9'
}

/// The number that a decimal digit stands for.
pub open spec fn digit_value(c: char) -> nat {
    if c == '1' {
        1
    } else if c == '2' {
        2
    } else if c == '3' {
        3
    } else if c == '4' {
        4
    } else if c == '5' {
        5
    } else if c == '6' {
        6
    } else if c == '7' {
        7
    } else if c == '8' {
        8
    } else if c == '9' {
        9
    } else {
        0
    }
}

/// The number that a row of decimal digits stands for.
pub open spec fn decimal_value(digits: Seq<char>) -> nat
    decreases digits.len(),
{
    if digits.len() == 0 {
        0
    } else {
        decimal_value(digits.drop_last()) * 10 + digit_value(digits.last())
    }
}

/// A number in decimal is a row of at least one digit that stands for the
/// number.
pub proof fn lemma_decimal(n: nat)
    ensures
        decimal(n).len() >= 1,
        forall|i: int| 0 <= i < decimal(n).len() ==> is_digit(#[trigger] decimal(n)[i]),
        decimal_value(decimal(n)) == n,
    decreases n,
{
    if n < 10 {
        assert(decimal(n).drop_last() =~= Seq::<char>::empty());
        assert(decimal_value(decimal(n).drop_last()) == 0);
        assert(decimal(n).last() == digit(n));
    } else {
        lemma_decimal(n / 10);
        assert(decimal(n).drop_last() =~= decimal(n / 10));
        assert(decimal(n).last() == digit(n % 10));
    }
}

/// Two numbers with the same decimal form are the same number.
pub proof fn lemma_decimal_injective(a: nat, b: nat)
    requires
        decimal(a) == decimal(b),
    ensures
        a == b,
{
    lemma_decimal(a);
    lemma_decimal(b);
}

/// Staged copies of one artifact get different names unless both the process
/// and the time are the same: no two loads that differ in either share a
/// staged copy.
pub proof fn law_staged_names_differ(
    file_name: Seq<char>,
    pid: nat,
    nanos: nat,
    other_pid: nat,
    other_nanos: nat,
)
    requires
        staged_name(file_name, pid, nanos) == staged_name(file_name, other_pid, other_nanos),
    ensures
        pid == other_pid,
        nanos == other_nanos,
{
    lemma_decimal(pid);
    lemma_decimal(nanos);
    lemma_decimal(other_pid);
    lemma_decimal(other_nanos);
    let head = file_name + seq!['_'];
    let a = staged_name(file_name, pid, nanos);
    let b = staged_name(file_name, other_pid, other_nanos);
    let p = decimal(pid);
    let q = decimal(other_pid);
    let m = decimal(nanos);
    let n = decimal(other_nanos);
    assert(a =~= head + p + seq!['_'] + m);
    assert(b =~= head + q + seq!['_'] + n);
    let h = head.len() as int;
    if p.len() < q.len() {
        assert(a[h + p.len()] == '_');
        assert(b[h + p.len()] == q[p.len() as int]);
        assert(is_digit(q[p.len() as int]));
        assert(false);
    }
    if q.len() < p.len() {
        assert(b[h + q.len()] == '_');
        assert(a[h + q.len()] == p[q.len() as int]);
        assert(is_digit(p[q.len() as int]));
        assert(false);
    }
    assert forall|i: int| 0 <= i < p.len() implies p[i] == q[i] by {
        assert(a[h + i] == p[i]);
        assert(b[h + i] == q[i]);
    }
    assert(p =~= q);
    assert(a.len() == b.len());
    assert(m.len() == n.len());
    assert forall|i: int| 0 <= i < m.len() implies m[i] == n[i] by {
        assert(a[h + p.len() + 1 + i] == m[i]);
        assert(b[h + q.len() + 1 + i] == n[i]);
    }
    assert(m =~= n);
    lemma_decimal_injective(pid, other_pid);
    lemma_decimal_injective(nanos, other_nanos);
}

/// `std::io::Error::new` with the kind `InvalidInput` and the given message.
/// Nothing is claimed of the error that comes back.
#[verifier::external_body]
fn invalid_input(message: &str) -> (e: std::io::Error) {
    std::io::Error::new(std::io::ErrorKind::InvalidInput, message)
}

fn digit_str(d: u8) -> (s: &'static str)
    requires
        d < 10,
    ensures
        s@ == seq![digit(d as nat)],
{
    proof {
        reveal_strlit("0");
        reveal_strlit("1");
        reveal_strlit("2");
        reveal_strlit("3");
        reveal_strlit("4");
        reveal_strlit("5");
        reveal_strlit("6");
        reveal_strlit("7");
        reveal_strlit("8");
        reveal_strlit("9");
    }
    let s = if d == 0 {
        "0"
    } else if d == 1 {
        "1"
    } else if d == 2 {
        "2"
    } else if d == 3 {
        "3"
    } else if d == 4 {
        "4"
    } else if d == 5 {
        "5"
    } else if d == 6 {
        "6"
    } else if d == 7 {
        "7"
    } else if d == 8 {
        "8"
    } else {
        "9"
    };
    assert(s@ =~= seq![digit(d as nat)]);
    s
}

/// Appends `n` in decimal to `out`.
fn push_decimal(out: &mut String, n: u128)
    ensures
        final(out)@ == old(out)@ + decimal(n as nat),
    decreases n,
{
    if n >= 10 {
        push_decimal(out, n / 10);
    }
    let d: u8 = (n % 10) as u8;
    out.append(digit_str(d));
    assert(final(out)@ =~= old(out)@ + decimal(n as nat));
}

/// The file name for a staged copy of an artifact whose own file name is
/// `file_name`. A path that ends in no file name cannot be staged.
pub fn staged_file_name(file_name: Option<&str>, pid: u32, nanos: u128) -> (r: Result<
    String,
    ModuleError,
>)
    ensures
        file_name is None ==> r is Err && r->Err_0 is Io,
        file_name matches Some(f) ==> r matches Ok(name) && name@ == staged_name(
            f@,
            pid as nat,
            nanos as nat,
        ),
{
    match file_name {
        None => Err(ModuleError::Io(invalid_input("Invalid file path"))),
        Some(f) => {
            proof {
                reveal_strlit("_");
            }
            let mut name = String::from_str(f);
            name.append("_");
            push_decimal(&mut name, pid as u128);
            name.append("_");
            push_decimal(&mut name, nanos);
            assert(name@ =~= staged_name(f@, pid as nat, nanos as nat));
            Ok(name)
        },
    }
}

} // verus!

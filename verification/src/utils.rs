//! Interface names: the search for a virtual-interface name that no live
//! interface carries.

use vstd::prelude::*;
use vstd::string::StringExecFns;
use network_interface::NetworkInterfaceConfig;

verus! {

/// The character for one decimal digit.
pub open spec fn digit_char(d: nat) -> char
    recommends
        d < 10,
{
    if d == 0 {
        '0'
    } else if d == 1 {
        '1'
    } else if d == 2 {
        '2'
    } else if d == 3 {
        '3'
    } else if d == 4 {
        '4'
    } else if d == 5 {
        '5'
    } else if d == 6 {
        '6'
    } else if d == 7 {
        '7'
    } else if d == 8 {
        '8'
    } else {
        '9'
    }
}

/// The decimal numeral of `n`, without leading zeros.
pub open spec fn decimal(n: nat) -> Seq<char>
    decreases n,
{
    if n < 10 {
        seq![digit_char(n)]
    } else {
        decimal(n / 10).push(digit_char(n % 10))
    }
}

/// The `k`-th candidate name for a base: the base followed by the numeral of `k`.
pub open spec fn candidate(base: Seq<char>, k: nat) -> Seq<char> {
    base + decimal(k)
}

/// Whether some interface in the snapshot carries `name`.
pub open spec fn name_taken(names: Seq<String>, name: Seq<char>) -> bool {
    exists|i: int| 0 <= i < names.len() && (#[trigger] names[i])@ == name
}

/// Whether `k` is the first suffix whose candidate name is free in the snapshot.
pub open spec fn is_first_free(names: Seq<String>, base: Seq<char>, k: nat) -> bool {
    &&& !name_taken(names, candidate(base, k))
    &&& forall|j: nat| j < k ==> name_taken(names, #[trigger] candidate(base, j))
}

/// A numeral has at least one digit, and a number of two or more digits has
/// at least two.
pub proof fn lemma_decimal_len(n: nat)
    ensures
        decimal(n).len() >= 1,
        n >= 10 ==> decimal(n).len() >= 2,
    decreases n,
{
    if n >= 10 {
        lemma_decimal_len(n / 10);
    }
}

/// Different digits have different characters.
pub proof fn lemma_digit_char_injective(a: nat, b: nat)
    requires
        a < 10,
        b < 10,
        digit_char(a) == digit_char(b),
    ensures
        a == b,
{
    assert(digit_char(a) as u32 == 48 + a);
    assert(digit_char(b) as u32 == 48 + b);
}

/// Different numbers have different numerals.
pub proof fn lemma_decimal_injective(a: nat, b: nat)
    requires
        decimal(a) == decimal(b),
    ensures
        a == b,
    decreases a,
{
    lemma_decimal_len(a);
    lemma_decimal_len(b);
    if a < 10 && b < 10 {
        assert(decimal(a)[0] == digit_char(a));
        assert(decimal(b)[0] == digit_char(b));
        lemma_digit_char_injective(a, b);
    } else if a >= 10 && b >= 10 {
        let da = decimal(a / 10);
        let db = decimal(b / 10);
        assert(decimal(a).last() == digit_char(a % 10));
        assert(decimal(b).last() == digit_char(b % 10));
        assert(decimal(a).drop_last() =~= da);
        assert(decimal(b).drop_last() =~= db);
        lemma_decimal_injective(a / 10, b / 10);
        lemma_digit_char_injective(a % 10, b % 10);
        assert(a == 10 * (a / 10) + a % 10);
        assert(b == 10 * (b / 10) + b % 10);
    } else {
        assert(decimal(a).len() != decimal(b).len());
    }
}

/// Different suffixes give different candidate names.
pub proof fn lemma_candidate_injective(base: Seq<char>, a: nat, b: nat)
    requires
        candidate(base, a) == candidate(base, b),
    ensures
        a == b,
{
    let ca = candidate(base, a);
    let cb = candidate(base, b);
    assert(ca.subrange(base.len() as int, ca.len() as int) =~= decimal(a));
    assert(cb.subrange(base.len() as int, cb.len() as int) =~= decimal(b));
    lemma_decimal_injective(a, b);
}

/// Among `n + 1` values below `n`, two are equal.
proof fn lemma_pigeonhole(slots: Seq<int>, n: nat)
    requires
        slots.len() == n + 1,
        forall|k: int| 0 <= k < slots.len() ==> 0 <= #[trigger] slots[k] < n,
    ensures
        exists|i: int, j: int| 0 <= i < j < slots.len() && slots[i] == slots[j],
    decreases n,
{
    if n == 0 {
        let first = slots[0];
        assert(0 <= first < n);
    } else {
        let last = slots[n as int];
        if exists|k: int| 0 <= k < n && slots[k] == last {
            let k = choose|k: int| 0 <= k < n && slots[k] == last;
            let top = n as int;
            assert(0 <= k < top && top < slots.len() && slots[k] == slots[top]);
        } else {
            let folded = Seq::new(
                n,
                |k: int|
                    if slots[k] == n - 1 {
                        last
                    } else {
                        slots[k]
                    },
            );
            assert forall|k: int| 0 <= k < folded.len() implies 0 <= #[trigger] folded[k] < n
                - 1 by {
                assert(0 <= slots[k] < n);
                assert(slots[k] != last);
            }
            lemma_pigeonhole(folded, (n - 1) as nat);
            let (i, j) = choose|i: int, j: int|
                0 <= i < j < folded.len() && folded[i] == folded[j];
            assert(slots[i] != last && slots[j] != last);
            assert(slots[i] == slots[j]);
        }
    }
}

/// A snapshot of `n` interfaces leaves one of the first `n + 1` candidate
/// names free.
pub proof fn lemma_some_candidate_free(names: Seq<String>, base: Seq<char>)
    ensures
        exists|k: nat| k <= names.len() && !name_taken(names, #[trigger] candidate(base, k)),
{
    let n = names.len();
    if forall|k: nat| k <= n ==> name_taken(names, #[trigger] candidate(base, k)) {
        let slots = Seq::new(
            n + 1,
            |k: int|
                choose|i: int|
                    0 <= i < names.len() && (#[trigger] names[i])@ == candidate(base, k as nat),
        );
        assert forall|k: int| 0 <= k < slots.len() implies 0 <= #[trigger] slots[k] < n by {
            assert(name_taken(names, candidate(base, k as nat)));
        }
        lemma_pigeonhole(slots, n);
        let (i, j) = choose|i: int, j: int| 0 <= i < j < slots.len() && slots[i] == slots[j];
        assert(name_taken(names, candidate(base, i as nat)));
        assert(name_taken(names, candidate(base, j as nat)));
        assert(names[slots[i]]@ == candidate(base, i as nat));
        assert(names[slots[j]]@ == candidate(base, j as nat));
        lemma_candidate_injective(base, i as nat, j as nat);
    }
}

fn digit_text(d: u8) -> (r: &'static str)
    requires
        d < 10,
    ensures
        r@ == seq![digit_char(d as nat)],
{
    proof {
        reveal_strlit("0");
        reveal_strlit("1");
        reveal_strlit("2");
        reveal_strlit("3");
        reveal_strlit("4");
        reveal_strlit("5");
        reveal_strlit("6");
        reveal_strlit("7");
        reveal_strlit("8");
        reveal_strlit("9");
    }
    let r = if d == 0 {
        "0"
    } else if d == 1 {
        "1"
    } else if d == 2 {
        "2"
    } else if d == 3 {
        "3"
    } else if d == 4 {
        "4"
    } else if d == 5 {
        "5"
    } else if d == 6 {
        "6"
    } else if d == 7 {
        "7"
    } else if d == 8 {
        "8"
    } else {
        "9"
    };
    assert(r@ =~= seq![digit_char(d as nat)]);
    r
}

fn append_decimal(text: &mut String, n: u64)
    ensures
        final(text)@ == old(text)@ + decimal(n as nat),
    decreases n,
{
    if n >= 10 {
        append_decimal(text, n / 10);
    }
    let ghost before = text@;
    text.append(digit_text((n % 10) as u8));
    assert(text@ =~= old(text)@ + decimal(n as nat)) by {
        if n >= 10 {
            assert(before == old(text)@ + decimal((n / 10) as nat));
        }
    }
}

/// The candidate name with suffix `index`: the base followed by the decimal
/// numeral of the index.
pub fn candidate_name(base: &str, index: u64) -> (r: String)
    ensures
        r@ == candidate(base@, index as nat),
{
    let mut name = String::from_str(base);
    append_decimal(&mut name, index);
    name
}

/// Whether no interface of the snapshot carries `name`.
pub fn name_is_free(names: &Vec<String>, name: &String) -> (r: bool)
    ensures
        r == !name_taken(names@, name@),
{
    let mut i: usize = 0;
    while i < names.len()
        invariant
            i <= names.len(),
            forall|j: int| 0 <= j < i ==> (#[trigger] names@[j])@ != name@,
        decreases names.len() - i,
    {
        if names[i] == *name {
            return false;
        }
        i = i + 1;
    }
    true
}

/// The first candidate name `base0`, `base1`, ... that no interface of the
/// snapshot carries. A snapshot of `n` interfaces always leaves one of the
/// first `n + 1` candidates free, so the search ends.
pub fn first_free_name(base: &str, names: &Vec<String>) -> (r: String)
    ensures
        exists|k: nat|
            k <= names.len() && is_first_free(names@, base@, k) && r@ == candidate(base@, k),
{
    let mut index: usize = 0;
    loop
        invariant
            index <= names.len(),
            forall|j: nat| j < index ==> name_taken(names@, #[trigger] candidate(base@, j)),
        decreases names.len() - index,
    {
        let name = candidate_name(base, index as u64);
        if name_is_free(names, &name) {
            assert(is_first_free(names@, base@, index as nat));
            return name;
        }
        proof {
            if index == names.len() {
                lemma_some_candidate_free(names@, base@);
                let k = choose|k: nat|
                    k <= names.len() && !name_taken(names@, #[trigger] candidate(base@, k));
                assert(name_taken(names@, candidate(base@, k)));
            }
        }
        index = index + 1;
    }
}

/// Asks the operating system for its interfaces through
/// `network_interface::NetworkInterface::show` and hands out their names, or
/// `None` where the enumeration failed. Nothing is claimed of the names: they
/// are whatever the machine has at the moment of the call.
#[verifier::external_body]
pub(crate) fn list_interface_names() -> (r: Option<Vec<String>>) {
    match network_interface::NetworkInterface::show() {
        Ok(interfaces) => Some(interfaces.into_iter().map(|i| i.name).collect()),
        Err(_) => None,
    }
}

/// The names of a listing, where a failed listing counts as no interfaces.
pub fn names_or_empty(listing: Option<Vec<String>>) -> (r: Vec<String>)
    ensures
        r@ == match listing {
            Some(names) => names@,
            None => Seq::<String>::empty(),
        },
{
    match listing {
        Some(names) => names,
        None => Vec::new(),
    }
}

/// A fresh snapshot of the live interface names; empty where the operating
/// system could not be asked.
pub fn live_interface_names() -> (r: Vec<String>) {
    names_or_empty(list_interface_names())
}

/// Whether no live interface carries `name` right now. The interfaces are
/// enumerated anew on every call, and a failed enumeration counts as no
/// interfaces. The answer is advisory: another process may create the
/// interface between this check and any use of the name.
pub fn check_free_interface_name(name: &str) -> (r: bool) {
    let names = live_interface_names();
    let wanted = String::from_str(name);
    name_is_free(&names, &wanted)
}

/// The first name `base0`, `base1`, ... that a probe of the live interfaces
/// found free. Every probe enumerates the interfaces anew, so the name is
/// free at the time of its own probe and reserved by nothing afterwards.
pub fn generate_free_interface_name(base: &str) -> (r: String)
    ensures
        exists|k: nat| r@ == candidate(base@, k),
{
    let mut index: u64 = 0;
    while index < u64::MAX
        invariant
            index <= u64::MAX,
        decreases u64::MAX - index,
    {
        let name = candidate_name(base, index);
        let wanted = name.as_str();
        if check_free_interface_name(wanted) {
            return name;
        }
        index = index + 1;
    }
    candidate_name(base, index)
}

} // verus!

use vstd::prelude::*;
use vstd::set_lib::{lemma_int_range, lemma_len_subset, lemma_map_size, set_int_range};
use vstd::string::*;

verus! {

/// Index of the last `.` in `s`, or -1 when there is none.
pub open spec fn last_dot(s: Seq<char>) -> int
    decreases s.len(),
{
    if s.len() == 0 {
        -1
    } else if s.last() == '.' {
        s.len() - 1
    } else {
        last_dot(s.drop_last())
    }
}

/// The name without its extension. A name whose only dot leads it (a hidden
/// file such as `.notes`) has no extension.
pub open spec fn stem_of(name: Seq<char>) -> Seq<char> {
    let d = last_dot(name);
    if d <= 0 {
        name
    } else {
        name.take(d)
    }
}

/// What follows the last dot of a name, empty when the name has none.
pub open spec fn extension_of(name: Seq<char>) -> Seq<char> {
    let d = last_dot(name);
    if d <= 0 {
        Seq::empty()
    } else {
        name.skip(d + 1)
    }
}

/// The decimal digit for `d`.
pub open spec fn digit_char(d: nat) -> char {
    if d == 0 {
        '0'
    } else if d == 1 {
        '1'
    } else if d == 2 {
        '2'
    } else if d == 3 {
        '3'
    } else if d == 4 {
        '4'
    } else if d == 5 {
        '5'
    } else if d == 6 {
        '6'
    } else if d == 7 {
        '7'
    } else if d == 8 {
        '8'
    } else {
        '9'
    }
}

/// `n` written in decimal, without leading zeros.
pub open spec fn decimal(n: nat) -> Seq<char>
    decreases n,
{
    if n < 10 {
        seq![digit_char(n)]
    } else {
        decimal(n / 10).push(digit_char(n % 10))
    }
}

/// The `n`-th alternative name: `stem (n)` or `stem (n).ext`.
pub open spec fn numbered_name(stem: Seq<char>, ext: Seq<char>, n: nat) -> Seq<char> {
    let base = stem + seq![' ', '('] + decimal(n) + seq![')'];
    if ext.len() == 0 {
        base
    } else {
        base + seq!['.'] + ext
    }
}

/// Whether `name` is among the names of `existing`.
pub open spec fn name_taken(existing: Seq<String>, name: Seq<char>) -> bool {
    exists|i: int| 0 <= i < existing.len() && existing[i]@ == name
}

/// The name under which an entry called `base` lands in a directory that
/// already holds `existing`: `base` itself when free, else the alternative
/// name with the least counter from 1 on that is free.
pub open spec fn is_destination_name(base: Seq<char>, existing: Seq<String>, r: Seq<char>) -> bool {
    &&& !name_taken(existing, r)
    &&& !name_taken(existing, base) ==> r == base
    &&& name_taken(existing, base) ==> exists|k: nat|
        #![trigger numbered_name(stem_of(base), extension_of(base), k)]
        k >= 1 && r == numbered_name(stem_of(base), extension_of(base), k) && forall|j: nat|
            1 <= j < k ==> name_taken(
                existing,
                #[trigger] numbered_name(stem_of(base), extension_of(base), j),
            )
}

proof fn lemma_decimal_len(n: nat)
    ensures
        decimal(n).len() >= 1,
        n >= 10 ==> decimal(n).len() >= 2,
    decreases n,
{
    if n >= 10 {
        lemma_decimal_len(n / 10);
    }
}

proof fn lemma_digit_char_injective(a: nat, b: nat)
    requires
        a < 10,
        b < 10,
        digit_char(a) == digit_char(b),
    ensures
        a == b,
{
}

/// Distinct numbers have distinct decimal forms.
proof fn lemma_decimal_injective(a: nat, b: nat)
    requires
        decimal(a) == decimal(b),
    ensures
        a == b,
    decreases a,
{
    lemma_decimal_len(a);
    lemma_decimal_len(b);
    if a >= 10 && b >= 10 {
        assert(decimal(a).last() == digit_char(a % 10));
        assert(decimal(b).last() == digit_char(b % 10));
        lemma_digit_char_injective(a % 10, b % 10);
        assert(decimal(a / 10) =~= decimal(a).drop_last());
        assert(decimal(b / 10) =~= decimal(b).drop_last());
        lemma_decimal_injective(a / 10, b / 10);
    } else if a < 10 && b < 10 {
        assert(decimal(a) == seq![digit_char(a)]);
        assert(decimal(b) == seq![digit_char(b)]);
        assert(decimal(a)[0] == decimal(b)[0]);
        assert(seq![digit_char(a)][0] == digit_char(a));
        assert(seq![digit_char(b)][0] == digit_char(b));
        lemma_digit_char_injective(a, b);
    }
}

/// Distinct counters give distinct alternative names.
pub proof fn lemma_numbered_name_injective(stem: Seq<char>, ext: Seq<char>, a: nat, b: nat)
    requires
        numbered_name(stem, ext, a) == numbered_name(stem, ext, b),
    ensures
        a == b,
{
    let sa = numbered_name(stem, ext, a);
    let sb = numbered_name(stem, ext, b);
    let da = decimal(a);
    let db = decimal(b);
    let lo: int = stem.len() as int + 2;
    if ext.len() == 0 {
        assert(sa.len() == lo + da.len() + 1);
        assert(sb.len() == lo + db.len() + 1);
    } else {
        assert(sa.len() == lo + da.len() + 2 + ext.len());
        assert(sb.len() == lo + db.len() + 2 + ext.len());
    }
    assert(da.len() == db.len());
    assert(sa.subrange(lo, lo + da.len() as int) =~= da);
    assert(sb.subrange(lo, lo + db.len() as int) =~= db);
    lemma_decimal_injective(a, b);
}

spec fn index_of_name(existing: Seq<String>, name: Seq<char>) -> int {
    choose|i: int| 0 <= i < existing.len() && existing[i]@ == name
}

/// When the first `k` alternative names are all taken, `existing` has at
/// least `k` names.
proof fn lemma_taken_bound(stem: Seq<char>, ext: Seq<char>, existing: Seq<String>, k: nat)
    requires
        forall|j: nat| 1 <= j <= k ==> name_taken(existing, #[trigger] numbered_name(stem, ext, j)),
    ensures
        k <= existing.len(),
{
    let xs = set_int_range(1, k as int + 1);
    let f = |j: int| index_of_name(existing, numbered_name(stem, ext, j as nat));
    lemma_int_range(1, k as int + 1);
    assert forall|j: int| xs.contains(j) implies 0 <= #[trigger] f(j) < existing.len()
        && existing[f(j)]@ == numbered_name(stem, ext, j as nat) by {
        assert(name_taken(existing, numbered_name(stem, ext, j as nat)));
    }
    assert(vstd::relations::injective_on(f, xs)) by {
        assert forall|x: int, y: int| xs.contains(x) && xs.contains(y) && #[trigger] f(x) == #[trigger] f(
            y,
        ) implies x == y by {
            lemma_numbered_name_injective(stem, ext, x as nat, y as nat);
        }
    }
    lemma_map_size(xs, xs.map(f), f);
    let ys = set_int_range(0, existing.len() as int);
    lemma_int_range(0, existing.len() as int);
    assert(xs.map(f).subset_of(ys));
    lemma_len_subset(xs.map(f), ys);
}

/// The decimal digit for `d` as text.
fn digit_str(d: u128) -> (r: &'static str)
    requires
        d < 10,
    ensures
        r@ == seq![digit_char(d as nat)],
{
    proof {
        reveal_strlit("0");
        reveal_strlit("1");
        reveal_strlit("2");
        reveal_strlit("3");
        reveal_strlit("4");
        reveal_strlit("5");
        reveal_strlit("6");
        reveal_strlit("7");
        reveal_strlit("8");
        reveal_strlit("9");
    }
    if d == 0 {
        "0"
    } else if d == 1 {
        "1"
    } else if d == 2 {
        "2"
    } else if d == 3 {
        "3"
    } else if d == 4 {
        "4"
    } else if d == 5 {
        "5"
    } else if d == 6 {
        "6"
    } else if d == 7 {
        "7"
    } else if d == 8 {
        "8"
    } else {
        "9"
    }
}

/// Writes `n` in decimal.
pub fn decimal_string(n: u128) -> (r: String)
    ensures
        r@ == decimal(n as nat),
    decreases n,
{
    if n < 10 {
        String::from_str(digit_str(n))
    } else {
        let mut s = decimal_string(n / 10);
        s.append(digit_str(n % 10));
        s
    }
}

/// Splits a file name into its stem and extension.
pub fn split_name(name: &String) -> (r: (String, String))
    ensures
        r.0@ == stem_of(name@),
        r.1@ == extension_of(name@),
{
    let s = name.as_str();
    let len = s.unicode_len();
    let mut i: usize = len;
    assert(name@.take(len as int) =~= name@);
    while i > 0 && s.get_char(i - 1) != '.'
        invariant
            i <= len,
            len == s@.len(),
            s@ == name@,
            last_dot(name@) == last_dot(name@.take(i as int)),
        decreases i,
    {
        assert(name@.take(i as int).drop_last() =~= name@.take(i - 1));
        i = i - 1;
    }
    proof {
        if i > 0 {
            assert(name@.take(i as int).last() == '.');
        } else {
            assert(name@.take(0) =~= Seq::<char>::empty());
        }
    }
    if i <= 1 {
        (name.clone(), String::new())
    } else {
        let stem = String::from_str(s.substring_char(0, i - 1));
        let ext = String::from_str(s.substring_char(i, len));
        assert(stem@ =~= name@.take(i - 1));
        assert(ext@ =~= name@.skip(i as int));
        (stem, ext)
    }
}

/// Builds the `n`-th alternative name for a stem and extension.
pub fn numbered_name_string(stem: &String, ext: &String, n: u128) -> (r: String)
    ensures
        r@ == numbered_name(stem@, ext@, n as nat),
{
    proof {
        reveal_strlit(" (");
        reveal_strlit(")");
        reveal_strlit(".");
    }
    let mut r = stem.clone();
    r.append(" (");
    let digits = decimal_string(n);
    r.append(digits.as_str());
    r.append(")");
    if ext.as_str().unicode_len() > 0 {
        r.append(".");
        r.append(ext.as_str());
    }
    r
}

/// Whether `name` equals one of `existing`.
pub fn contains_name(existing: &Vec<String>, name: &String) -> (r: bool)
    ensures
        r == name_taken(existing@, name@),
{
    let mut i: usize = 0;
    while i < existing.len()
        invariant
            i <= existing.len(),
            forall|j: int| 0 <= j < i ==> existing@[j]@ != name@,
        decreases existing.len() - i,
    {
        if existing[i] == *name {
            return true;
        }
        i = i + 1;
    }
    false
}

/// Picks the name under which an entry called `base` is placed in a
/// directory whose entries are named `existing`, so that nothing there is
/// overwritten: `base` when it is free, otherwise `stem (n).ext` (or
/// `stem (n)` for a name without extension) for the least `n >= 1` that is
/// free.
pub fn choose_destination_name(base: &String, existing: &Vec<String>) -> (r: String)
    ensures
        is_destination_name(base@, existing@, r@),
{
    if !contains_name(existing, base) {
        return base.clone();
    }
    let (stem, ext) = split_name(base);
    let ghost st = stem_of(base@);
    let ghost ex = extension_of(base@);
    let n_existing = existing.len();
    let mut counter: u128 = 1;
    let mut candidate = numbered_name_string(&stem, &ext, counter);
    while contains_name(existing, &candidate)
        invariant
            stem@ == st,
            ext@ == ex,
            n_existing == existing@.len(),
            1 <= counter <= existing@.len() + 1,
            candidate@ == numbered_name(st, ex, counter as nat),
            forall|j: nat| 1 <= j < counter ==> name_taken(existing@, #[trigger] numbered_name(st, ex, j)),
        decreases existing@.len() + 1 - counter,
    {
        proof {
            assert forall|j: nat| 1 <= j <= counter implies name_taken(
                existing@,
                #[trigger] numbered_name(st, ex, j),
            ) by {
                if j == counter {
                    assert(name_taken(existing@, candidate@));
                }
            }
            lemma_taken_bound(st, ex, existing@, counter as nat);
        }
        counter = counter + 1;
        candidate = numbered_name_string(&stem, &ext, counter);
    }
    candidate
}

} // verus!

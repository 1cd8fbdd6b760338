//! Version comparison.
//!
//! A version string is a sequence of dot-separated non-negative integer
//! components, optionally followed by `-` and a non-empty pre-release
//! suffix. Comparison is field-wise numeric on the components (missing
//! trailing components count as zero); when the numeric components are
//! equal, a version with a pre-release suffix orders before the same
//! version without one, and two pre-release suffixes order
//! lexicographically by character.

use vstd::prelude::*;
use crate::errors::UpdateError;

verus! {

/// The outcome of comparing two versions.
#[derive(Clone, Copy, Debug, PartialEq, Eq, Structural)]
pub enum Cmp {
    Less,
    Equal,
    Greater,
}

/// The mirror image of a comparison outcome.
pub open spec fn flip(c: Cmp) -> Cmp {
    match c {
        Cmp::Less => Cmp::Greater,
        Cmp::Equal => Cmp::Equal,
        Cmp::Greater => Cmp::Less,
    }
}

/// An ASCII decimal digit.
pub open spec fn is_digit(c: char) -> bool {
    48 <= c as u32 <= 57
}

/// The numeric value of an ASCII decimal digit.
pub open spec fn digit_val(c: char) -> nat {
    (c as u32 - 48) as nat
}

/// Index of the first occurrence of `sep` in `s`, or -1 if none.
pub open spec fn first_at(s: Seq<char>, sep: char) -> int
    decreases s.len(),
{
    if s.len() == 0 {
        -1
    } else if s[0] == sep {
        0
    } else {
        let r = first_at(s.skip(1), sep);
        if r < 0 {
            -1
        } else {
            r + 1
        }
    }
}

/// `first_at` finds the first occurrence: the characterization every
/// caller relies on.
pub proof fn lemma_first_at(s: Seq<char>, sep: char)
    ensures
        first_at(s, sep) == -1 ==> forall|j: int| 0 <= j < s.len() ==> s[j] != sep,
        first_at(s, sep) != -1 ==> 0 <= first_at(s, sep) < s.len()
            && s[first_at(s, sep)] == sep
            && forall|j: int| 0 <= j < first_at(s, sep) ==> s[j] != sep,
    decreases s.len(),
{
    if s.len() == 0 {
    } else if s[0] == sep {
    } else {
        lemma_first_at(s.skip(1), sep);
        let r = first_at(s.skip(1), sep);
        if r < 0 {
            assert forall|j: int| 0 <= j < s.len() implies s[j] != sep by {
                if j > 0 {
                    assert(s[j] == s.skip(1)[j - 1]);
                }
            }
        } else {
            assert(s[r + 1] == s.skip(1)[r]);
            assert forall|j: int| 0 <= j < r + 1 implies s[j] != sep by {
                if j > 0 {
                    assert(s[j] == s.skip(1)[j - 1]);
                }
            }
        }
    }
}

/// The dot-separated components of a numeric core.
pub open spec fn groups(s: Seq<char>) -> Seq<Seq<char>>
    decreases s.len(),
{
    let i = first_at(s, '.');
    if i < 0 || i >= s.len() {
        seq![s]
    } else {
        seq![s.take(i)] + groups(s.skip(i + 1))
    }
}

/// The numeric core of a version string: everything before the first `-`.
pub open spec fn core_of(s: Seq<char>) -> Seq<char> {
    let i = first_at(s, '-');
    if i < 0 {
        s
    } else {
        s.take(i)
    }
}

/// The pre-release suffix: everything after the first `-`, if any.
pub open spec fn suffix_of(s: Seq<char>) -> Option<Seq<char>> {
    let i = first_at(s, '-');
    if i < 0 {
        None
    } else {
        Some(s.skip(i + 1))
    }
}

/// A non-empty, all-digit component.
pub open spec fn is_digit_seq(g: Seq<char>) -> bool {
    g.len() > 0 && forall|j: int| 0 <= j < g.len() ==> is_digit(#[trigger] g[j])
}

/// A well-formed version string: every component of the numeric core is a
/// non-empty digit run, and a pre-release suffix, if present, is non-empty.
pub open spec fn valid_version(s: Seq<char>) -> bool {
    &&& forall|k: int| 0 <= k < groups(core_of(s)).len() ==> is_digit_seq(#[trigger] groups(core_of(s))[k])
    &&& match suffix_of(s) {
        None => true,
        Some(p) => p.len() > 0,
    }
}

/// The numeric value of a digit run, most significant digit first.
pub open spec fn digits_val(g: Seq<char>) -> nat
    decreases g.len(),
{
    if g.len() == 0 {
        0
    } else {
        digits_val(g.drop_last()) * 10 + digit_val(g.last())
    }
}

/// Ten to the `n`.
pub open spec fn pow10(n: nat) -> nat
    decreases n,
{
    if n == 0 {
        1
    } else {
        10 * pow10((n - 1) as nat)
    }
}

/// Each numeric component this implementation accepts must have a value
/// below 10^19 so that it fits in a 64-bit machine word.
pub open spec fn version_fits(s: Seq<char>) -> bool {
    forall|k: int| 0 <= k < groups(core_of(s)).len()
        ==> digits_val(#[trigger] groups(core_of(s))[k]) < pow10(19)
}

/// The values of the components of a numeric core.
pub open spec fn vals_of(s: Seq<char>) -> Seq<nat> {
    groups(s).map_values(|g: Seq<char>| digits_val(g))
}

/// Field-wise numeric comparison from index `i` on, reading missing
/// trailing components as zero.
pub open spec fn cmp_num_from(a: Seq<nat>, b: Seq<nat>, i: int) -> Cmp
    decreases a.len() + b.len() - i,
{
    if i >= a.len() && i >= b.len() {
        Cmp::Equal
    } else {
        let x: nat = if i < a.len() { a[i] } else { 0 };
        let y: nat = if i < b.len() { b[i] } else { 0 };
        if x < y {
            Cmp::Less
        } else if y < x {
            Cmp::Greater
        } else {
            cmp_num_from(a, b, i + 1)
        }
    }
}

/// Field-wise numeric comparison of two component-value sequences.
pub open spec fn cmp_num_seq(a: Seq<nat>, b: Seq<nat>) -> Cmp {
    cmp_num_from(a, b, 0)
}

/// Lexicographic character comparison from index `i` on; a proper prefix
/// orders before its extension.
pub open spec fn lex_from(a: Seq<char>, b: Seq<char>, i: int) -> Cmp
    decreases a.len() + b.len() - i,
{
    if i >= a.len() && i >= b.len() {
        Cmp::Equal
    } else if i >= a.len() {
        Cmp::Less
    } else if i >= b.len() {
        Cmp::Greater
    } else if (a[i] as u32) < (b[i] as u32) {
        Cmp::Less
    } else if (b[i] as u32) < (a[i] as u32) {
        Cmp::Greater
    } else {
        lex_from(a, b, i + 1)
    }
}

/// Lexicographic comparison of two pre-release suffixes.
pub open spec fn lex_cmp(a: Seq<char>, b: Seq<char>) -> Cmp {
    lex_from(a, b, 0)
}

/// The order on version strings: numeric components first; on a tie, a
/// pre-release suffix orders before none, and two suffixes compare
/// lexicographically.
pub open spec fn version_cmp(a: Seq<char>, b: Seq<char>) -> Cmp {
    let n = cmp_num_seq(vals_of(core_of(a)), vals_of(core_of(b)));
    if n != Cmp::Equal {
        n
    } else {
        match (suffix_of(a), suffix_of(b)) {
            (None, None) => Cmp::Equal,
            (Some(_), None) => Cmp::Less,
            (None, Some(_)) => Cmp::Greater,
            (Some(x), Some(y)) => lex_cmp(x, y),
        }
    }
}

/// Powers of ten are positive.
pub proof fn lemma_pow10_pos(n: nat)
    ensures
        pow10(n) >= 1,
    decreases n,
{
    if n > 0 {
        lemma_pow10_pos((n - 1) as nat);
    }
}

/// Powers of ten grow monotonically.
pub proof fn lemma_pow10_mono(m: nat, n: nat)
    requires
        m <= n,
    ensures
        1 <= pow10(m) <= pow10(n),
    decreases n,
{
    lemma_pow10_pos(m);
    if m < n {
        lemma_pow10_mono(m, (n - 1) as nat);
    }
}

/// The concrete powers of ten at the implementation's component bound.
pub proof fn lemma_pow10_values()
    ensures
        pow10(18) == 1000000000000000000,
        pow10(19) == 10000000000000000000,
{
    reveal_with_fuel(pow10, 21);
}

/// A digit run starting with a non-zero digit has a value of at least
/// 10^(length - 1).
pub proof fn lemma_digits_val_lower(g: Seq<char>)
    requires
        g.len() > 0,
        forall|j: int| 0 <= j < g.len() ==> is_digit(#[trigger] g[j]),
        g[0] != '0',
    ensures
        digits_val(g) >= pow10((g.len() - 1) as nat),
    decreases g.len(),
{
    if g.len() == 1 {
        assert(is_digit(g[0]));
        assert(g[0] as u32 != 48) by {
            if g[0] as u32 == 48 {
                vstd::utf8::char_u32_cast(g[0], 48);
                vstd::utf8::char_u32_cast('0', 48);
            }
        }
        assert(digit_val(g[0]) >= 1);
        assert(digits_val(g.drop_last()) == 0);
    } else {
        lemma_digits_val_lower(g.drop_last());
    }
}

/// Leading zero digits do not change a run's value.
pub proof fn lemma_skip_leading_zeros(g: Seq<char>, z: int)
    requires
        0 <= z <= g.len(),
        forall|j: int| 0 <= j < z ==> #[trigger] g[j] == '0',
    ensures
        digits_val(g) == digits_val(g.skip(z)),
    decreases g.len(),
{
    if z == 0 {
        assert(g.skip(0) =~= g);
    } else if z == g.len() {
        lemma_skip_leading_zeros(g.drop_last(), z - 1);
        assert(g.drop_last().skip(z - 1) =~= Seq::<char>::empty());
        assert(digit_val(g.last()) == 0);
        assert(g.skip(z) =~= Seq::<char>::empty());
    } else {
        lemma_skip_leading_zeros(g.drop_last(), z);
        assert(g.drop_last().skip(z) =~= g.skip(z).drop_last());
        assert(g.skip(z).last() == g.last());
        assert(g.skip(z).len() > 0);
    }
}

/// Parses one numeric component: a non-empty digit run whose value is
/// below 10^19 (so it fits in a 64-bit word). Leading zeros are accepted
/// and ignored.
fn parse_group(s: &str) -> (r: Option<u64>)
    ensures
        r.is_some() <==> is_digit_seq(s@) && digits_val(s@) < pow10(19),
        match r {
            Some(v) => v as nat == digits_val(s@),
            None => true,
        },
{
    let n = s.unicode_len();
    if n == 0 {
        return None;
    }
    let mut i: usize = 0;
    while i < n
        invariant
            n == s@.len(),
            0 <= i <= n,
            forall|j: int| 0 <= j < i ==> is_digit(#[trigger] s@[j]),
        decreases n - i,
    {
        let u = s.get_char(i) as u32;
        if u < 48 || u > 57 {
            return None;
        }
        i = i + 1;
    }
    let mut z: usize = 0;
    while z < n && s.get_char(z) as u32 == 48
        invariant
            n == s@.len(),
            0 <= z <= n,
            forall|j: int| 0 <= j < z ==> #[trigger] s@[j] == '0',
        decreases n - z,
    {
        z = z + 1;
    }
    proof {
        lemma_skip_leading_zeros(s@, z as int);
    }
    if n - z > 19 {
        proof {
            let rest = s@.skip(z as int);
            assert(rest[0] == s@[z as int]);
            assert(rest[0] != '0');
            lemma_digits_val_lower(rest);
            lemma_pow10_mono(19, (rest.len() - 1) as nat);
        }
        return None;
    }
    proof {
        lemma_pow10_values();
    }
    let mut acc: u64 = 0;
    let mut k: usize = z;
    while k < n
        invariant
            n == s@.len(),
            0 <= z <= k <= n,
            n - z <= 19,
            forall|j: int| 0 <= j < n ==> is_digit(#[trigger] s@[j]),
            acc as nat == digits_val(s@.subrange(z as int, k as int)),
            acc < pow10((k - z) as nat),
            pow10(19) == 10000000000000000000,
        decreases n - k,
    {
        let c = s.get_char(k);
        let d: u32 = c as u32 - 48;
        proof {
            lemma_pow10_mono((k - z) as nat, 18);
            lemma_pow10_values();
            assert(s@.subrange(z as int, k as int + 1).drop_last() =~= s@.subrange(
                z as int,
                k as int,
            ));
            assert(s@.subrange(z as int, k as int + 1).last() == s@[k as int]);
        }
        acc = acc * 10 + (d as u64);
        k = k + 1;
    }
    proof {
        assert(s@.subrange(z as int, n as int) =~= s@.skip(z as int));
        lemma_pow10_mono((n - z) as nat, 19);
    }
    Some(acc)
}

/// Index of the first occurrence of `sep` in `s`, if any.
fn find_char(s: &str, sep: char) -> (r: Option<usize>)
    ensures
        match r {
            Some(i) => first_at(s@, sep) == i as int,
            None => first_at(s@, sep) == -1,
        },
{
    let n = s.unicode_len();
    let mut i: usize = 0;
    while i < n
        invariant
            n == s@.len(),
            0 <= i <= n,
            forall|j: int| 0 <= j < i ==> s@[j] != sep,
        decreases n - i,
    {
        if s.get_char(i) == sep {
            proof {
                lemma_first_at(s@, sep);
                let r = first_at(s@, sep);
                assert(s@[i as int] == sep);
                assert(r != -1);
                assert(!(r < i as int)) by {
                    if 0 <= r < i as int {
                        assert(s@[r] != sep);
                    }
                }
                assert(!(r > i as int)) by {
                    if r > i as int {
                        assert(s@[i as int] != sep);
                    }
                }
            }
            return Some(i);
        }
        i = i + 1;
    }
    proof {
        lemma_first_at(s@, sep);
    }
    None
}

/// Parses every dot-separated component of a numeric core.
fn parse_nums(s: &str) -> (r: Option<Vec<u64>>)
    ensures
        r.is_some() <==> (forall|k: int| 0 <= k < groups(s@).len()
            ==> is_digit_seq(#[trigger] groups(s@)[k]) && digits_val(groups(s@)[k]) < pow10(19)),
        match r {
            Some(v) => v@.len() == groups(s@).len() && forall|k: int| 0 <= k < v@.len()
                ==> v@[k] as nat == digits_val(#[trigger] groups(s@)[k]),
            None => true,
        },
    decreases s@.len(),
{
    match find_char(s, '.') {
        None => {
            proof {
                assert(groups(s@) =~= seq![s@]);
            }
            match parse_group(s) {
                Some(v) => {
                    let mut out: Vec<u64> = Vec::new();
                    out.push(v);
                    proof {
                        assert(out@ =~= seq![v]);
                        assert(groups(s@)[0] == s@);
                        assert(forall|k: int| 0 <= k < groups(s@).len() ==> #[trigger] groups(
                            s@,
                        )[k] == s@);
                    }
                    Some(out)
                },
                None => {
                    proof {
                        assert(groups(s@)[0] == s@);
                    }
                    None
                },
            }
        },
        Some(i) => {
            proof {
                lemma_first_at(s@, '.');
            }
            let n = s.unicode_len();
            let head = s.substring_char(0, i);
            let tail = s.substring_char(i + 1, n);
            proof {
                assert(head@ =~= s@.take(i as int));
                assert(tail@ =~= s@.skip(i + 1));
                assert(groups(s@) == seq![s@.take(i as int)] + groups(s@.skip(i + 1)));
                assert(groups(s@)[0] == head@);
                assert(groups(s@).len() == 1 + groups(tail@).len());
                assert(forall|k: int| 0 <= k < groups(tail@).len()
                    ==> #[trigger] groups(tail@)[k] == groups(s@)[k + 1]);
            }
            match parse_group(head) {
                None => {
                    proof {
                        assert(!(is_digit_seq(groups(s@)[0]) && digits_val(groups(s@)[0]) < pow10(
                            19,
                        )));
                    }
                    None
                },
                Some(v) => {
                    match parse_nums(tail) {
                        None => {
                            proof {
                                let k = choose|k: int| 0 <= k < groups(tail@).len()
                                    && !(is_digit_seq(#[trigger] groups(tail@)[k]) && digits_val(
                                    groups(tail@)[k],
                                ) < pow10(19));
                                assert(!(is_digit_seq(groups(s@)[k + 1]) && digits_val(
                                    groups(s@)[k + 1],
                                ) < pow10(19)));
                            }
                            None
                        },
                        Some(rest) => {
                            let mut out: Vec<u64> = Vec::new();
                            out.push(v);
                            let mut rest = rest;
                            let ghost grest = rest@;
                            out.append(&mut rest);
                            proof {
                                assert(out@.len() == groups(s@).len());
                                assert forall|k: int| 0 <= k < out@.len() implies #[trigger] out@[k]
                                    as nat == digits_val(groups(s@)[k]) by {
                                    if k == 0 {
                                        assert(groups(s@)[0] == head@);
                                    } else {
                                        assert(groups(tail@)[k - 1] == groups(s@)[k]);
                                        assert(out@[k] == grest[k - 1]);
                                    }
                                }
                                assert forall|k: int| 0 <= k < groups(s@).len() implies is_digit_seq(
                                    #[trigger] groups(s@)[k],
                                ) && digits_val(groups(s@)[k]) < pow10(19) by {
                                    if k == 0 {
                                        assert(groups(s@)[0] == head@);
                                    } else {
                                        assert(groups(tail@)[k - 1] == groups(s@)[k]);
                                    }
                                }
                            }
                            Some(out)
                        },
                    }
                },
            }
        },
    }
}

/// A parsed version: the numeric component values and the pre-release
/// suffix, if any.
pub struct Version {
    pub nums: Vec<u64>,
    pub pre: Option<String>,
}

/// `v` is the faithful parse of the version string `s`.
pub open spec fn version_rep_ok(v: Version, s: Seq<char>) -> bool {
    &&& v.nums@.len() == groups(core_of(s)).len()
    &&& forall|k: int| 0 <= k < v.nums@.len() ==> #[trigger] v.nums@[k] as nat == digits_val(
        groups(core_of(s))[k],
    )
    &&& match (v.pre, suffix_of(s)) {
        (None, None) => true,
        (Some(p), Some(q)) => p@ == q,
        _ => false,
    }
}

impl Version {
    /// Parses a version string, rejecting malformed input and numeric
    /// components at or above 10^19.
    pub fn parse(s: &str) -> (r: Result<Version, UpdateError>)
        ensures
            r.is_ok() <==> valid_version(s@) && version_fits(s@),
            match r {
                Ok(v) => version_rep_ok(v, s@),
                Err(e) => e == UpdateError::InvalidVersion,
            },
    {
        let n = s.unicode_len();
        let (core, pre): (&str, Option<&str>) = match find_char(s, '-') {
            None => (s, None),
            Some(i) => {
                proof {
                    lemma_first_at(s@, '-');
                }
                (s.substring_char(0, i), Some(s.substring_char(i + 1, n)))
            },
        };
        proof {
            assert(core@ =~= core_of(s@));
            match suffix_of(s@) {
                None => assert(pre is None),
                Some(q) => assert(pre matches Some(p) && p@ =~= q),
            }
        }
        if let Some(p) = pre {
            if p.unicode_len() == 0 {
                return Err(UpdateError::InvalidVersion);
            }
        }
        match parse_nums(core) {
            None => Err(UpdateError::InvalidVersion),
            Some(nums) => {
                let owned_pre: Option<String> = match pre {
                    None => None,
                    Some(p) => Some(p.to_owned()),
                };
                Ok(Version { nums, pre: owned_pre })
            },
        }
    }
}

/// Compares two sequences of numeric components field-wise, reading
/// missing trailing components as zero.
fn cmp_nums(a: &Vec<u64>, b: &Vec<u64>) -> (c: Cmp)
    ensures
        c == cmp_num_seq(a@.map_values(|x: u64| x as nat), b@.map_values(|x: u64| x as nat)),
{
    let ghost ga = a@.map_values(|x: u64| x as nat);
    let ghost gb = b@.map_values(|x: u64| x as nat);
    let mut i: usize = 0;
    while i < a.len() || i < b.len()
        invariant
            ga == a@.map_values(|x: u64| x as nat),
            gb == b@.map_values(|x: u64| x as nat),
            0 <= i,
            cmp_num_from(ga, gb, 0) == cmp_num_from(ga, gb, i as int),
        decreases a@.len() + b@.len() - i,
    {
        let x: u64 = if i < a.len() {
            a[i]
        } else {
            0
        };
        let y: u64 = if i < b.len() {
            b[i]
        } else {
            0
        };
        if x < y {
            return Cmp::Less;
        }
        if y < x {
            return Cmp::Greater;
        }
        i = i + 1;
    }
    Cmp::Equal
}

/// Compares two pre-release suffixes lexicographically by character.
fn lex_exec(a: &str, b: &str) -> (c: Cmp)
    ensures
        c == lex_cmp(a@, b@),
{
    let na = a.unicode_len();
    let nb = b.unicode_len();
    let mut i: usize = 0;
    while i < na || i < nb
        invariant
            na == a@.len(),
            nb == b@.len(),
            0 <= i,
            lex_from(a@, b@, 0) == lex_from(a@, b@, i as int),
        decreases a@.len() + b@.len() - i,
    {
        if i >= na {
            return Cmp::Less;
        }
        if i >= nb {
            return Cmp::Greater;
        }
        let x = a.get_char(i) as u32;
        let y = b.get_char(i) as u32;
        if x < y {
            return Cmp::Less;
        }
        if y < x {
            return Cmp::Greater;
        }
        i = i + 1;
    }
    Cmp::Equal
}

/// Compares two version strings.
///
/// Succeeds exactly when both strings are well-formed versions whose
/// numeric components fit the implementation's 64-bit bound; the result
/// is then the version order. Malformed input is rejected, never treated
/// as lower or higher.
pub fn compare(a: &str, b: &str) -> (r: Result<Cmp, UpdateError>)
    ensures
        r.is_ok() <==> valid_version(a@) && version_fits(a@) && valid_version(b@) && version_fits(
            b@,
        ),
        match r {
            Ok(c) => c == version_cmp(a@, b@),
            Err(e) => e == UpdateError::InvalidVersion,
        },
{
    let va = match Version::parse(a) {
        Ok(v) => v,
        Err(e) => {
            return Err(e);
        },
    };
    let vb = match Version::parse(b) {
        Ok(v) => v,
        Err(e) => {
            return Err(e);
        },
    };
    proof {
        assert(va.nums@.map_values(|x: u64| x as nat) =~= vals_of(core_of(a@)));
        assert(vb.nums@.map_values(|x: u64| x as nat) =~= vals_of(core_of(b@)));
    }
    let n = cmp_nums(&va.nums, &vb.nums);
    match n {
        Cmp::Less => Ok(Cmp::Less),
        Cmp::Greater => Ok(Cmp::Greater),
        Cmp::Equal => match (&va.pre, &vb.pre) {
            (Option::None, Option::None) => Ok(Cmp::Equal),
            (Option::Some(_), Option::None) => Ok(Cmp::Less),
            (Option::None, Option::Some(_)) => Ok(Cmp::Greater),
            (Option::Some(pa), Option::Some(pb)) => Ok(lex_exec(pa.as_str(), pb.as_str())),
        },
    }
}

proof fn lemma_cmp_num_refl(a: Seq<nat>, i: int)
    ensures
        cmp_num_from(a, a, i) == Cmp::Equal,
    decreases a.len() + a.len() - i,
{
    if i < a.len() {
        lemma_cmp_num_refl(a, i + 1);
    }
}

proof fn lemma_cmp_num_flip(a: Seq<nat>, b: Seq<nat>, i: int)
    ensures
        cmp_num_from(a, b, i) == flip(cmp_num_from(b, a, i)),
    decreases a.len() + b.len() - i,
{
    if i >= a.len() && i >= b.len() {
    } else {
        let x: nat = if i < a.len() { a[i] } else { 0 };
        let y: nat = if i < b.len() { b[i] } else { 0 };
        if x == y {
            lemma_cmp_num_flip(a, b, i + 1);
        }
    }
}

proof fn lemma_cmp_num_trans(a: Seq<nat>, b: Seq<nat>, c: Seq<nat>, i: int)
    requires
        cmp_num_from(a, b, i) != Cmp::Greater,
        cmp_num_from(b, c, i) != Cmp::Greater,
    ensures
        cmp_num_from(a, c, i) != Cmp::Greater,
        (cmp_num_from(a, b, i) == Cmp::Less || cmp_num_from(b, c, i) == Cmp::Less) ==> cmp_num_from(
            a,
            c,
            i,
        ) == Cmp::Less,
        (cmp_num_from(a, b, i) == Cmp::Equal && cmp_num_from(b, c, i) == Cmp::Equal)
            ==> cmp_num_from(a, c, i) == Cmp::Equal,
    decreases a.len() + b.len() + c.len() - i,
{
    if i >= a.len() && i >= b.len() && i >= c.len() {
    } else {
        let x: nat = if i < a.len() { a[i] } else { 0 };
        let y: nat = if i < b.len() { b[i] } else { 0 };
        let z: nat = if i < c.len() { c[i] } else { 0 };
        assert(x <= y);
        assert(y <= z);
        if x < z {
            assert(cmp_num_from(a, c, i) == Cmp::Less);
        } else {
            assert(x == y && y == z);
            lemma_cmp_num_trans(a, b, c, i + 1);
        }
    }
}

/// The rank of position `i` in a suffix: the character code shifted up by
/// one, with zero marking the end of the suffix.
spec fn lex_tok(a: Seq<char>, i: int) -> int {
    if i < a.len() {
        a[i] as u32 + 1
    } else {
        0
    }
}

proof fn lemma_lex_refl(a: Seq<char>, i: int)
    ensures
        lex_from(a, a, i) == Cmp::Equal,
    decreases a.len() + a.len() - i,
{
    if i < a.len() {
        lemma_lex_refl(a, i + 1);
    }
}

proof fn lemma_lex_flip(a: Seq<char>, b: Seq<char>, i: int)
    ensures
        lex_from(a, b, i) == flip(lex_from(b, a, i)),
    decreases a.len() + b.len() - i,
{
    if i >= a.len() && i >= b.len() {
    } else if i < a.len() && i < b.len() {
        if a[i] as u32 == b[i] as u32 {
            vstd::utf8::char_u32_cast(a[i], a[i] as u32);
            vstd::utf8::char_u32_cast(b[i], b[i] as u32);
            lemma_lex_flip(a, b, i + 1);
        }
    }
}

proof fn lemma_lex_trans(a: Seq<char>, b: Seq<char>, c: Seq<char>, i: int)
    requires
        lex_from(a, b, i) != Cmp::Greater,
        lex_from(b, c, i) != Cmp::Greater,
    ensures
        lex_from(a, c, i) != Cmp::Greater,
        (lex_from(a, b, i) == Cmp::Less || lex_from(b, c, i) == Cmp::Less) ==> lex_from(a, c, i)
            == Cmp::Less,
        (lex_from(a, b, i) == Cmp::Equal && lex_from(b, c, i) == Cmp::Equal) ==> lex_from(a, c, i)
            == Cmp::Equal,
    decreases a.len() + b.len() + c.len() - i,
{
    if i >= a.len() && i >= b.len() && i >= c.len() {
    } else {
        let x = lex_tok(a, i);
        let y = lex_tok(b, i);
        let z = lex_tok(c, i);
        assert(x <= y);
        assert(y <= z);
        if x < z {
            assert(lex_from(a, c, i) == Cmp::Less);
        } else {
            assert(x == y && y == z);
            if x == 0 {
                assert(lex_from(a, c, i) == Cmp::Equal);
            } else {
                vstd::utf8::char_u32_cast(a[i], a[i] as u32);
                vstd::utf8::char_u32_cast(b[i], b[i] as u32);
                vstd::utf8::char_u32_cast(c[i], c[i] as u32);
                lemma_lex_trans(a, b, c, i + 1);
            }
        }
    }
}

/// Comparing a version with itself yields `Equal`.
pub proof fn lemma_compare_reflexive(a: Seq<char>)
    requires
        valid_version(a),
    ensures
        version_cmp(a, a) == Cmp::Equal,
{
    lemma_cmp_num_refl(vals_of(core_of(a)), 0);
    match suffix_of(a) {
        Some(x) => lemma_lex_refl(x, 0),
        None => {},
    }
}

/// The version order is antisymmetric: swapping the arguments mirrors the
/// outcome.
pub proof fn lemma_compare_antisymmetric(a: Seq<char>, b: Seq<char>)
    requires
        valid_version(a),
        valid_version(b),
    ensures
        version_cmp(a, b) == flip(version_cmp(b, a)),
{
    lemma_cmp_num_flip(vals_of(core_of(a)), vals_of(core_of(b)), 0);
    match (suffix_of(a), suffix_of(b)) {
        (Some(x), Some(y)) => lemma_lex_flip(x, y, 0),
        _ => {},
    }
}

/// The version order is transitive: two steps that never go up cannot
/// end up above the start; a strict step anywhere keeps the whole chain
/// strict, and two even steps stay even.
pub proof fn lemma_compare_transitive(a: Seq<char>, b: Seq<char>, c: Seq<char>)
    requires
        valid_version(a),
        valid_version(b),
        valid_version(c),
        version_cmp(a, b) != Cmp::Greater,
        version_cmp(b, c) != Cmp::Greater,
    ensures
        version_cmp(a, c) != Cmp::Greater,
        (version_cmp(a, b) == Cmp::Less || version_cmp(b, c) == Cmp::Less) ==> version_cmp(a, c)
            == Cmp::Less,
        (version_cmp(a, b) == Cmp::Equal && version_cmp(b, c) == Cmp::Equal) ==> version_cmp(a, c)
            == Cmp::Equal,
{
    let na = vals_of(core_of(a));
    let nb = vals_of(core_of(b));
    let nc = vals_of(core_of(c));
    lemma_cmp_num_trans(na, nb, nc, 0);
    if cmp_num_seq(na, nb) == Cmp::Equal && cmp_num_seq(nb, nc) == Cmp::Equal {
        match (suffix_of(a), suffix_of(b), suffix_of(c)) {
            (Some(x), Some(y), Some(z)) => {
                lemma_lex_trans(x, y, z, 0);
            },
            _ => {},
        }
    }
}

} // verus!

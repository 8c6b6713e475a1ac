use vstd::prelude::*;
use vstd::string::{StrSliceExecFns, StringExecFns};
use crate::error::Error;

verus! {

/// A three-part numeric version, only ever produced from text that matches
/// exactly `<major>.<minor>.<patch>`: three runs of decimal digits separated
/// by literal dots, with no sign, no surrounding whitespace and no trailing
/// text.
#[derive(Debug, Clone, Copy, PartialEq, Eq, Structural)]
pub struct Version {
    pub major: u32,
    pub minor: u32,
    pub patch: u32,
}

/// A decimal digit, `'0'` through `'9'`.
pub open spec fn is_digit(c: char) -> bool {
    48 <= c as int <= 57
}

/// The numeric value of a decimal digit.
pub open spec fn digit_val(c: char) -> int {
    c as int - 48
}

/// The value of a run of decimal digits, most significant first.
pub open spec fn digits_val(s: Seq<char>) -> int
    decreases s.len(),
{
    if s.len() == 0 {
        0
    } else {
        digits_val(s.drop_last()) * 10 + digit_val(s.last())
    }
}

/// The length of the longest prefix of `s` made of decimal digits.
pub open spec fn digit_run_len(s: Seq<char>) -> int
    decreases s.len(),
{
    if s.len() == 0 || !is_digit(s[0]) {
        0
    } else {
        1 + digit_run_len(s.skip(1))
    }
}

/// What parsing a version string yields: the unique reading of `s` as
/// `<major>.<minor>.<patch>` with each part a nonempty digit run whose value
/// fits in `u32`, or nothing when `s` has no such reading.
pub open spec fn spec_parse_version(s: Seq<char>) -> Option<Version> {
    let n1 = digit_run_len(s);
    if n1 == 0 || n1 == s.len() || s[n1] != '.' {
        None
    } else {
        let r1 = s.skip(n1 + 1);
        let n2 = digit_run_len(r1);
        if n2 == 0 || n2 == r1.len() || r1[n2] != '.' {
            None
        } else {
            let r2 = r1.skip(n2 + 1);
            let n3 = digit_run_len(r2);
            if n3 == 0 || n3 != r2.len() {
                None
            } else {
                let a = digits_val(s.take(n1));
                let b = digits_val(r1.take(n2));
                let c = digits_val(r2);
                if a <= u32::MAX && b <= u32::MAX && c <= u32::MAX {
                    Some(Version { major: a as u32, minor: b as u32, patch: c as u32 })
                } else {
                    None
                }
            }
        }
    }
}

/// The digit character for a value below ten.
pub open spec fn spec_digit_char(d: int) -> char {
    if d == 0 { '0' }
    else if d == 1 { '1' }
    else if d == 2 { '2' }
    else if d == 3 { '3' }
    else if d == 4 { '4' }
    else if d == 5 { '5' }
    else if d == 6 { '6' }
    else if d == 7 { '7' }
    else if d == 8 { '8' }
    else { '9' }
}

/// The shortest decimal rendering of a non-negative number.
pub open spec fn spec_dec_digits(n: int) -> Seq<char>
    decreases n, via spec_dec_digits_decreases
{
    if n < 10 {
        seq![spec_digit_char(n)]
    } else {
        spec_dec_digits(n / 10).push(spec_digit_char(n % 10))
    }
}

#[via_fn]
proof fn spec_dec_digits_decreases(n: int) {
    if n >= 10 {
        assert(0 <= n / 10 < n) by (nonlinear_arith)
            requires n >= 10;
    }
}

/// The canonical rendering `<major>.<minor>.<patch>` of a version.
pub open spec fn spec_format_version(v: Version) -> Seq<char> {
    spec_dec_digits(v.major as int) + seq!['.'] + spec_dec_digits(v.minor as int)
        + seq!['.'] + spec_dec_digits(v.patch as int)
}

proof fn lemma_digit_run_len_is(s: Seq<char>, k: int)
    requires
        0 <= k <= s.len(),
        forall|i: int| 0 <= i < k ==> is_digit(s[i]),
        k < s.len() ==> !is_digit(s[k]),
    ensures
        digit_run_len(s) == k,
    decreases s.len(),
{
    if s.len() == 0 || !is_digit(s[0]) {
        assert(k == 0);
    } else {
        assert(is_digit(s[0]));
        assert(k != 0);
        assert forall|i: int| 0 <= i < k - 1 implies is_digit(s.skip(1)[i]) by {
            assert(s.skip(1)[i] == s[i + 1]);
        }
        if k - 1 < s.skip(1).len() {
            assert(s.skip(1)[k - 1] == s[k]);
        }
        lemma_digit_run_len_is(s.skip(1), k - 1);
    }
}

proof fn lemma_digits_val_nonneg(s: Seq<char>)
    requires
        forall|i: int| 0 <= i < s.len() ==> is_digit(s[i]),
    ensures
        digits_val(s) >= 0,
    decreases s.len(),
{
    if s.len() > 0 {
        lemma_digits_val_nonneg(s.drop_last());
        assert(digits_val(s.drop_last()) * 10 >= 0) by (nonlinear_arith)
            requires digits_val(s.drop_last()) >= 0;
    }
}

/// One digit-run scan: starting at `pos`, consume the longest run of digits
/// and compute its value, reporting overflow past `u32::MAX`.
fn scan_run(s: &str, n: usize, pos: usize) -> (r: (usize, Option<u32>))
    requires
        n == s@.len(),
        pos <= n,
    ensures
        pos <= r.0 <= n,
        r.0 - pos == digit_run_len(s@.skip(pos as int)),
        match r.1 {
            Some(v) => digits_val(s@.subrange(pos as int, r.0 as int)) == v as int,
            None => digits_val(s@.subrange(pos as int, r.0 as int)) > u32::MAX,
        },
{
    let mut i: usize = pos;
    let mut acc: u32 = 0;
    let mut over: bool = false;
    loop
        invariant
            pos <= i <= n,
            n == s@.len(),
            forall|j: int| pos <= j < i ==> is_digit(s@[j]),
            !over ==> digits_val(s@.subrange(pos as int, i as int)) == acc as int,
            over ==> digits_val(s@.subrange(pos as int, i as int)) > u32::MAX,
        ensures
            i == n || !is_digit(s@[i as int]),
        decreases n - i,
    {
        if i == n {
            break;
        }
        let c = s.get_char(i);
        let code = c as u32;
        if code < 48 || code > 57 {
            break;
        }
        let d = code - 48;
        proof {
            let run = s@.subrange(pos as int, i as int);
            let run2 = s@.subrange(pos as int, i + 1 as int);
            assert(run2.drop_last() =~= run);
            assert(run2.last() == s@[i as int]);
            lemma_digits_val_nonneg(run);
            if !over {
                if acc as int > (u32::MAX - d) as int / 10 {
                    assert(acc as int * 10 + d as int > u32::MAX) by (nonlinear_arith)
                        requires
                            acc as int > (u32::MAX - d) as int / 10,
                            0 <= d as int <= 9,
                            0 <= acc as int;
                } else {
                    assert(acc as int * 10 + d as int <= u32::MAX) by (nonlinear_arith)
                        requires
                            acc as int <= (u32::MAX - d) as int / 10,
                            0 <= d as int <= 9,
                            0 <= acc as int;
                }
            } else {
                assert(digits_val(run) * 10 + d as int > u32::MAX) by (nonlinear_arith)
                    requires
                        digits_val(run) > u32::MAX,
                        0 <= d as int;
            }
        }
        if !over {
            if acc > (u32::MAX - d) / 10 {
                over = true;
            } else {
                acc = acc * 10 + d;
            }
        }
        i = i + 1;
    }
    proof {
        assert forall|j: int| 0 <= j < i - pos implies is_digit(s@.skip(pos as int)[j]) by {
            assert(s@.skip(pos as int)[j] == s@[pos + j]);
        }
        if i < n {
            assert(s@.skip(pos as int)[i - pos] == s@[i as int]);
        }
        lemma_digit_run_len_is(s@.skip(pos as int), i - pos);
    }
    if over {
        (i, None)
    } else {
        (i, Some(acc))
    }
}

impl Version {
    /// Parse a version string: exactly three nonempty digit runs separated by
    /// literal dots, each fitting in `u32`. Anything else — a sign, spaces,
    /// missing or extra parts, trailing text, non-digits, overflow — is a
    /// `MalformedVersion` failure, never a silently substituted default.
    pub fn parse(s: &str) -> (r: Result<Version, Error>)
        ensures
            match r {
                Ok(v) => spec_parse_version(s@) == Some(v),
                Err(e) => spec_parse_version(s@) is None && e is MalformedVersion,
            },
    {
        let n = s.unicode_len();
        proof {
            assert(s@.skip(0) =~= s@);
        }
        let (p1, v1) = scan_run(s, n, 0);
        if p1 == 0 || p1 == n {
            return Err(Error::MalformedVersion { detail: s.to_owned() });
        }
        if s.get_char(p1) != '.' {
            return Err(Error::MalformedVersion { detail: s.to_owned() });
        }
        let ghost r1 = s@.skip(p1 + 1);
        proof {
            assert forall|j: int| 0 <= j < r1.len() implies r1[j] == s@[p1 + 1 + j] by {}
            assert(r1 =~= s@.subrange(p1 + 1, n as int));
        }
        let (p2, v2) = scan_run(s, n, p1 + 1);
        proof {
            assert(s@.skip(p1 + 1 as int) =~= r1);
        }
        if p2 == p1 + 1 || p2 == n {
            return Err(Error::MalformedVersion { detail: s.to_owned() });
        }
        if s.get_char(p2) != '.' {
            proof {
                assert(r1[digit_run_len(r1)] == s@[p2 as int]);
            }
            return Err(Error::MalformedVersion { detail: s.to_owned() });
        }
        let ghost r2 = r1.skip(digit_run_len(r1) + 1);
        proof {
            assert(r1[digit_run_len(r1)] == s@[p2 as int]);
            assert(r2 =~= s@.skip(p2 + 1));
        }
        let (p3, v3) = scan_run(s, n, p2 + 1);
        if p3 == p2 + 1 || p3 != n {
            return Err(Error::MalformedVersion { detail: s.to_owned() });
        }
        proof {
            assert(s@.subrange(0, p1 as int) =~= s@.skip(0).take(p1 as int));
            assert(s@.take(digit_run_len(s@)) =~= s@.subrange(0, p1 as int));
            assert(r1.take(digit_run_len(r1)) =~= s@.subrange(p1 + 1, p2 as int));
            assert(r2 =~= s@.subrange(p2 + 1, p3 as int));
        }
        match (v1, v2, v3) {
            (Some(a), Some(b), Some(c)) => Ok(Version { major: a, minor: b, patch: c }),
            _ => Err(Error::MalformedVersion { detail: s.to_owned() }),
        }
    }

    /// Render this version as `<major>.<minor>.<patch>`.
    pub fn format(&self) -> (r: String)
        ensures
            r@ == spec_format_version(*self),
    {
        let mut out = String::new();
        append_decimal(&mut out, self.major);
        out.append(".");
        append_decimal(&mut out, self.minor);
        out.append(".");
        append_decimal(&mut out, self.patch);
        proof {
            reveal_strlit(".");
            assert(".".view() =~= seq!['.']);
            assert(out@ =~= spec_format_version(*self));
        }
        out
    }
}

/// Append the decimal rendering of `n` to `out`.
fn append_decimal(out: &mut String, n: u32)
    ensures
        final(out)@ == old(out)@ + spec_dec_digits(n as int),
    decreases n,
{
    if n >= 10 {
        proof {
            assert(0 <= n as int / 10 < n as int) by (nonlinear_arith)
                requires n >= 10;
        }
        append_decimal(out, n / 10);
    }
    let d = n % 10;
    match d {
        0 => out.append("0"),
        1 => out.append("1"),
        2 => out.append("2"),
        3 => out.append("3"),
        4 => out.append("4"),
        5 => out.append("5"),
        6 => out.append("6"),
        7 => out.append("7"),
        8 => out.append("8"),
        _ => out.append("9"),
    }
    proof {
        reveal_strlit("0");
        reveal_strlit("1");
        reveal_strlit("2");
        reveal_strlit("3");
        reveal_strlit("4");
        reveal_strlit("5");
        reveal_strlit("6");
        reveal_strlit("7");
        reveal_strlit("8");
        reveal_strlit("9");
        if n < 10 {
            assert(final(out)@ =~= old(out)@ + spec_dec_digits(n as int));
        } else {
            assert(spec_dec_digits(n as int) =~= spec_dec_digits(n as int / 10).push(
                spec_digit_char(n as int % 10)));
            assert(final(out)@ =~= old(out)@ + spec_dec_digits(n as int));
        }
    }
}

proof fn lemma_dec_digits_props(n: int)
    requires
        n >= 0,
    ensures
        spec_dec_digits(n).len() >= 1,
        forall|i: int| 0 <= i < spec_dec_digits(n).len() ==> is_digit(spec_dec_digits(n)[i]),
        digits_val(spec_dec_digits(n)) == n,
    decreases n,
{
    if n < 10 {
        let d = spec_dec_digits(n);
        assert(d =~= seq![spec_digit_char(n)]);
        assert(d.last() == spec_digit_char(n));
        assert(d.drop_last() =~= Seq::<char>::empty());
        assert(digits_val(Seq::<char>::empty()) == 0);
        assert(digits_val(d) == digit_val(spec_digit_char(n)));
    } else {
        assert(0 <= n / 10 < n && n / 10 * 10 + n % 10 == n && 0 <= n % 10 <= 9)
            by (nonlinear_arith)
            requires n >= 10;
        lemma_dec_digits_props(n / 10);
        let d = spec_dec_digits(n);
        assert(d =~= spec_dec_digits(n / 10).push(spec_digit_char(n % 10)));
        assert(d.drop_last() =~= spec_dec_digits(n / 10));
        assert(digits_val(d) == digits_val(spec_dec_digits(n / 10)) * 10 + digit_val(
            spec_digit_char(n % 10)));
    }
}

/// Formatting a version and parsing the result gives the version back: the
/// parser inverts the canonical rendering on every value.
pub proof fn lemma_version_round_trip(v: Version)
    ensures
        spec_parse_version(spec_format_version(v)) == Some(v),
{
    let dm = spec_dec_digits(v.major as int);
    let dn = spec_dec_digits(v.minor as int);
    let dp = spec_dec_digits(v.patch as int);
    lemma_dec_digits_props(v.major as int);
    lemma_dec_digits_props(v.minor as int);
    lemma_dec_digits_props(v.patch as int);
    let s = spec_format_version(v);
    assert(s =~= dm + seq!['.'] + dn + seq!['.'] + dp);
    let n1 = dm.len() as int;
    let n2 = dn.len() as int;
    let n3 = dp.len() as int;
    assert forall|i: int| 0 <= i < n1 implies is_digit(s[i]) by {
        assert(s[i] == dm[i]);
    }
    assert(s[n1] == '.');
    lemma_digit_run_len_is(s, n1);
    let r1 = s.skip(n1 + 1);
    assert(r1 =~= dn + seq!['.'] + dp);
    assert forall|i: int| 0 <= i < n2 implies is_digit(r1[i]) by {
        assert(r1[i] == dn[i]);
    }
    assert(r1[n2] == '.');
    lemma_digit_run_len_is(r1, n2);
    let r2 = r1.skip(n2 + 1);
    assert(r2 =~= dp);
    lemma_digit_run_len_is(r2, n3);
    assert(s.take(n1) =~= dm);
    assert(r1.take(n2) =~= dn);
    assert(digits_val(s.take(n1)) == v.major as int);
    assert(digits_val(r1.take(n2)) == v.minor as int);
    assert(digits_val(r2) == v.patch as int);
}

} // verus!

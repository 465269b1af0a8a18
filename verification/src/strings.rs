//! Small verified string utilities the harness builds its names and failure
//! messages from: character-wise equality, concatenation with a run suffix,
//! and decimal rendering of counters.
use vstd::prelude::*;
use vstd::string::*;

verus! {

/// Character-wise equality of two string slices.
pub fn str_eq(a: &str, b: &str) -> (r: bool)
    ensures
        r == (a@ == b@),
{
    let la = a.unicode_len();
    let lb = b.unicode_len();
    if la != lb {
        return false;
    }
    let mut i: usize = 0;
    while i < la
        invariant
            la == a@.len(),
            la == b@.len(),
            i <= la,
            forall|j: int| 0 <= j < i ==> a@[j] == b@[j],
        decreases la - i,
    {
        if a.get_char(i) != b.get_char(i) {
            return false;
        }
        i = i + 1;
    }
    proof {
        assert(a@ =~= b@);
    }
    true
}

/// The base name with the run id appended: scenario authors suffix identity
/// names with a fresh run id so that two runs never reuse a remote name.
pub fn with_run_suffix(base: &str, run_id: &str) -> (r: String)
    ensures
        r@ == base@ + run_id@,
{
    base.to_owned().concat(run_id)
}

/// Two names carrying run suffixes of equal length are distinct whenever the
/// suffixes are: a fresh run id therefore keeps every suffixed name of one
/// run apart from every suffixed name of any other run, whatever the bases.
pub proof fn lemma_suffixed_names_distinct(b1: Seq<char>, r1: Seq<char>, b2: Seq<char>, r2: Seq<
    char>)
    requires
        r1.len() == r2.len(),
        r1 != r2,
    ensures
        b1 + r1 != b2 + r2,
{
    if b1 + r1 == b2 + r2 {
        assert((b1 + r1).len() == (b2 + r2).len());
        let n = (b1 + r1).len() as int;
        let k = r1.len() as int;
        assert(r1 =~= (b1 + r1).subrange(n - k, n));
        assert(r2 =~= (b2 + r2).subrange(n - k, n));
        assert(r1 == r2);
    }
}

/// The character standing for one decimal digit.
pub open spec fn digit_char(d: int) -> char {
    if d == 0 {
        '0'
    } else if d == 1 {
        '1'
    } else if d == 2 {
        '2'
    } else if d == 3 {
        '3'
    } else if d == 4 {
        '4'
    } else if d == 5 {
        '5'
    } else if d == 6 {
        '6'
    } else if d == 7 {
        '7'
    } else if d == 8 {
        '8'
    } else {
        '9'
    }
}

/// The usual decimal rendering of a natural number, without leading zeros.
pub open spec fn spec_decimal(n: nat) -> Seq<char>
    decreases n,
{
    if n < 10 {
        seq![digit_char(n as int)]
    } else {
        spec_decimal(n / 10).push(digit_char((n % 10) as int))
    }
}

/// The digits collected least-significant first, read back most-significant
/// first.
spec fn rev_chars(rev: Seq<u64>) -> Seq<char> {
    Seq::new(rev.len(), |i: int| digit_char(rev[rev.len() - 1 - i] as int))
}

/// Renders a counter in decimal, for failure messages that must show
/// expected against actual values.
pub fn decimal_string(n: u64) -> (r: String)
    ensures
        r@ == spec_decimal(n as nat),
{
    let mut rev: Vec<u64> = Vec::new();
    let mut m: u64 = n;
    proof {
        assert(spec_decimal(n as nat) =~= spec_decimal(m as nat) + rev_chars(rev@));
    }
    while m >= 10
        invariant
            forall|j: int| 0 <= j < rev@.len() ==> rev@[j] < 10,
            spec_decimal(n as nat) == spec_decimal(m as nat) + rev_chars(rev@),
        decreases m,
    {
        let ghost old_rev = rev@;
        let ghost old_m = m as nat;
        let d = m % 10;
        rev.push(d);
        m = m / 10;
        proof {
            assert(rev_chars(old_rev.push(d)) =~= seq![digit_char(d as int)] + rev_chars(old_rev));
            assert(spec_decimal(old_m) == spec_decimal(old_m / 10).push(
                digit_char((old_m % 10) as int),
            ));
            assert(spec_decimal(old_m / 10).push(digit_char(d as int)) + rev_chars(old_rev)
                =~= spec_decimal(old_m / 10) + (seq![digit_char(d as int)] + rev_chars(old_rev)));
        }
    }
    let ghost old_rev = rev@;
    rev.push(m);
    proof {
        assert(spec_decimal(m as nat) =~= seq![digit_char(m as int)]);
        assert(rev_chars(old_rev.push(m)) =~= seq![digit_char(m as int)] + rev_chars(old_rev));
        assert(spec_decimal(n as nat) =~= rev_chars(rev@));
    }
    let digits = "0123456789";
    proof {
        reveal_strlit("0123456789");
    }
    let mut out = String::new();
    let len = rev.len();
    let mut i: usize = len;
    while i > 0
        invariant
            len == rev@.len(),
            i <= len,
            forall|j: int| 0 <= j < rev@.len() ==> rev@[j] < 10,
            digits@.len() == 10,
            forall|d: int| 0 <= d < 10 ==> digits@[d] == digit_char(d),
            out@ == rev_chars(rev@).take(len - i),
        decreases i,
    {
        i = i - 1;
        let d = rev[i];
        let piece = digits.substring_char(d as usize, d as usize + 1);
        proof {
            assert(piece@ =~= seq![digit_char(d as int)]);
        }
        out.append(piece);
        proof {
            assert(out@ =~= rev_chars(rev@).take(len - i));
        }
    }
    proof {
        assert(rev_chars(rev@).take(len as int) =~= rev_chars(rev@));
    }
    out
}

} // verus!

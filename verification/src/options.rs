use vstd::prelude::*;
use vstd::string::group_string_axioms;
use vstd::std_specs::iter::IteratorSpec;
use vstd::string::StringExecFns;

verus! {

broadcast use group_string_axioms;

/// Reasons for which the test refuses a series: the cases in which the
/// statistic is undefined or the requested lag order cannot be fitted.
#[derive(Debug, Clone, PartialEq, Eq)]
pub enum AdfError {
    /// The series contains a NaN or an infinity.
    NonFinite,
    /// Every element is identical.
    Constant,
    /// Too few observations for the regression component (`nobs/2 - ntrend - 1 < 0`).
    TooShort,
    /// A caller-supplied `maxlag` exceeds `nobs/2 - 1 - ntrend`.
    MaxlagTooLarge { maxlag: usize, hard_max: i64 },
}

/// Regression specification: which deterministic terms the test regression holds.
#[derive(Clone, Copy, Debug, PartialEq, Eq)]
pub enum Regression {
    /// Constant only (the default).
    C,
    /// Constant and linear trend.
    Ct,
    /// Constant, linear and quadratic trend.
    Ctt,
    /// No deterministic terms.
    N,
}

/// Lag-selection method.
#[derive(Clone, Copy, Debug, PartialEq, Eq)]
pub enum AutoLag {
    /// Minimise the Akaike information criterion.
    Aic,
    /// Minimise the Bayesian information criterion.
    Bic,
    /// Drop from `maxlag` down until the last lag's |t| reaches 1.6449.
    TStat,
    /// Fixed: use exactly `maxlag` lags (spelled `none`).
    Fixed,
}

/// Number of deterministic columns that a regression specification adds.
pub open spec fn spec_ntrend(r: Regression) -> nat {
    match r {
        Regression::C => 1,
        Regression::Ct => 2,
        Regression::Ctt => 3,
        Regression::N => 0,
    }
}

/// The short text form of a regression specification.
pub open spec fn spec_regression_name(r: Regression) -> Seq<char> {
    match r {
        Regression::C => seq!['c'],
        Regression::Ct => seq!['c', 't'],
        Regression::Ctt => seq!['c', 't', 't'],
        Regression::N => seq!['n'],
    }
}

/// ASCII case folding of one character: 'A'..='Z' map to 'a'..='z', every
/// other character is left as it is.
pub open spec fn ascii_lower(c: char) -> char {
    if 'A' <= c <= 'Z' {
        ((c as int) + 32) as char
    } else {
        c
    }
}

/// ASCII case folding of a whole text.
pub open spec fn ascii_lowercase(s: Seq<char>) -> Seq<char> {
    s.map_values(|c: char| ascii_lower(c))
}

/// The regression specification that a text names, compared without regard
/// to ASCII case.
pub open spec fn spec_parse_regression(s: Seq<char>) -> Option<Regression> {
    let l = ascii_lowercase(s);
    if l == seq!['c'] {
        Some(Regression::C)
    } else if l == seq!['c', 't'] {
        Some(Regression::Ct)
    } else if l == seq!['c', 't', 't'] {
        Some(Regression::Ctt)
    } else if l == seq!['n'] {
        Some(Regression::N)
    } else {
        Option::None
    }
}

/// The lag-selection method that a text names, compared without regard to
/// ASCII case; the t-statistic rule is spelled `t-stat` or `tstat`.
pub open spec fn spec_parse_autolag(s: Seq<char>) -> Option<AutoLag> {
    let l = ascii_lowercase(s);
    if l == seq!['a', 'i', 'c'] {
        Some(AutoLag::Aic)
    } else if l == seq!['b', 'i', 'c'] {
        Some(AutoLag::Bic)
    } else if l == seq!['t', '-', 's', 't', 'a', 't'] || l == seq!['t', 's', 't', 'a', 't'] {
        Some(AutoLag::TStat)
    } else if l == seq!['n', 'o', 'n', 'e'] {
        Some(AutoLag::Fixed)
    } else {
        Option::None
    }
}

fn lower_char(c: char) -> (r: char)
    ensures
        r == ascii_lower(c),
{
    if 'A' <= c && c <= 'Z' {
        let b: u32 = (c as u32) + 32;
        char_from_ascii_code(b)
    } else {
        c
    }
}

fn char_from_ascii_code(b: u32) -> (r: char)
    requires
        b < 0x80,
    ensures
        r == b as char,
{
    (b as u8) as char
}

/// The characters of `s` folded to ASCII lower case.
fn fold_ascii_lowercase(s: &str) -> (v: Vec<char>)
    ensures
        v@ == ascii_lowercase(s@),
{
    let mut out: Vec<char> = Vec::new();
    for c in it: s.chars()
        invariant
            it.seq() == s@,
            out@ == ascii_lowercase(s@.take(it.index())),
    {
        let ghost k = it.index();
        out.push(lower_char(c));
        proof {
            assert(s@.take(k + 1) == s@.take(k).push(s@[k]));
            assert(out@ =~= ascii_lowercase(s@.take(k + 1)));
        }
    }
    assert(s@.take(s@.len() as int) =~= s@);
    out
}

fn chars_are(v: &Vec<char>, t: &[char]) -> (r: bool)
    ensures
        r == (v@ == t@),
{
    if v.len() != t.len() {
        return false;
    }
    let mut i: usize = 0;
    while i < v.len()
        invariant
            v.len() == t@.len(),
            i <= v.len(),
            forall|j: int| 0 <= j < i ==> v@[j] == t@[j],
        decreases v.len() - i,
    {
        if v[i] != t[i] {
            return false;
        }
        i = i + 1;
    }
    assert(v@ =~= t@);
    true
}

/// The decimal digit `d` as a character.
pub open spec fn digit_char(d: nat) -> char {
    ((d as int) + 48) as char
}

/// The decimal form of `n`, without leading zeros.
pub open spec fn spec_decimal(n: nat) -> Seq<char>
    decreases n,
{
    if n < 10 {
        seq![digit_char(n)]
    } else {
        spec_decimal(n / 10).push(digit_char(n % 10))
    }
}

/// The decimal form of `n`, with a leading `-` when it is negative.
pub open spec fn spec_signed_decimal(n: int) -> Seq<char> {
    if n < 0 {
        seq!['-'] + spec_decimal((-n) as nat)
    } else {
        spec_decimal(n as nat)
    }
}

/// The message by which a refusal is reported.
pub open spec fn spec_message(e: AdfError) -> Seq<char> {
    match e {
        AdfError::NonFinite => "series contains a non-finite value (NaN or inf)"@,
        AdfError::Constant => "series is constant"@,
        AdfError::TooShort => "sample size is too short to use the selected regression component"@,
        AdfError::MaxlagTooLarge { maxlag, hard_max } => "maxlag "@ + spec_decimal(maxlag as nat)
            + " exceeds nobs/2 - 1 - ntrend = "@ + spec_signed_decimal(hard_max as int),
    }
}

fn digit_str(d: u64) -> (s: &'static str)
    requires
        d < 10,
    ensures
        s@ == seq![digit_char(d as nat)],
{
    proof {
        reveal_strlit("0");
        reveal_strlit("1");
        reveal_strlit("2");
        reveal_strlit("3");
        reveal_strlit("4");
        reveal_strlit("5");
        reveal_strlit("6");
        reveal_strlit("7");
        reveal_strlit("8");
        reveal_strlit("9");
    }
    let s = match d {
        0 => "0",
        1 => "1",
        2 => "2",
        3 => "3",
        4 => "4",
        5 => "5",
        6 => "6",
        7 => "7",
        8 => "8",
        _ => "9",
    };
    assert(s@ =~= seq![digit_char(d as nat)]);
    s
}

fn decimal(n: u64) -> (s: String)
    ensures
        s@ == spec_decimal(n as nat),
    decreases n,
{
    if n < 10 {
        String::from_str(digit_str(n))
    } else {
        let mut s = decimal(n / 10);
        s.append(digit_str(n % 10));
        s
    }
}

fn signed_decimal(n: i64) -> (s: String)
    ensures
        s@ == spec_signed_decimal(n as int),
{
    if n < 0 {
        let magnitude: u64 = (-(n as i128)) as u64;
        let mut s = String::from_str("-");
        proof {
            reveal_strlit("-");
        }
        s.append(decimal(magnitude).as_str());
        s
    } else {
        decimal(n as u64)
    }
}

impl AdfError {
    /// The message by which the refusal is reported.
    pub fn message(&self) -> (m: String)
        ensures
            m@ == spec_message(*self),
    {
        match self {
            AdfError::NonFinite => String::from_str("series contains a non-finite value (NaN or inf)"),
            AdfError::Constant => String::from_str("series is constant"),
            AdfError::TooShort => String::from_str(
                "sample size is too short to use the selected regression component",
            ),
            AdfError::MaxlagTooLarge { maxlag, hard_max } => {
                let mut m = String::from_str("maxlag ");
                m.append(decimal(*maxlag as u64).as_str());
                m.append(" exceeds nobs/2 - 1 - ntrend = ");
                m.append(signed_decimal(*hard_max).as_str());
                m
            },
        }
    }
}

impl Regression {
    /// Number of deterministic columns added by the trend terms.
    pub fn ntrend(self) -> (k: usize)
        ensures
            k == spec_ntrend(self),
    {
        match self {
            Regression::C => 1,
            Regression::Ct => 2,
            Regression::Ctt => 3,
            Regression::N => 0,
        }
    }

    /// The short text form: `c`, `ct`, `ctt` or `n`.
    pub fn as_str(self) -> (s: &'static str)
        ensures
            s@ == spec_regression_name(self),
    {
        match self {
            Regression::C => {
                proof {
                    reveal_strlit("c");
                }
                "c"
            },
            Regression::Ct => {
                proof {
                    reveal_strlit("ct");
                }
                "ct"
            },
            Regression::Ctt => {
                proof {
                    reveal_strlit("ctt");
                }
                "ctt"
            },
            Regression::N => {
                proof {
                    reveal_strlit("n");
                }
                "n"
            },
        }
    }

    /// Reads a regression specification, without regard to ASCII case.
    pub fn parse(s: &str) -> (r: Option<Self>)
        ensures
            r == spec_parse_regression(s@),
    {
        let l = fold_ascii_lowercase(s);
        let (c, ct, ctt, n) = (['c'], ['c', 't'], ['c', 't', 't'], ['n']);
        assert(c@ =~= seq!['c'] && ct@ =~= seq!['c', 't'] && ctt@ =~= seq!['c', 't', 't']
            && n@ =~= seq!['n']);
        if chars_are(&l, &c) {
            Some(Regression::C)
        } else if chars_are(&l, &ct) {
            Some(Regression::Ct)
        } else if chars_are(&l, &ctt) {
            Some(Regression::Ctt)
        } else if chars_are(&l, &n) {
            Some(Regression::N)
        } else {
            Option::None
        }
    }
}

impl AutoLag {
    /// Reads a lag-selection method, without regard to ASCII case.
    pub fn parse(s: &str) -> (r: Option<Self>)
        ensures
            r == spec_parse_autolag(s@),
    {
        let l = fold_ascii_lowercase(s);
        let (aic, bic, tstat_dash, tstat, none) = (
            ['a', 'i', 'c'],
            ['b', 'i', 'c'],
            ['t', '-', 's', 't', 'a', 't'],
            ['t', 's', 't', 'a', 't'],
            ['n', 'o', 'n', 'e'],
        );
        assert(aic@ =~= seq!['a', 'i', 'c'] && bic@ =~= seq!['b', 'i', 'c'] && tstat_dash@
            =~= seq!['t', '-', 's', 't', 'a', 't'] && tstat@ =~= seq!['t', 's', 't', 'a', 't']
            && none@ =~= seq!['n', 'o', 'n', 'e']);
        if chars_are(&l, &aic) {
            Some(AutoLag::Aic)
        } else if chars_are(&l, &bic) {
            Some(AutoLag::Bic)
        } else if chars_are(&l, &tstat_dash) || chars_are(&l, &tstat) {
            Some(AutoLag::TStat)
        } else if chars_are(&l, &none) {
            Some(AutoLag::Fixed)
        } else {
            Option::None
        }
    }
}

} // verus!

//! Patient seeding: modes, drafts, and the record-count rule.
//!
//! A patient seeding run draws a random number of patients, gives each a
//! condition label drawn from the triage scale and a location drawn from
//! a bounding box, and either clears prior rows first (`Reset`) or keeps
//! them (`Append`). The storage collaborator outside this crate performs
//! the clearing and the inserts inside one transaction.

use vstd::prelude::*;

use crate::sampling::{sample_i64_inclusive, sample_u32_inclusive};

verus! {

/// Bounding box for drawn patient locations, in units of `1e-14` degree.
pub const LAT_MIN_E14: i64 = 3870000000000000;

pub const LAT_MAX_E14: i64 = 3880000000000000;

pub const LON_MIN_E14: i64 = -928000000000000;

pub const LON_MAX_E14: i64 = -912000000000000;

/// How a patient seeding run treats rows that already exist: `Reset`
/// clears them first (full replace), `Append` keeps them.
#[derive(Clone, Copy, Debug, PartialEq, Eq, Structural)]
pub enum PatientSeedMode {
    Reset,
    Append,
}

/// Outcome of one patient seeding run: how many rows the run inserted
/// and how many rows exist afterwards.
#[derive(Clone, Copy, Debug, PartialEq, Eq, Structural)]
pub struct PatientSeedReport {
    pub inserted: usize,
    pub total: usize,
}

/// One planned patient row: a condition label from the triage scale and
/// a location inside the bounding box.
#[derive(Clone, Copy, Debug)]
pub struct PatientSeed {
    pub condition: &'static str,
    pub latitude_e14: i64,
    pub longitude_e14: i64,
}

/// The rows and the clearing decision of one patient seeding run.
#[derive(Clone, Debug)]
pub struct PatientSeedPlan {
    pub clear_existing: bool,
    pub patients: Vec<PatientSeed>,
}

/// A label of the five-step triage scale.
pub open spec fn is_triage_condition(c: Seq<char>) -> bool {
    ||| c == "Emergência (Vermelho)"@
    ||| c == "Muito Urgente (Laranja)"@
    ||| c == "Urgente (Amarelo)"@
    ||| c == "Pouco Urgente (Verde)"@
    ||| c == "Não Urgente (Azul)"@
}

/// The five condition labels a patient can carry, in scale order.
pub fn triage_conditions() -> (r: Vec<&'static str>)
    ensures
        r@.len() == 5,
        r@[0]@ == "Emergência (Vermelho)"@,
        r@[1]@ == "Muito Urgente (Laranja)"@,
        r@[2]@ == "Urgente (Amarelo)"@,
        r@[3]@ == "Pouco Urgente (Verde)"@,
        r@[4]@ == "Não Urgente (Azul)"@,
        forall|i: int| 0 <= i < 5 ==> is_triage_condition((#[trigger] r@[i])@),
{
    let mut r: Vec<&'static str> = Vec::new();
    r.push("Emergência (Vermelho)");
    r.push("Muito Urgente (Laranja)");
    r.push("Urgente (Amarelo)");
    r.push("Pouco Urgente (Verde)");
    r.push("Não Urgente (Azul)");
    r
}

impl PatientSeedMode {
    /// The lower-case label of the mode.
    pub fn label(self) -> (r: &'static str)
        ensures
            self is Reset ==> r@ == "reset"@,
            self is Append ==> r@ == "append"@,
    {
        match self {
            PatientSeedMode::Reset => "reset",
            PatientSeedMode::Append => "append",
        }
    }
}

/// Plan one patient seeding run: decide whether prior rows are cleared,
/// draw how many patients to create (five to ten), and draw each
/// patient's condition and location.
pub fn plan_patient_seed(mode: PatientSeedMode, rng: &mut rand::rngs::ThreadRng) -> (r:
    PatientSeedPlan)
    ensures
        r.clear_existing == (mode is Reset),
        5 <= r.patients@.len() <= 10,
        forall|i: int| 0 <= i < r.patients@.len()
            ==> is_triage_condition(((#[trigger] r.patients@[i]).condition)@),
        forall|i: int| 0 <= i < r.patients@.len()
            ==> LAT_MIN_E14 <= (#[trigger] r.patients@[i]).latitude_e14 < LAT_MAX_E14,
        forall|i: int| 0 <= i < r.patients@.len()
            ==> LON_MIN_E14 <= (#[trigger] r.patients@[i]).longitude_e14 < LON_MAX_E14,
{
    let conditions = triage_conditions();
    let count = sample_u32_inclusive(rng, 5, 10) as usize;
    let mut patients: Vec<PatientSeed> = Vec::new();
    let mut i: usize = 0;
    while i < count
        invariant
            i <= count,
            conditions@.len() == 5,
            forall|k: int| 0 <= k < 5 ==> is_triage_condition((#[trigger] conditions@[k])@),
            patients@.len() == i,
            forall|k: int| 0 <= k < i
                ==> is_triage_condition(((#[trigger] patients@[k]).condition)@),
            forall|k: int| 0 <= k < i
                ==> LAT_MIN_E14 <= (#[trigger] patients@[k]).latitude_e14 < LAT_MAX_E14,
            forall|k: int| 0 <= k < i
                ==> LON_MIN_E14 <= (#[trigger] patients@[k]).longitude_e14 < LON_MAX_E14,
        decreases count - i,
    {
        let condition_idx = sample_u32_inclusive(rng, 0, 4) as usize;
        let latitude_e14 = sample_i64_inclusive(rng, LAT_MIN_E14, LAT_MAX_E14 - 1);
        let longitude_e14 = sample_i64_inclusive(rng, LON_MIN_E14, LON_MAX_E14 - 1);
        patients.push(PatientSeed {
            condition: conditions[condition_idx],
            latitude_e14,
            longitude_e14,
        });
        i = i + 1;
    }
    PatientSeedPlan { clear_existing: matches!(mode, PatientSeedMode::Reset), patients }
}

/// How many rows a seeding run leaves in the store: a `Reset` run
/// leaves only what it inserted, an `Append` run adds to the prior
/// count.
pub open spec fn spec_patient_total(mode: PatientSeedMode, prior: int, inserted: int) -> int {
    if mode is Reset {
        inserted
    } else {
        prior + inserted
    }
}

/// The record-count rule composed over runs: `Append` runs accumulate
/// on top of whatever is present — prior rows are never discarded — and
/// a `Reset` run afterwards leaves only its own insertion, whatever
/// came before.
pub proof fn lemma_patient_seed_totals(prior: int, c1: int, c2: int, c3: int)
    ensures
        spec_patient_total(
            PatientSeedMode::Append,
            spec_patient_total(PatientSeedMode::Append, prior, c1),
            c2,
        ) == prior + c1 + c2,
        spec_patient_total(
            PatientSeedMode::Reset,
            spec_patient_total(PatientSeedMode::Append, prior, c1),
            c3,
        ) == c3,
{
}

/// The record-count rule of patient seeding: a `Reset` run leaves only
/// the rows it inserted, an `Append` run leaves the prior rows plus the
/// rows it inserted.
pub fn patient_seed_report(mode: PatientSeedMode, prior_total: usize, inserted: usize) -> (r:
    PatientSeedReport)
    requires
        mode is Append ==> prior_total + inserted <= usize::MAX,
    ensures
        r.inserted == inserted,
        r.total == spec_patient_total(mode, prior_total as int, inserted as int),
{
    match mode {
        PatientSeedMode::Reset => PatientSeedReport { inserted, total: inserted },
        PatientSeedMode::Append => PatientSeedReport { inserted, total: prior_total + inserted },
    }
}

/// The whitespace characters stripped from the ends of a mode token:
/// exactly those with the Unicode `White_Space` property, the set that
/// `str::trim` (and `char::is_whitespace`) strips.
pub open spec fn spec_is_space(c: char) -> bool {
    ||| c == ' '
    ||| '\u{0009}' <= c <= '\u{000D}'
    ||| c == '\u{0085}'
    ||| c == '\u{00A0}'
    ||| c == '\u{1680}'
    ||| '\u{2000}' <= c <= '\u{200A}'
    ||| c == '\u{2028}'
    ||| c == '\u{2029}'
    ||| c == '\u{202F}'
    ||| c == '\u{205F}'
    ||| c == '\u{3000}'
}

/// Leading and trailing whitespace stripped.
pub open spec fn trim_spec(s: Seq<char>) -> Seq<char>
    decreases s.len(),
{
    if s.len() == 0 {
        s
    } else if spec_is_space(s.first()) {
        trim_spec(s.drop_first())
    } else if spec_is_space(s.last()) {
        trim_spec(s.drop_last())
    } else {
        s
    }
}

/// `a` matches `b` up to upper-casing of an ASCII letter in `a`; the
/// reference `b` is already lower-case.
pub open spec fn ascii_eq_ci(a: char, b: char) -> bool {
    a == b || ('A' <= a && a <= 'Z' && (a as int) + 32 == (b as int))
}

/// Case-insensitive match of a token against a lower-case reference.
pub open spec fn token_matches(s: Seq<char>, t: Seq<char>) -> bool {
    s.len() == t.len() && forall|i: int| 0 <= i < s.len() ==> ascii_eq_ci(s[i], #[trigger] t[i])
}

/// What a mode string means: its trimmed token, matched without regard
/// to ASCII case, selects a mode or nothing.
pub open spec fn spec_mode_of(s: Seq<char>) -> Option<PatientSeedMode> {
    let t = trim_spec(s);
    if token_matches(t, "reset"@) || token_matches(t, "replace"@) || token_matches(t, "clear"@) {
        Some(PatientSeedMode::Reset)
    } else if token_matches(t, "append"@) || token_matches(t, "add"@) || token_matches(
        t,
        "keep"@,
    ) {
        Some(PatientSeedMode::Append)
    } else {
        None
    }
}

/// A string that names no patient seeding mode; it carries the rejected
/// input.
#[derive(Debug)]
pub struct ModeParseError {
    pub input: String,
}

fn is_space_char(c: char) -> (r: bool)
    ensures
        r == spec_is_space(c),
{
    c == ' ' || ('\u{0009}' <= c && c <= '\u{000D}') || c == '\u{0085}' || c == '\u{00A0}'
        || c == '\u{1680}' || ('\u{2000}' <= c && c <= '\u{200A}') || c == '\u{2028}'
        || c == '\u{2029}' || c == '\u{202F}' || c == '\u{205F}' || c == '\u{3000}'
}

fn chars_eq_ci(a: char, b: char) -> (r: bool)
    ensures
        r == ascii_eq_ci(a, b),
{
    a == b || ('A' <= a && a <= 'Z' && (a as u32) + 32 == (b as u32))
}

/// Does `s[lo..hi]` match the lower-case reference token `t`, ignoring
/// ASCII case?
fn token_matches_exec(s: &str, lo: usize, hi: usize, t: &str) -> (r: bool)
    requires
        lo <= hi <= s@.len(),
    ensures
        r == token_matches(s@.subrange(lo as int, hi as int), t@),
{
    let tlen = t.unicode_len();
    if hi - lo != tlen {
        return false;
    }
    let mut i: usize = 0;
    while i < tlen
        invariant
            i <= tlen,
            tlen == t@.len(),
            hi - lo == tlen,
            lo <= hi <= s@.len(),
            forall|k: int| 0 <= k < i ==> ascii_eq_ci(s@[lo + k], #[trigger] t@[k]),
        decreases tlen - i,
    {
        if !chars_eq_ci(s.get_char(lo + i), t.get_char(i)) {
            proof {
                assert(s@.subrange(lo as int, hi as int)[i as int] == s@[lo + i]);
            }
            return false;
        }
        i = i + 1;
    }
    proof {
        assert(forall|k: int| 0 <= k < tlen
            ==> s@.subrange(lo as int, hi as int)[k] == s@[lo + k]);
    }
    true
}

proof fn lemma_trim_subrange(s: Seq<char>, lo: int, hi: int)
    requires
        0 <= lo <= hi <= s.len(),
        forall|k: int| 0 <= k < lo ==> spec_is_space(#[trigger] s[k]),
        forall|k: int| hi <= k < s.len() ==> spec_is_space(#[trigger] s[k]),
        lo < hi ==> !spec_is_space(s[lo]) && !spec_is_space(s[hi - 1]),
    ensures
        trim_spec(s) == s.subrange(lo, hi),
    decreases s.len(),
{
    if s.len() == 0 {
        assert(s.subrange(lo, hi) =~= s);
    } else if spec_is_space(s.first()) {
        if hi == 0 {
            lemma_trim_subrange(s.drop_first(), 0, 0);
            assert(s.drop_first().subrange(0, 0) =~= s.subrange(lo, hi));
        } else {
            assert(lo >= 1);
            lemma_trim_subrange(s.drop_first(), lo - 1, hi - 1);
            assert(s.drop_first().subrange(lo - 1, hi - 1) =~= s.subrange(lo, hi));
        }
    } else if spec_is_space(s.last()) {
        assert(lo == 0);
        assert(hi < s.len());
        lemma_trim_subrange(s.drop_last(), lo, hi);
        assert(s.drop_last().subrange(lo, hi) =~= s.subrange(lo, hi));
    } else {
        assert(lo == 0);
        assert(hi == s.len());
        assert(s.subrange(lo, hi) =~= s);
    }
}

impl PatientSeedMode {
    /// Parse a mode from text: the input is trimmed of surrounding
    /// whitespace and matched without regard to ASCII case against
    /// `reset`, `replace` or `clear` (all `Reset`) and `append`, `add`
    /// or `keep` (all `Append`). Anything else is rejected, and the
    /// error carries the rejected input.
    pub fn from_str(s: &str) -> (r: Result<PatientSeedMode, ModeParseError>)
        ensures
            match spec_mode_of(s@) {
                Some(m) => r matches Ok(v) && v == m,
                None => r matches Err(e) && e.input@ == s@,
            },
    {
        let len = s.unicode_len();
        let mut lo: usize = 0;
        while lo < len && is_space_char(s.get_char(lo))
            invariant
                lo <= len,
                len == s@.len(),
                forall|k: int| 0 <= k < lo ==> spec_is_space(#[trigger] s@[k]),
            decreases len - lo,
        {
            lo = lo + 1;
        }
        let mut hi: usize = len;
        while hi > lo && is_space_char(s.get_char(hi - 1))
            invariant
                lo <= hi <= len,
                len == s@.len(),
                forall|k: int| hi <= k < len ==> spec_is_space(#[trigger] s@[k]),
            decreases hi,
        {
            hi = hi - 1;
        }
        proof {
            lemma_trim_subrange(s@, lo as int, hi as int);
        }
        if token_matches_exec(s, lo, hi, "reset") || token_matches_exec(s, lo, hi, "replace")
            || token_matches_exec(s, lo, hi, "clear") {
            Ok(PatientSeedMode::Reset)
        } else if token_matches_exec(s, lo, hi, "append") || token_matches_exec(s, lo, hi, "add")
            || token_matches_exec(s, lo, hi, "keep") {
            Ok(PatientSeedMode::Append)
        } else {
            Err(ModeParseError { input: s.to_owned() })
        }
    }
}

} // verus!

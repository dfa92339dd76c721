//! Adapter for the NeuroML-derived dialect.
//!
//! The accepted subset is a flat element tree:
//!
//! ```text
//! <decor><mech name=N region=R><param name=N value=V/>...</mech>...</decor>
//! ```
//!
//! with quoted attribute values.  The adapter decodes it into the same
//! [`Fit`] intermediate as the native fit decoder and delegates to the one
//! shared encoder, so two descriptions of equal biophysics yield identical
//! canonical text whatever their source dialect — see
//! [`lemma_format_convergence`].

use vstd::prelude::*;

use crate::decor::{spec_acc, spec_decor, Fit, Mechanism, MechanismV, Param, ParamV};
use crate::err::{err_v, Error, ErrorKind, ErrorV};
use crate::fit::spec_fit;
use crate::lex::{match_lit, parse_numtok, parse_string, spec_match, spec_parse_numtok, spec_parse_string};

verus! {

/// One `<param name=N value=V/>` element at position `i`.
pub open spec fn spec_parse_nml_param(s: Seq<char>, i: int) -> Option<(ParamV, int)> {
    match spec_match(s, i, "<param name="@) {
        Some(j0) => match spec_parse_string(s, j0) {
            Some((nm, j1)) => match spec_match(s, j1, " value=\""@) {
                Some(j2) => match spec_parse_numtok(s, j2) {
                    Some((v, j3)) => match spec_match(s, j3, "\"/>"@) {
                        Some(j4) => Some((ParamV { name: nm, value: v }, j4)),
                        None => None,
                    },
                    None => None,
                },
                None => None,
            },
            None => None,
        },
        None => None,
    }
}

/// The parameter elements up to the closing `</mech>` tag.
pub open spec fn spec_parse_nml_params(s: Seq<char>, i: int) -> Option<(Seq<ParamV>, int)>
    decreases s.len() - i,
{
    match spec_match(s, i, "</mech>"@) {
        Some(j) => Some((Seq::empty(), j)),
        None => match spec_parse_nml_param(s, i) {
            Some((p, j1)) => if i < j1 <= s.len() {
                match spec_parse_nml_params(s, j1) {
                    Some((ps, j2)) => Some((seq![p] + ps, j2)),
                    None => None,
                }
            } else {
                None
            },
            None => None,
        },
    }
}

/// One `<mech ...>...</mech>` element at position `i`.
pub open spec fn spec_parse_nml_mech(s: Seq<char>, i: int) -> Option<(MechanismV, int)> {
    match spec_match(s, i, "<mech name="@) {
        Some(j0) => match spec_parse_string(s, j0) {
            Some((nm, j1)) => match spec_match(s, j1, " region="@) {
                Some(j2) => match spec_parse_string(s, j2) {
                    Some((rg, j3)) => match spec_match(s, j3, ">"@) {
                        Some(j4) => match spec_parse_nml_params(s, j4) {
                            Some((ps, j5)) => Some(
                                (MechanismV { name: nm, region: rg, parameters: ps }, j5),
                            ),
                            None => None,
                        },
                        None => None,
                    },
                    None => None,
                },
                None => None,
            },
            None => None,
        },
        None => None,
    }
}

/// The mechanism elements up to the closing `</decor>` tag.
pub open spec fn spec_parse_nml_mechs(s: Seq<char>, i: int) -> Option<(Seq<MechanismV>, int)>
    decreases s.len() - i,
{
    match spec_match(s, i, "</decor>"@) {
        Some(j) => Some((Seq::empty(), j)),
        None => match spec_parse_nml_mech(s, i) {
            Some((m, j1)) => if i < j1 <= s.len() {
                match spec_parse_nml_mechs(s, j1) {
                    Some((ms, j2)) => Some((seq![m] + ms, j2)),
                    None => None,
                }
            } else {
                None
            },
            None => None,
        },
    }
}

/// A whole NeuroML-derived description: one `<decor>` element and nothing
/// after it.
pub open spec fn spec_parse_nml(s: Seq<char>) -> Option<Seq<MechanismV>> {
    match spec_match(s, 0, "<decor>"@) {
        Some(j0) => match spec_parse_nml_mechs(s, j0) {
            Some((ms, j1)) => if j1 == s.len() {
                Some(ms)
            } else {
                None
            },
            None => None,
        },
        None => None,
    }
}

/// Decoding a NeuroML-derived text: the decoded mechanisms, or a structure
/// error.  Text outside the ASCII subset is malformed.
pub open spec fn spec_nml(s: Seq<char>) -> Result<Seq<MechanismV>, ErrorV> {
    if vstd::utf8::is_ascii_chars(s) {
        match spec_parse_nml(s) {
            Some(ms) => Ok(ms),
            None => Err(err_v(ErrorKind::Structure, "decor"@)),
        }
    } else {
        Err(err_v(ErrorKind::Structure, "decor"@))
    }
}

fn parse_nml_param(s: &str, n: usize, i: usize) -> (r: Option<(Param, usize)>)
    requires
        s.is_ascii(),
        n == s@.len(),
        i <= n,
    ensures
        match r {
            Some(t) => spec_parse_nml_param(s@, i as int) == Some(
                (t.0.deep_view(), t.1 as int),
            ) && i < t.1 <= n,
            None => spec_parse_nml_param(s@, i as int) is None,
        },
{
    let j0 = match match_lit(s, n, i, "<param name=") {
        Some(j) => j,
        None => return None,
    };
    let (nm, j1) = match parse_string(s, n, j0) {
        Some(t) => t,
        None => return None,
    };
    let j2 = match match_lit(s, n, j1, " value=\"") {
        Some(j) => j,
        None => return None,
    };
    let (v, j3) = match parse_numtok(s, n, j2) {
        Some(t) => t,
        None => return None,
    };
    let j4 = match match_lit(s, n, j3, "\"/>") {
        Some(j) => j,
        None => return None,
    };
    Some((Param { name: nm, value: v }, j4))
}

fn parse_nml_params(s: &str, n: usize, i: usize) -> (r: Option<(Vec<Param>, usize)>)
    requires
        s.is_ascii(),
        n == s@.len(),
        i <= n,
    ensures
        match r {
            Some(t) => spec_parse_nml_params(s@, i as int) == Some(
                (t.0.deep_view(), t.1 as int),
            ) && i <= t.1 <= n,
            None => spec_parse_nml_params(s@, i as int) is None,
        },
    decreases n - i,
{
    if let Some(j) = match_lit(s, n, i, "</mech>") {
        let out: Vec<Param> = Vec::new();
        proof {
            assert(out.deep_view() =~= Seq::<ParamV>::empty());
        }
        return Some((out, j));
    }
    let (p, j1) = match parse_nml_param(s, n, i) {
        Some(t) => t,
        None => return None,
    };
    match parse_nml_params(s, n, j1) {
        Some((mut ps, j2)) => {
            let ghost tail = ps.deep_view();
            ps.insert(0, p);
            proof {
                assert(ps.deep_view() =~= seq![p.deep_view()] + tail);
            }
            Some((ps, j2))
        },
        None => None,
    }
}

fn parse_nml_mech(s: &str, n: usize, i: usize) -> (r: Option<(Mechanism, usize)>)
    requires
        s.is_ascii(),
        n == s@.len(),
        i <= n,
    ensures
        match r {
            Some(t) => spec_parse_nml_mech(s@, i as int) == Some((t.0.deep_view(), t.1 as int))
                && i < t.1 <= n,
            None => spec_parse_nml_mech(s@, i as int) is None,
        },
{
    let j0 = match match_lit(s, n, i, "<mech name=") {
        Some(j) => j,
        None => return None,
    };
    let (nm, j1) = match parse_string(s, n, j0) {
        Some(t) => t,
        None => return None,
    };
    let j2 = match match_lit(s, n, j1, " region=") {
        Some(j) => j,
        None => return None,
    };
    let (rg, j3) = match parse_string(s, n, j2) {
        Some(t) => t,
        None => return None,
    };
    let j4 = match match_lit(s, n, j3, ">") {
        Some(j) => j,
        None => return None,
    };
    let (ps, j5) = match parse_nml_params(s, n, j4) {
        Some(t) => t,
        None => return None,
    };
    Some((Mechanism { name: nm, region: rg, parameters: ps }, j5))
}

fn parse_nml_mechs(s: &str, n: usize, i: usize) -> (r: Option<(Vec<Mechanism>, usize)>)
    requires
        s.is_ascii(),
        n == s@.len(),
        i <= n,
    ensures
        match r {
            Some(t) => spec_parse_nml_mechs(s@, i as int) == Some(
                (t.0.deep_view(), t.1 as int),
            ) && i <= t.1 <= n,
            None => spec_parse_nml_mechs(s@, i as int) is None,
        },
    decreases n - i,
{
    if let Some(j) = match_lit(s, n, i, "</decor>") {
        let out: Vec<Mechanism> = Vec::new();
        proof {
            assert(out.deep_view() =~= Seq::<MechanismV>::empty());
        }
        return Some((out, j));
    }
    let (m, j1) = match parse_nml_mech(s, n, i) {
        Some(t) => t,
        None => return None,
    };
    match parse_nml_mechs(s, n, j1) {
        Some((mut ms, j2)) => {
            let ghost tail = ms.deep_view();
            ms.insert(0, m);
            proof {
                assert(ms.deep_view() =~= seq![m.deep_view()] + tail);
            }
            Some((ms, j2))
        },
        None => None,
    }
}

/// Decodes a NeuroML-derived text into the shared intermediate.
pub fn parse_nml(text: &str) -> (r: Result<Fit, Error>)
    ensures
        match r {
            Ok(f) => spec_nml(text@) == Ok::<_, ErrorV>(f.deep_view()),
            Err(e) => spec_nml(text@) == Err::<Seq<MechanismV>, _>(e@),
        },
{
    if !text.is_ascii() {
        return Err(Error::structure(String::from_str("decor")));
    }
    let n = text.unicode_len();
    let parsed = match match_lit(text, n, 0, "<decor>") {
        Some(j0) => match parse_nml_mechs(text, n, j0) {
            Some((ms, j1)) => if j1 == n {
                Some(ms)
            } else {
                None
            },
            None => None,
        },
        None => None,
    };
    match parsed {
        Some(ms) => Ok(Fit { mechanisms: ms }),
        None => Err(Error::structure(String::from_str("decor"))),
    }
}

/// The canonical text a NeuroML-derived description converts to: decode,
/// validate, encode.
pub open spec fn spec_nml_acc(s: Seq<char>) -> Result<Seq<char>, ErrorV> {
    match spec_nml(s) {
        Ok(ms) => match spec_decor(ms) {
            Ok(d) => Ok(spec_acc(d)),
            Err(e) => Err(e),
        },
        Err(e) => Err(e),
    }
}

/// The canonical text a native fit description converts to: decode,
/// validate, encode.
pub open spec fn spec_fit_acc(s: Seq<char>) -> Result<Seq<char>, ErrorV> {
    match spec_fit(s) {
        Ok(ms) => match spec_decor(ms) {
            Ok(d) => Ok(spec_acc(d)),
            Err(e) => Err(e),
        },
        Err(e) => Err(e),
    }
}

/// Converts a NeuroML-derived text to the canonical encoding.
pub fn mk_acc(text: &str) -> (r: Result<String, Error>)
    ensures
        match r {
            Ok(a) => spec_nml_acc(text@) == Ok::<_, ErrorV>(a@),
            Err(e) => spec_nml_acc(text@) == Err::<Seq<char>, _>(e@),
        },
{
    let f = match parse_nml(text) {
        Ok(f) => f,
        Err(e) => return Err(e),
    };
    let d = match f.decor() {
        Ok(d) => d,
        Err(e) => return Err(e),
    };
    Ok(d.to_acc())
}

/// Converts a native fit text to the canonical encoding.
pub fn fit_to_acc(text: &str) -> (r: Result<String, Error>)
    ensures
        match r {
            Ok(a) => spec_fit_acc(text@) == Ok::<_, ErrorV>(a@),
            Err(e) => spec_fit_acc(text@) == Err::<Seq<char>, _>(e@),
        },
{
    let f = match Fit::parse(text) {
        Ok(f) => f,
        Err(e) => return Err(e),
    };
    let d = match f.decor() {
        Ok(d) => d,
        Err(e) => return Err(e),
    };
    Ok(d.to_acc())
}

/// Format convergence: a native fit text and a NeuroML-derived text whose
/// decoded intermediates are equal convert to byte-identical canonical
/// encodings — the encoder depends on the normalized decoration alone,
/// never on the source dialect.
pub proof fn lemma_format_convergence(a: Seq<char>, b: Seq<char>, ms: Seq<MechanismV>)
    requires
        spec_fit(a) == Ok::<_, ErrorV>(ms),
        spec_nml(b) == Ok::<_, ErrorV>(ms),
    ensures
        spec_fit_acc(a) == spec_nml_acc(b),
{
}

} // verus!

//! Decoder for the native fit dialect.
//!
//! A fit file is a compact declarative description of one parameter set:
//!
//! ```text
//! {"mechanisms":[{"name":N,"region":R,"parameters":[{"name":N,"value":V},...]},...]}
//! ```
//!
//! where names are quoted and values are bare numeric tokens.  The decoder
//! is defined by the spec grammar below; the executable parser returns
//! exactly what the grammar denotes, and fails with a structure error on any
//! input the grammar rejects.

use vstd::prelude::*;

use crate::decor::{Fit, Mechanism, MechanismV, Param, ParamV};
use crate::err::{err_v, Error, ErrorKind, ErrorV};
use crate::lex::{
    match_lit, parse_numtok, parse_string, spec_match, spec_parse_numtok, spec_parse_string,
};

verus! {

/// One `{"name":N,"value":V}` parameter at position `i`.
pub open spec fn spec_parse_param(s: Seq<char>, i: int) -> Option<(ParamV, int)> {
    match spec_match(s, i, "{\"name\":"@) {
        Some(j0) => match spec_parse_string(s, j0) {
            Some((nm, j1)) => match spec_match(s, j1, ",\"value\":"@) {
                Some(j2) => match spec_parse_numtok(s, j2) {
                    Some((v, j3)) => match spec_match(s, j3, "}"@) {
                        Some(j4) => Some((ParamV { name: nm, value: v }, j4)),
                        None => None,
                    },
                    None => None,
                },
                None => None,
            },
            None => None,
        },
        None => None,
    }
}

/// The parameters after an already-consumed element: either the closing
/// bracket, or a comma and one more parameter.
pub open spec fn spec_parse_params_rest(s: Seq<char>, i: int) -> Option<(Seq<ParamV>, int)>
    decreases s.len() - i,
{
    match spec_match(s, i, "]"@) {
        Some(j) => Some((Seq::empty(), j)),
        None => match spec_match(s, i, ","@) {
            Some(j0) => match spec_parse_param(s, j0) {
                Some((p, j1)) => if i < j1 <= s.len() {
                    match spec_parse_params_rest(s, j1) {
                        Some((ps, j2)) => Some((seq![p] + ps, j2)),
                        None => None,
                    }
                } else {
                    None
                },
                None => None,
            },
            None => None,
        },
    }
}

/// A possibly empty parameter list after its opening bracket.
pub open spec fn spec_parse_params(s: Seq<char>, i: int) -> Option<(Seq<ParamV>, int)> {
    match spec_match(s, i, "]"@) {
        Some(j) => Some((Seq::empty(), j)),
        None => match spec_parse_param(s, i) {
            Some((p, j1)) => if i < j1 <= s.len() {
                match spec_parse_params_rest(s, j1) {
                    Some((ps, j2)) => Some((seq![p] + ps, j2)),
                    None => None,
                }
            } else {
                None
            },
            None => None,
        },
    }
}

/// One mechanism object at position `i`.
pub open spec fn spec_parse_mech(s: Seq<char>, i: int) -> Option<(MechanismV, int)> {
    match spec_match(s, i, "{\"name\":"@) {
        Some(j0) => match spec_parse_string(s, j0) {
            Some((nm, j1)) => match spec_match(s, j1, ",\"region\":"@) {
                Some(j2) => match spec_parse_string(s, j2) {
                    Some((rg, j3)) => match spec_match(s, j3, ",\"parameters\":["@) {
                        Some(j4) => match spec_parse_params(s, j4) {
                            Some((ps, j5)) => match spec_match(s, j5, "}"@) {
                                Some(j6) => Some(
                                    (MechanismV { name: nm, region: rg, parameters: ps }, j6),
                                ),
                                None => None,
                            },
                            None => None,
                        },
                        None => None,
                    },
                    None => None,
                },
                None => None,
            },
            None => None,
        },
        None => None,
    }
}

/// The mechanisms after an already-consumed element.
pub open spec fn spec_parse_mechs_rest(s: Seq<char>, i: int) -> Option<(Seq<MechanismV>, int)>
    decreases s.len() - i,
{
    match spec_match(s, i, "]"@) {
        Some(j) => Some((Seq::empty(), j)),
        None => match spec_match(s, i, ","@) {
            Some(j0) => match spec_parse_mech(s, j0) {
                Some((m, j1)) => if i < j1 <= s.len() {
                    match spec_parse_mechs_rest(s, j1) {
                        Some((ms, j2)) => Some((seq![m] + ms, j2)),
                        None => None,
                    }
                } else {
                    None
                },
                None => None,
            },
            None => None,
        },
    }
}

/// A possibly empty mechanism list after its opening bracket.
pub open spec fn spec_parse_mechs(s: Seq<char>, i: int) -> Option<(Seq<MechanismV>, int)> {
    match spec_match(s, i, "]"@) {
        Some(j) => Some((Seq::empty(), j)),
        None => match spec_parse_mech(s, i) {
            Some((m, j1)) => if i < j1 <= s.len() {
                match spec_parse_mechs_rest(s, j1) {
                    Some((ms, j2)) => Some((seq![m] + ms, j2)),
                    None => None,
                }
            } else {
                None
            },
            None => None,
        },
    }
}

/// A whole fit description: the mechanism list, and nothing after it.
pub open spec fn spec_parse_fit(s: Seq<char>) -> Option<Seq<MechanismV>> {
    match spec_match(s, 0, "{\"mechanisms\":["@) {
        Some(j0) => match spec_parse_mechs(s, j0) {
            Some((ms, j1)) => match spec_match(s, j1, "}"@) {
                Some(j2) => if j2 == s.len() {
                    Some(ms)
                } else {
                    None
                },
                None => None,
            },
            None => None,
        },
        None => None,
    }
}

/// Decoding a fit text: the decoded mechanisms, or a structure error.  Text
/// outside the ASCII subset is malformed.
pub open spec fn spec_fit(s: Seq<char>) -> Result<Seq<MechanismV>, ErrorV> {
    if vstd::utf8::is_ascii_chars(s) {
        match spec_parse_fit(s) {
            Some(ms) => Ok(ms),
            None => Err(err_v(ErrorKind::Structure, "mechanisms"@)),
        }
    } else {
        Err(err_v(ErrorKind::Structure, "mechanisms"@))
    }
}

fn parse_param(s: &str, n: usize, i: usize) -> (r: Option<(Param, usize)>)
    requires
        s.is_ascii(),
        n == s@.len(),
        i <= n,
    ensures
        match r {
            Some(t) => spec_parse_param(s@, i as int) == Some((t.0.deep_view(), t.1 as int))
                && i < t.1 <= n,
            None => spec_parse_param(s@, i as int) is None,
        },
{
    let j0 = match match_lit(s, n, i, "{\"name\":") {
        Some(j) => j,
        None => return None,
    };
    let (nm, j1) = match parse_string(s, n, j0) {
        Some(t) => t,
        None => return None,
    };
    let j2 = match match_lit(s, n, j1, ",\"value\":") {
        Some(j) => j,
        None => return None,
    };
    let (v, j3) = match parse_numtok(s, n, j2) {
        Some(t) => t,
        None => return None,
    };
    let j4 = match match_lit(s, n, j3, "}") {
        Some(j) => j,
        None => return None,
    };
    Some((Param { name: nm, value: v }, j4))
}

fn parse_params_rest(s: &str, n: usize, i: usize) -> (r: Option<(Vec<Param>, usize)>)
    requires
        s.is_ascii(),
        n == s@.len(),
        i <= n,
    ensures
        match r {
            Some(t) => spec_parse_params_rest(s@, i as int) == Some(
                (t.0.deep_view(), t.1 as int),
            ) && i <= t.1 <= n,
            None => spec_parse_params_rest(s@, i as int) is None,
        },
    decreases n - i,
{
    if let Some(j) = match_lit(s, n, i, "]") {
        let out: Vec<Param> = Vec::new();
        proof {
            assert(out.deep_view() =~= Seq::<ParamV>::empty());
        }
        return Some((out, j));
    }
    let j0 = match match_lit(s, n, i, ",") {
        Some(j) => j,
        None => return None,
    };
    let (p, j1) = match parse_param(s, n, j0) {
        Some(t) => t,
        None => return None,
    };
    match parse_params_rest(s, n, j1) {
        Some((mut ps, j2)) => {
            let ghost tail = ps.deep_view();
            ps.insert(0, p);
            proof {
                assert(ps.deep_view() =~= seq![p.deep_view()] + tail);
            }
            Some((ps, j2))
        },
        None => None,
    }
}

fn parse_params(s: &str, n: usize, i: usize) -> (r: Option<(Vec<Param>, usize)>)
    requires
        s.is_ascii(),
        n == s@.len(),
        i <= n,
    ensures
        match r {
            Some(t) => spec_parse_params(s@, i as int) == Some((t.0.deep_view(), t.1 as int))
                && i <= t.1 <= n,
            None => spec_parse_params(s@, i as int) is None,
        },
{
    if let Some(j) = match_lit(s, n, i, "]") {
        let out: Vec<Param> = Vec::new();
        proof {
            assert(out.deep_view() =~= Seq::<ParamV>::empty());
        }
        return Some((out, j));
    }
    let (p, j1) = match parse_param(s, n, i) {
        Some(t) => t,
        None => return None,
    };
    match parse_params_rest(s, n, j1) {
        Some((mut ps, j2)) => {
            let ghost tail = ps.deep_view();
            ps.insert(0, p);
            proof {
                assert(ps.deep_view() =~= seq![p.deep_view()] + tail);
            }
            Some((ps, j2))
        },
        None => None,
    }
}

fn parse_mech(s: &str, n: usize, i: usize) -> (r: Option<(Mechanism, usize)>)
    requires
        s.is_ascii(),
        n == s@.len(),
        i <= n,
    ensures
        match r {
            Some(t) => spec_parse_mech(s@, i as int) == Some((t.0.deep_view(), t.1 as int))
                && i < t.1 <= n,
            None => spec_parse_mech(s@, i as int) is None,
        },
{
    let j0 = match match_lit(s, n, i, "{\"name\":") {
        Some(j) => j,
        None => return None,
    };
    let (nm, j1) = match parse_string(s, n, j0) {
        Some(t) => t,
        None => return None,
    };
    let j2 = match match_lit(s, n, j1, ",\"region\":") {
        Some(j) => j,
        None => return None,
    };
    let (rg, j3) = match parse_string(s, n, j2) {
        Some(t) => t,
        None => return None,
    };
    let j4 = match match_lit(s, n, j3, ",\"parameters\":[") {
        Some(j) => j,
        None => return None,
    };
    let (ps, j5) = match parse_params(s, n, j4) {
        Some(t) => t,
        None => return None,
    };
    let j6 = match match_lit(s, n, j5, "}") {
        Some(j) => j,
        None => return None,
    };
    Some((Mechanism { name: nm, region: rg, parameters: ps }, j6))
}

fn parse_mechs_rest(s: &str, n: usize, i: usize) -> (r: Option<(Vec<Mechanism>, usize)>)
    requires
        s.is_ascii(),
        n == s@.len(),
        i <= n,
    ensures
        match r {
            Some(t) => spec_parse_mechs_rest(s@, i as int) == Some(
                (t.0.deep_view(), t.1 as int),
            ) && i <= t.1 <= n,
            None => spec_parse_mechs_rest(s@, i as int) is None,
        },
    decreases n - i,
{
    if let Some(j) = match_lit(s, n, i, "]") {
        let out: Vec<Mechanism> = Vec::new();
        proof {
            assert(out.deep_view() =~= Seq::<MechanismV>::empty());
        }
        return Some((out, j));
    }
    let j0 = match match_lit(s, n, i, ",") {
        Some(j) => j,
        None => return None,
    };
    let (m, j1) = match parse_mech(s, n, j0) {
        Some(t) => t,
        None => return None,
    };
    match parse_mechs_rest(s, n, j1) {
        Some((mut ms, j2)) => {
            let ghost tail = ms.deep_view();
            ms.insert(0, m);
            proof {
                assert(ms.deep_view() =~= seq![m.deep_view()] + tail);
            }
            Some((ms, j2))
        },
        None => None,
    }
}

fn parse_mechs(s: &str, n: usize, i: usize) -> (r: Option<(Vec<Mechanism>, usize)>)
    requires
        s.is_ascii(),
        n == s@.len(),
        i <= n,
    ensures
        match r {
            Some(t) => spec_parse_mechs(s@, i as int) == Some((t.0.deep_view(), t.1 as int))
                && i <= t.1 <= n,
            None => spec_parse_mechs(s@, i as int) is None,
        },
{
    if let Some(j) = match_lit(s, n, i, "]") {
        let out: Vec<Mechanism> = Vec::new();
        proof {
            assert(out.deep_view() =~= Seq::<MechanismV>::empty());
        }
        return Some((out, j));
    }
    let (m, j1) = match parse_mech(s, n, i) {
        Some(t) => t,
        None => return None,
    };
    match parse_mechs_rest(s, n, j1) {
        Some((mut ms, j2)) => {
            let ghost tail = ms.deep_view();
            ms.insert(0, m);
            proof {
                assert(ms.deep_view() =~= seq![m.deep_view()] + tail);
            }
            Some((ms, j2))
        },
        None => None,
    }
}

impl Fit {
    /// Decodes a native fit text into the shared intermediate.  Returns
    /// exactly the mechanisms the grammar denotes on this text, and a
    /// structure error if and only if the grammar rejects it.
    pub fn parse(text: &str) -> (r: Result<Fit, Error>)
        ensures
            match r {
                Ok(f) => spec_fit(text@) == Ok::<_, ErrorV>(f.deep_view()),
                Err(e) => spec_fit(text@) == Err::<Seq<MechanismV>, _>(e@),
            },
    {
        if !text.is_ascii() {
            return Err(Error::structure(String::from_str("mechanisms")));
        }
        let n = text.unicode_len();
        let parsed = match match_lit(text, n, 0, "{\"mechanisms\":[") {
            Some(j0) => match parse_mechs(text, n, j0) {
                Some((ms, j1)) => match match_lit(text, n, j1, "}") {
                    Some(j2) => if j2 == n {
                        Some(ms)
                    } else {
                        None
                    },
                    None => None,
                },
                None => None,
            },
            None => None,
        };
        match parsed {
            Some(ms) => Ok(Fit { mechanisms: ms }),
            None => Err(Error::structure(String::from_str("mechanisms"))),
        }
    }
}

} // verus!

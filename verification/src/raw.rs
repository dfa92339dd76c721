//! Parser for the declarative model description.
//!
//! A model text is the compact form
//!
//! ```text
//! {"components":[D,...],"populations":[{"name":N,"morphology":M,"fit":F},...],
//!  "edges":[{"source":S,"target":T,"weight":W},...],"run":{"t_end":W,"dt":W}}
//! ```
//!
//! with quoted names and decimal numbers.  Parsing performs structural
//! validation only: required fields present and well-formed, in declaration
//! order.  It does not confirm that any referenced file exists — that is the
//! extraction stage's duty.  A malformed text fails with a structure error
//! naming the offending section.

use vstd::prelude::*;

use crate::err::{err_v, Error, ErrorKind, ErrorV};
use crate::lex::{match_lit, parse_string, parse_u64, spec_match, spec_parse_string, spec_parse_u64};

verus! {

/// A declared cell population: its name, and the names of the morphology
/// and fit components its cells reference.
#[derive(Debug)]
pub struct Population {
    pub name: String,
    pub morphology: String,
    pub fit: String,
}

#[verifier::ext_equal]
pub struct PopulationV {
    pub name: Seq<char>,
    pub morphology: Seq<char>,
    pub fit: Seq<char>,
}

impl DeepView for Population {
    type V = PopulationV;

    open spec fn deep_view(&self) -> PopulationV {
        PopulationV { name: self.name@, morphology: self.morphology@, fit: self.fit@ }
    }
}

/// A connectivity edge between two declared populations.
#[derive(Debug)]
pub struct Edge {
    pub source: String,
    pub target: String,
    pub weight: u64,
}

#[verifier::ext_equal]
pub struct EdgeV {
    pub source: Seq<char>,
    pub target: Seq<char>,
    pub weight: u64,
}

impl DeepView for Edge {
    type V = EdgeV;

    open spec fn deep_view(&self) -> EdgeV {
        EdgeV { source: self.source@, target: self.target@, weight: self.weight }
    }
}

/// The run parameters of the simulation, in integral units.
#[derive(Clone, Copy, PartialEq, Eq, Structural, Debug)]
pub struct Run {
    pub t_end: u64,
    pub dt: u64,
}

impl DeepView for Run {
    type V = Run;

    open spec fn deep_view(&self) -> Run {
        *self
    }
}

/// The parsed-but-unvalidated model: the ordered component search
/// locations, and the declared populations, connectivity and run parameters.
#[derive(Debug)]
pub struct RawModel {
    pub components: Vec<String>,
    pub populations: Vec<Population>,
    pub edges: Vec<Edge>,
    pub run: Run,
}

#[verifier::ext_equal]
pub struct RawModelV {
    pub components: Seq<Seq<char>>,
    pub populations: Seq<PopulationV>,
    pub edges: Seq<EdgeV>,
    pub run: Run,
}

impl DeepView for RawModel {
    type V = RawModelV;

    open spec fn deep_view(&self) -> RawModelV {
        RawModelV {
            components: self.components.deep_view(),
            populations: self.populations.deep_view(),
            edges: self.edges.deep_view(),
            run: self.run,
        }
    }
}

/// The names after an already-consumed list element.
pub open spec fn spec_parse_names_rest(s: Seq<char>, i: int) -> Option<(Seq<Seq<char>>, int)>
    decreases s.len() - i,
{
    match spec_match(s, i, "]"@) {
        Some(j) => Some((Seq::empty(), j)),
        None => match spec_match(s, i, ","@) {
            Some(j0) => match spec_parse_string(s, j0) {
                Some((nm, j1)) => if i < j1 <= s.len() {
                    match spec_parse_names_rest(s, j1) {
                        Some((ns, j2)) => Some((seq![nm] + ns, j2)),
                        None => None,
                    }
                } else {
                    None
                },
                None => None,
            },
            None => None,
        },
    }
}

/// A possibly empty list of quoted names after its opening bracket.
pub open spec fn spec_parse_names(s: Seq<char>, i: int) -> Option<(Seq<Seq<char>>, int)> {
    match spec_match(s, i, "]"@) {
        Some(j) => Some((Seq::empty(), j)),
        None => match spec_parse_string(s, i) {
            Some((nm, j1)) => if i < j1 <= s.len() {
                match spec_parse_names_rest(s, j1) {
                    Some((ns, j2)) => Some((seq![nm] + ns, j2)),
                    None => None,
                }
            } else {
                None
            },
            None => None,
        },
    }
}

/// One population object at position `i`.
pub open spec fn spec_parse_pop(s: Seq<char>, i: int) -> Option<(PopulationV, int)> {
    match spec_match(s, i, "{\"name\":"@) {
        Some(j0) => match spec_parse_string(s, j0) {
            Some((nm, j1)) => match spec_match(s, j1, ",\"morphology\":"@) {
                Some(j2) => match spec_parse_string(s, j2) {
                    Some((mr, j3)) => match spec_match(s, j3, ",\"fit\":"@) {
                        Some(j4) => match spec_parse_string(s, j4) {
                            Some((ft, j5)) => match spec_match(s, j5, "}"@) {
                                Some(j6) => Some(
                                    (PopulationV { name: nm, morphology: mr, fit: ft }, j6),
                                ),
                                None => None,
                            },
                            None => None,
                        },
                        None => None,
                    },
                    None => None,
                },
                None => None,
            },
            None => None,
        },
        None => None,
    }
}

/// The populations after an already-consumed element.
pub open spec fn spec_parse_pops_rest(s: Seq<char>, i: int) -> Option<(Seq<PopulationV>, int)>
    decreases s.len() - i,
{
    match spec_match(s, i, "]"@) {
        Some(j) => Some((Seq::empty(), j)),
        None => match spec_match(s, i, ","@) {
            Some(j0) => match spec_parse_pop(s, j0) {
                Some((p, j1)) => if i < j1 <= s.len() {
                    match spec_parse_pops_rest(s, j1) {
                        Some((ps, j2)) => Some((seq![p] + ps, j2)),
                        None => None,
                    }
                } else {
                    None
                },
                None => None,
            },
            None => None,
        },
    }
}

/// A possibly empty population list after its opening bracket.
pub open spec fn spec_parse_pops(s: Seq<char>, i: int) -> Option<(Seq<PopulationV>, int)> {
    match spec_match(s, i, "]"@) {
        Some(j) => Some((Seq::empty(), j)),
        None => match spec_parse_pop(s, i) {
            Some((p, j1)) => if i < j1 <= s.len() {
                match spec_parse_pops_rest(s, j1) {
                    Some((ps, j2)) => Some((seq![p] + ps, j2)),
                    None => None,
                }
            } else {
                None
            },
            None => None,
        },
    }
}

/// One edge object at position `i`.
pub open spec fn spec_parse_edge(s: Seq<char>, i: int) -> Option<(EdgeV, int)> {
    match spec_match(s, i, "{\"source\":"@) {
        Some(j0) => match spec_parse_string(s, j0) {
            Some((sr, j1)) => match spec_match(s, j1, ",\"target\":"@) {
                Some(j2) => match spec_parse_string(s, j2) {
                    Some((tg, j3)) => match spec_match(s, j3, ",\"weight\":"@) {
                        Some(j4) => match spec_parse_u64(s, j4) {
                            Some((w, j5)) => match spec_match(s, j5, "}"@) {
                                Some(j6) => Some((EdgeV { source: sr, target: tg, weight: w }, j6)),
                                None => None,
                            },
                            None => None,
                        },
                        None => None,
                    },
                    None => None,
                },
                None => None,
            },
            None => None,
        },
        None => None,
    }
}

/// The edges after an already-consumed element.
pub open spec fn spec_parse_edges_rest(s: Seq<char>, i: int) -> Option<(Seq<EdgeV>, int)>
    decreases s.len() - i,
{
    match spec_match(s, i, "]"@) {
        Some(j) => Some((Seq::empty(), j)),
        None => match spec_match(s, i, ","@) {
            Some(j0) => match spec_parse_edge(s, j0) {
                Some((e, j1)) => if i < j1 <= s.len() {
                    match spec_parse_edges_rest(s, j1) {
                        Some((es, j2)) => Some((seq![e] + es, j2)),
                        None => None,
                    }
                } else {
                    None
                },
                None => None,
            },
            None => None,
        },
    }
}

/// A possibly empty edge list after its opening bracket.
pub open spec fn spec_parse_edges(s: Seq<char>, i: int) -> Option<(Seq<EdgeV>, int)> {
    match spec_match(s, i, "]"@) {
        Some(j) => Some((Seq::empty(), j)),
        None => match spec_parse_edge(s, i) {
            Some((e, j1)) => if i < j1 <= s.len() {
                match spec_parse_edges_rest(s, j1) {
                    Some((es, j2)) => Some((seq![e] + es, j2)),
                    None => None,
                }
            } else {
                None
            },
            None => None,
        },
    }
}

/// Structural parsing of a model text: the raw model, or a structure error
/// naming the section at which the text stops conforming to the schema.
pub open spec fn spec_model(s: Seq<char>) -> Result<RawModelV, ErrorV> {
    if !vstd::utf8::is_ascii_chars(s) {
        Err(err_v(ErrorKind::Structure, "model"@))
    } else {
        match spec_match(s, 0, "{\"components\":["@) {
            None => Err(err_v(ErrorKind::Structure, "components"@)),
            Some(j0) => match spec_parse_names(s, j0) {
                None => Err(err_v(ErrorKind::Structure, "components"@)),
                Some((cs, j1)) => match spec_match(s, j1, ",\"populations\":["@) {
                    None => Err(err_v(ErrorKind::Structure, "populations"@)),
                    Some(j2) => match spec_parse_pops(s, j2) {
                        None => Err(err_v(ErrorKind::Structure, "populations"@)),
                        Some((ps, j3)) => match spec_match(s, j3, ",\"edges\":["@) {
                            None => Err(err_v(ErrorKind::Structure, "edges"@)),
                            Some(j4) => match spec_parse_edges(s, j4) {
                                None => Err(err_v(ErrorKind::Structure, "edges"@)),
                                Some((es, j5)) => match spec_match(s, j5, ",\"run\":{\"t_end\":"@) {
                                    None => Err(err_v(ErrorKind::Structure, "run"@)),
                                    Some(j6) => match spec_parse_u64(s, j6) {
                                        None => Err(err_v(ErrorKind::Structure, "run"@)),
                                        Some((te, j7)) => match spec_match(s, j7, ",\"dt\":"@) {
                                            None => Err(err_v(ErrorKind::Structure, "run"@)),
                                            Some(j8) => match spec_parse_u64(s, j8) {
                                                None => Err(err_v(ErrorKind::Structure, "run"@)),
                                                Some((dt, j9)) => match spec_match(s, j9, "}}"@) {
                                                    None => Err(
                                                        err_v(ErrorKind::Structure, "run"@),
                                                    ),
                                                    Some(j10) => if j10 == s.len() {
                                                        Ok(
                                                            RawModelV {
                                                                components: cs,
                                                                populations: ps,
                                                                edges: es,
                                                                run: Run { t_end: te, dt },
                                                            },
                                                        )
                                                    } else {
                                                        Err(err_v(ErrorKind::Structure, "model"@))
                                                    },
                                                },
                                            },
                                        },
                                    },
                                },
                            },
                        },
                    },
                },
            },
        }
    }
}

fn parse_names_rest(s: &str, n: usize, i: usize) -> (r: Option<(Vec<String>, usize)>)
    requires
        s.is_ascii(),
        n == s@.len(),
        i <= n,
    ensures
        match r {
            Some(t) => spec_parse_names_rest(s@, i as int) == Some(
                (t.0.deep_view(), t.1 as int),
            ) && i <= t.1 <= n,
            None => spec_parse_names_rest(s@, i as int) is None,
        },
    decreases n - i,
{
    if let Some(j) = match_lit(s, n, i, "]") {
        let out: Vec<String> = Vec::new();
        proof {
            assert(out.deep_view() =~= Seq::<Seq<char>>::empty());
        }
        return Some((out, j));
    }
    let j0 = match match_lit(s, n, i, ",") {
        Some(j) => j,
        None => return None,
    };
    let (nm, j1) = match parse_string(s, n, j0) {
        Some(t) => t,
        None => return None,
    };
    match parse_names_rest(s, n, j1) {
        Some((mut ns, j2)) => {
            let ghost tail = ns.deep_view();
            ns.insert(0, nm);
            proof {
                assert(ns.deep_view() =~= seq![ns[0]@] + tail);
            }
            Some((ns, j2))
        },
        None => None,
    }
}

fn parse_names(s: &str, n: usize, i: usize) -> (r: Option<(Vec<String>, usize)>)
    requires
        s.is_ascii(),
        n == s@.len(),
        i <= n,
    ensures
        match r {
            Some(t) => spec_parse_names(s@, i as int) == Some((t.0.deep_view(), t.1 as int))
                && i <= t.1 <= n,
            None => spec_parse_names(s@, i as int) is None,
        },
{
    if let Some(j) = match_lit(s, n, i, "]") {
        let out: Vec<String> = Vec::new();
        proof {
            assert(out.deep_view() =~= Seq::<Seq<char>>::empty());
        }
        return Some((out, j));
    }
    let (nm, j1) = match parse_string(s, n, i) {
        Some(t) => t,
        None => return None,
    };
    match parse_names_rest(s, n, j1) {
        Some((mut ns, j2)) => {
            let ghost tail = ns.deep_view();
            ns.insert(0, nm);
            proof {
                assert(ns.deep_view() =~= seq![ns[0]@] + tail);
            }
            Some((ns, j2))
        },
        None => None,
    }
}

fn parse_pop(s: &str, n: usize, i: usize) -> (r: Option<(Population, usize)>)
    requires
        s.is_ascii(),
        n == s@.len(),
        i <= n,
    ensures
        match r {
            Some(t) => spec_parse_pop(s@, i as int) == Some((t.0.deep_view(), t.1 as int))
                && i < t.1 <= n,
            None => spec_parse_pop(s@, i as int) is None,
        },
{
    let j0 = match match_lit(s, n, i, "{\"name\":") {
        Some(j) => j,
        None => return None,
    };
    let (nm, j1) = match parse_string(s, n, j0) {
        Some(t) => t,
        None => return None,
    };
    let j2 = match match_lit(s, n, j1, ",\"morphology\":") {
        Some(j) => j,
        None => return None,
    };
    let (mr, j3) = match parse_string(s, n, j2) {
        Some(t) => t,
        None => return None,
    };
    let j4 = match match_lit(s, n, j3, ",\"fit\":") {
        Some(j) => j,
        None => return None,
    };
    let (ft, j5) = match parse_string(s, n, j4) {
        Some(t) => t,
        None => return None,
    };
    let j6 = match match_lit(s, n, j5, "}") {
        Some(j) => j,
        None => return None,
    };
    Some((Population { name: nm, morphology: mr, fit: ft }, j6))
}

fn parse_pops_rest(s: &str, n: usize, i: usize) -> (r: Option<(Vec<Population>, usize)>)
    requires
        s.is_ascii(),
        n == s@.len(),
        i <= n,
    ensures
        match r {
            Some(t) => spec_parse_pops_rest(s@, i as int) == Some(
                (t.0.deep_view(), t.1 as int),
            ) && i <= t.1 <= n,
            None => spec_parse_pops_rest(s@, i as int) is None,
        },
    decreases n - i,
{
    if let Some(j) = match_lit(s, n, i, "]") {
        let out: Vec<Population> = Vec::new();
        proof {
            assert(out.deep_view() =~= Seq::<PopulationV>::empty());
        }
        return Some((out, j));
    }
    let j0 = match match_lit(s, n, i, ",") {
        Some(j) => j,
        None => return None,
    };
    let (p, j1) = match parse_pop(s, n, j0) {
        Some(t) => t,
        None => return None,
    };
    match parse_pops_rest(s, n, j1) {
        Some((mut ps, j2)) => {
            let ghost tail = ps.deep_view();
            ps.insert(0, p);
            proof {
                assert(ps.deep_view() =~= seq![ps[0].deep_view()] + tail);
            }
            Some((ps, j2))
        },
        None => None,
    }
}

fn parse_pops(s: &str, n: usize, i: usize) -> (r: Option<(Vec<Population>, usize)>)
    requires
        s.is_ascii(),
        n == s@.len(),
        i <= n,
    ensures
        match r {
            Some(t) => spec_parse_pops(s@, i as int) == Some((t.0.deep_view(), t.1 as int))
                && i <= t.1 <= n,
            None => spec_parse_pops(s@, i as int) is None,
        },
{
    if let Some(j) = match_lit(s, n, i, "]") {
        let out: Vec<Population> = Vec::new();
        proof {
            assert(out.deep_view() =~= Seq::<PopulationV>::empty());
        }
        return Some((out, j));
    }
    let (p, j1) = match parse_pop(s, n, i) {
        Some(t) => t,
        None => return None,
    };
    match parse_pops_rest(s, n, j1) {
        Some((mut ps, j2)) => {
            let ghost tail = ps.deep_view();
            ps.insert(0, p);
            proof {
                assert(ps.deep_view() =~= seq![ps[0].deep_view()] + tail);
            }
            Some((ps, j2))
        },
        None => None,
    }
}

fn parse_edge(s: &str, n: usize, i: usize) -> (r: Option<(Edge, usize)>)
    requires
        s.is_ascii(),
        n == s@.len(),
        i <= n,
    ensures
        match r {
            Some(t) => spec_parse_edge(s@, i as int) == Some((t.0.deep_view(), t.1 as int))
                && i < t.1 <= n,
            None => spec_parse_edge(s@, i as int) is None,
        },
{
    let j0 = match match_lit(s, n, i, "{\"source\":") {
        Some(j) => j,
        None => return None,
    };
    let (sr, j1) = match parse_string(s, n, j0) {
        Some(t) => t,
        None => return None,
    };
    let j2 = match match_lit(s, n, j1, ",\"target\":") {
        Some(j) => j,
        None => return None,
    };
    let (tg, j3) = match parse_string(s, n, j2) {
        Some(t) => t,
        None => return None,
    };
    let j4 = match match_lit(s, n, j3, ",\"weight\":") {
        Some(j) => j,
        None => return None,
    };
    let (w, j5) = match parse_u64(s, n, j4) {
        Some(t) => t,
        None => return None,
    };
    let j6 = match match_lit(s, n, j5, "}") {
        Some(j) => j,
        None => return None,
    };
    Some((Edge { source: sr, target: tg, weight: w }, j6))
}

fn parse_edges_rest(s: &str, n: usize, i: usize) -> (r: Option<(Vec<Edge>, usize)>)
    requires
        s.is_ascii(),
        n == s@.len(),
        i <= n,
    ensures
        match r {
            Some(t) => spec_parse_edges_rest(s@, i as int) == Some(
                (t.0.deep_view(), t.1 as int),
            ) && i <= t.1 <= n,
            None => spec_parse_edges_rest(s@, i as int) is None,
        },
    decreases n - i,
{
    if let Some(j) = match_lit(s, n, i, "]") {
        let out: Vec<Edge> = Vec::new();
        proof {
            assert(out.deep_view() =~= Seq::<EdgeV>::empty());
        }
        return Some((out, j));
    }
    let j0 = match match_lit(s, n, i, ",") {
        Some(j) => j,
        None => return None,
    };
    let (e, j1) = match parse_edge(s, n, j0) {
        Some(t) => t,
        None => return None,
    };
    match parse_edges_rest(s, n, j1) {
        Some((mut es, j2)) => {
            let ghost tail = es.deep_view();
            es.insert(0, e);
            proof {
                assert(es.deep_view() =~= seq![es[0].deep_view()] + tail);
            }
            Some((es, j2))
        },
        None => None,
    }
}

fn parse_edges(s: &str, n: usize, i: usize) -> (r: Option<(Vec<Edge>, usize)>)
    requires
        s.is_ascii(),
        n == s@.len(),
        i <= n,
    ensures
        match r {
            Some(t) => spec_parse_edges(s@, i as int) == Some((t.0.deep_view(), t.1 as int))
                && i <= t.1 <= n,
            None => spec_parse_edges(s@, i as int) is None,
        },
{
    if let Some(j) = match_lit(s, n, i, "]") {
        let out: Vec<Edge> = Vec::new();
        proof {
            assert(out.deep_view() =~= Seq::<EdgeV>::empty());
        }
        return Some((out, j));
    }
    let (e, j1) = match parse_edge(s, n, i) {
        Some(t) => t,
        None => return None,
    };
    match parse_edges_rest(s, n, j1) {
        Some((mut es, j2)) => {
            let ghost tail = es.deep_view();
            es.insert(0, e);
            proof {
                assert(es.deep_view() =~= seq![es[0].deep_view()] + tail);
            }
            Some((es, j2))
        },
        None => None,
    }
}

impl RawModel {
    /// Parses a model text into the raw model, performing structural
    /// validation only: the result and the error are exactly what the spec
    /// grammar denotes on this text.
    pub fn parse(text: &str) -> (r: Result<RawModel, Error>)
        ensures
            match r {
                Ok(m) => spec_model(text@) == Ok::<_, ErrorV>(m.deep_view()),
                Err(e) => spec_model(text@) == Err::<RawModelV, _>(e@),
            },
    {
        if !text.is_ascii() {
            return Err(Error::structure(String::from_str("model")));
        }
        let n = text.unicode_len();
        let j0 = match match_lit(text, n, 0, "{\"components\":[") {
            Some(j) => j,
            None => return Err(Error::structure(String::from_str("components"))),
        };
        let (cs, j1) = match parse_names(text, n, j0) {
            Some(t) => t,
            None => return Err(Error::structure(String::from_str("components"))),
        };
        let j2 = match match_lit(text, n, j1, ",\"populations\":[") {
            Some(j) => j,
            None => return Err(Error::structure(String::from_str("populations"))),
        };
        let (ps, j3) = match parse_pops(text, n, j2) {
            Some(t) => t,
            None => return Err(Error::structure(String::from_str("populations"))),
        };
        let j4 = match match_lit(text, n, j3, ",\"edges\":[") {
            Some(j) => j,
            None => return Err(Error::structure(String::from_str("edges"))),
        };
        let (es, j5) = match parse_edges(text, n, j4) {
            Some(t) => t,
            None => return Err(Error::structure(String::from_str("edges"))),
        };
        let j6 = match match_lit(text, n, j5, ",\"run\":{\"t_end\":") {
            Some(j) => j,
            None => return Err(Error::structure(String::from_str("run"))),
        };
        let (te, j7) = match parse_u64(text, n, j6) {
            Some(t) => t,
            None => return Err(Error::structure(String::from_str("run"))),
        };
        let j8 = match match_lit(text, n, j7, ",\"dt\":") {
            Some(j) => j,
            None => return Err(Error::structure(String::from_str("run"))),
        };
        let (dt, j9) = match parse_u64(text, n, j8) {
            Some(t) => t,
            None => return Err(Error::structure(String::from_str("run"))),
        };
        let j10 = match match_lit(text, n, j9, "}}") {
            Some(j) => j,
            None => return Err(Error::structure(String::from_str("run"))),
        };
        if j10 != n {
            return Err(Error::structure(String::from_str("model")));
        }
        Ok(RawModel { components: cs, populations: ps, edges: es, run: Run { t_end: te, dt } })
    }
}

} // verus!

//! The simulation extractor: semantic validation of a raw model.
//!
//! Extraction resolves every reference a raw model makes — each population's
//! morphology and fit component against the declared search locations, and
//! each connectivity edge's endpoints against the declared populations — and
//! returns a fully resolved graph, or fails on the first unresolvable
//! reference.  After this stage no downstream stage can discover a missing
//! component: extraction never succeeds while any reference is unresolved
//! (see [`lemma_extraction_completeness`]).

use vstd::prelude::*;

use crate::err::{err_v, with_ctx, Error, ErrorKind, ErrorV};
use crate::lex::str_eq;
use crate::raw::{Edge, EdgeV, Population, PopulationV, RawModel, RawModelV, Run};
use crate::resolve::{
    find_component, join_path, spec_find, spec_find_err, spec_join, Dir, DirV,
};

verus! {

/// A population whose component references are resolved: the declared names
/// together with the concrete paths resolution settled on.
#[derive(Debug)]
pub struct ResolvedPopulation {
    pub name: String,
    pub morphology: String,
    pub morphology_path: String,
    pub fit: String,
    pub fit_path: String,
}

#[verifier::ext_equal]
pub struct ResolvedPopulationV {
    pub name: Seq<char>,
    pub morphology: Seq<char>,
    pub morphology_path: Seq<char>,
    pub fit: Seq<char>,
    pub fit_path: Seq<char>,
}

impl DeepView for ResolvedPopulation {
    type V = ResolvedPopulationV;

    open spec fn deep_view(&self) -> ResolvedPopulationV {
        ResolvedPopulationV {
            name: self.name@,
            morphology: self.morphology@,
            morphology_path: self.morphology_path@,
            fit: self.fit@,
            fit_path: self.fit_path@,
        }
    }
}

/// The validated model: every reference resolved, connectivity checked.
#[derive(Debug)]
pub struct SimulationGraph {
    pub populations: Vec<ResolvedPopulation>,
    pub edges: Vec<Edge>,
    pub run: Run,
    pub components: Vec<String>,
}

#[verifier::ext_equal]
pub struct SimulationGraphV {
    pub populations: Seq<ResolvedPopulationV>,
    pub edges: Seq<EdgeV>,
    pub run: Run,
    pub components: Seq<Seq<char>>,
}

impl DeepView for SimulationGraph {
    type V = SimulationGraphV;

    open spec fn deep_view(&self) -> SimulationGraphV {
        SimulationGraphV {
            populations: self.populations.deep_view(),
            edges: self.edges.deep_view(),
            run: self.run,
            components: self.components.deep_view(),
        }
    }
}

/// The search-location snapshots correspond, in order, to the model's
/// declared component locations.
pub open spec fn dirs_match(cs: Seq<Seq<char>>, dirs: Seq<DirV>) -> bool {
    &&& dirs.len() == cs.len()
    &&& forall|k: int| 0 <= k < cs.len() ==> dirs[k].path == cs[k]
}

/// Resolution of one population's references, with the operation under way
/// recorded on a failure.
pub open spec fn spec_resolve_pop(p: PopulationV, dirs: Seq<DirV>) -> Result<
    ResolvedPopulationV,
    ErrorV,
> {
    match spec_find(dirs, p.morphology) {
        None => Err(with_ctx(spec_find_err(p.morphology, dirs), "resolving morphology"@)),
        Some((dm, _fm)) => match spec_find(dirs, p.fit) {
            None => Err(with_ctx(spec_find_err(p.fit, dirs), "resolving fit"@)),
            Some((df, _ff)) => Ok(
                ResolvedPopulationV {
                    name: p.name,
                    morphology: p.morphology,
                    morphology_path: spec_join(dirs[dm].path, p.morphology),
                    fit: p.fit,
                    fit_path: spec_join(dirs[df].path, p.fit),
                },
            ),
        },
    }
}

/// Resolution of the populations from position `k` on: all of them, in
/// order, or the first failure.
pub open spec fn spec_resolve_pops(ps: Seq<PopulationV>, dirs: Seq<DirV>, k: int) -> Result<
    Seq<ResolvedPopulationV>,
    ErrorV,
>
    decreases ps.len() - k,
{
    if k < 0 || k >= ps.len() {
        Ok(Seq::empty())
    } else {
        match spec_resolve_pop(ps[k], dirs) {
            Err(e) => Err(e),
            Ok(r) => match spec_resolve_pops(ps, dirs, k + 1) {
                Err(e) => Err(e),
                Ok(rest) => Ok(seq![r] + rest),
            },
        }
    }
}

/// Some population carries this name.
pub open spec fn has_pop(ps: Seq<PopulationV>, name: Seq<char>) -> bool {
    exists|k: int| 0 <= k < ps.len() && ps[k].name == name
}

/// What is wrong with an edge, if anything: an endpoint that names no
/// declared population is a semantic error.
pub open spec fn spec_edge_err(e: EdgeV, ps: Seq<PopulationV>) -> Option<ErrorV> {
    if !has_pop(ps, e.source) {
        Some(with_ctx(err_v(ErrorKind::Semantic, e.source), "validating connectivity"@))
    } else if !has_pop(ps, e.target) {
        Some(with_ctx(err_v(ErrorKind::Semantic, e.target), "validating connectivity"@))
    } else {
        None
    }
}

/// The first invalid edge from position `k` on, if any.
pub open spec fn spec_first_edge_err(es: Seq<EdgeV>, ps: Seq<PopulationV>, k: int) -> Option<
    ErrorV,
>
    decreases es.len() - k,
{
    if k < 0 || k >= es.len() {
        None
    } else {
        match spec_edge_err(es[k], ps) {
            Some(e) => Some(e),
            None => spec_first_edge_err(es, ps, k + 1),
        }
    }
}

/// Extraction of a raw model against the search-location snapshots: the
/// fully resolved graph, or the first resolution or connectivity failure.
pub open spec fn spec_extract(m: RawModelV, dirs: Seq<DirV>) -> Result<SimulationGraphV, ErrorV> {
    if !dirs_match(m.components, dirs) {
        Err(err_v(ErrorKind::Semantic, "components"@))
    } else {
        match spec_resolve_pops(m.populations, dirs, 0) {
            Err(e) => Err(e),
            Ok(rps) => match spec_first_edge_err(m.edges, m.populations, 0) {
                Some(e) => Err(e),
                None => Ok(
                    SimulationGraphV {
                        populations: rps,
                        edges: m.edges,
                        run: m.run,
                        components: m.components,
                    },
                ),
            },
        }
    }
}

/// Prepending already-resolved populations to the outcome of the rest.
pub open spec fn prepend_pops(
    done: Seq<ResolvedPopulationV>,
    rest: Result<Seq<ResolvedPopulationV>, ErrorV>,
) -> Result<Seq<ResolvedPopulationV>, ErrorV> {
    match rest {
        Ok(rs) => Ok(done + rs),
        Err(e) => Err(e),
    }
}

fn dirs_ok(cs: &Vec<String>, dirs: &Vec<Dir>) -> (r: bool)
    ensures
        r == dirs_match(cs.deep_view(), dirs.deep_view()),
{
    let ghost csv = cs.deep_view();
    let ghost dv = dirs.deep_view();
    if dirs.len() != cs.len() {
        return false;
    }
    let mut k: usize = 0;
    while k < dirs.len()
        invariant
            csv == cs.deep_view(),
            dv == dirs.deep_view(),
            dv.len() == dirs@.len(),
            csv.len() == cs@.len(),
            dirs@.len() == cs@.len(),
            0 <= k <= dv.len(),
            forall|t: int| 0 <= t < k ==> dv[t].path == csv[t],
        decreases dv.len() - k,
    {
        proof {
            assert(dv[k as int] == dirs[k as int].deep_view());
            assert(csv[k as int] == cs[k as int]@);
        }
        if !str_eq(dirs[k].path.as_str(), cs[k].as_str()) {
            return false;
        }
        k += 1;
    }
    true
}

fn pop_declared(ps: &Vec<Population>, name: &String) -> (r: bool)
    ensures
        r == has_pop(ps.deep_view(), name@),
{
    let ghost psv = ps.deep_view();
    let mut k: usize = 0;
    while k < ps.len()
        invariant
            psv == ps.deep_view(),
            0 <= k <= psv.len(),
            psv.len() == ps@.len(),
            forall|t: int| 0 <= t < k ==> psv[t].name != name@,
        decreases psv.len() - k,
    {
        proof {
            assert(psv[k as int] == ps[k as int].deep_view());
        }
        if str_eq(ps[k].name.as_str(), name.as_str()) {
            proof {
                assert(0 <= k < psv.len() && psv[k as int].name == name@);
            }
            return true;
        }
        k += 1;
    }
    false
}

fn clone_strings(v: &Vec<String>) -> (r: Vec<String>)
    ensures
        r.deep_view() == v.deep_view(),
{
    let mut out: Vec<String> = Vec::new();
    let mut k: usize = 0;
    while k < v.len()
        invariant
            0 <= k <= v@.len(),
            out.deep_view().len() == k,
            forall|t: int| 0 <= t < k ==> out.deep_view()[t] == v.deep_view()[t],
        decreases v@.len() - k,
    {
        let ghost prev = out.deep_view();
        out.push(v[k].clone());
        proof {
            assert forall|t: int| 0 <= t < k + 1 implies out.deep_view()[t] == v.deep_view()[t] by {
                if t < k {
                    assert(out.deep_view()[t] == prev[t]);
                }
            }
        }
        k += 1;
    }
    proof {
        assert(out.deep_view() =~= v.deep_view());
    }
    out
}

fn clone_edges(v: &Vec<Edge>) -> (r: Vec<Edge>)
    ensures
        r.deep_view() == v.deep_view(),
{
    let mut out: Vec<Edge> = Vec::new();
    let mut k: usize = 0;
    while k < v.len()
        invariant
            0 <= k <= v@.len(),
            out.deep_view().len() == k,
            forall|t: int| 0 <= t < k ==> out.deep_view()[t] == v.deep_view()[t],
        decreases v@.len() - k,
    {
        let ghost prev = out.deep_view();
        let e = Edge {
            source: v[k].source.clone(),
            target: v[k].target.clone(),
            weight: v[k].weight,
        };
        out.push(e);
        proof {
            assert forall|t: int| 0 <= t < k + 1 implies out.deep_view()[t] == v.deep_view()[t] by {
                if t < k {
                    assert(out.deep_view()[t] == prev[t]);
                }
            }
        }
        k += 1;
    }
    proof {
        assert(out.deep_view() =~= v.deep_view());
    }
    out
}

fn resolve_pop(p: &Population, dirs: &Vec<Dir>) -> (r: Result<ResolvedPopulation, Error>)
    ensures
        match r {
            Ok(rp) => spec_resolve_pop(p.deep_view(), dirs.deep_view()) == Ok::<_, ErrorV>(
                rp.deep_view(),
            ),
            Err(e) => spec_resolve_pop(p.deep_view(), dirs.deep_view()) == Err::<
                ResolvedPopulationV,
                _,
            >(e@),
        },
{
    let (dm, _fm) = match find_component(&p.morphology, dirs) {
        Ok(t) => t,
        Err(e) => return Err(e.context(String::from_str("resolving morphology"))),
    };
    let (df, _ff) = match find_component(&p.fit, dirs) {
        Ok(t) => t,
        Err(e) => return Err(e.context(String::from_str("resolving fit"))),
    };
    proof {
        assert(dirs.deep_view()[dm as int] == dirs[dm as int].deep_view());
        assert(dirs.deep_view()[df as int] == dirs[df as int].deep_view());
    }
    Ok(
        ResolvedPopulation {
            name: p.name.clone(),
            morphology: p.morphology.clone(),
            morphology_path: join_path(&dirs[dm].path, &p.morphology),
            fit: p.fit.clone(),
            fit_path: join_path(&dirs[df].path, &p.fit),
        },
    )
}

impl SimulationGraph {
    /// Extracts and validates a raw model: resolves every population's
    /// morphology and fit reference against the search-location snapshots
    /// (which must correspond, in order, to the model's declared component
    /// locations) and checks every edge's endpoints, failing on the first
    /// unresolvable or inconsistent reference.
    pub fn extract(raw: &RawModel, dirs: &Vec<Dir>) -> (r: Result<SimulationGraph, Error>)
        ensures
            match r {
                Ok(g) => spec_extract(raw.deep_view(), dirs.deep_view()) == Ok::<_, ErrorV>(
                    g.deep_view(),
                ),
                Err(e) => spec_extract(raw.deep_view(), dirs.deep_view()) == Err::<
                    SimulationGraphV,
                    _,
                >(e@),
            },
    {
        let ghost mv = raw.deep_view();
        let ghost dv = dirs.deep_view();
        // The snapshots must be those of the declared search locations.
        if !dirs_ok(&raw.components, dirs) {
            return Err(Error::semantic(String::from_str("components")));
        }
        // Resolve every population's references, in declaration order.
        let mut rps: Vec<ResolvedPopulation> = Vec::new();
        let mut k: usize = 0;
        proof {
            let r0 = spec_resolve_pops(mv.populations, dv, 0);
            if r0 is Ok {
                assert(rps.deep_view() + r0->Ok_0 =~= r0->Ok_0);
            }
        }
        while k < raw.populations.len()
            invariant
                mv == raw.deep_view(),
                dv == dirs.deep_view(),
                mv.populations.len() == raw.populations@.len(),
                0 <= k <= mv.populations.len(),
                dirs_match(mv.components, dv),
                spec_resolve_pops(mv.populations, dv, 0) == prepend_pops(
                    rps.deep_view(),
                    spec_resolve_pops(mv.populations, dv, k as int),
                ),
            decreases mv.populations.len() - k,
        {
            proof {
                assert(mv.populations[k as int] == raw.populations[k as int].deep_view());
            }
            match resolve_pop(&raw.populations[k], dirs) {
                Err(e) => {
                    proof {
                        assert(spec_resolve_pops(mv.populations, dv, k as int) == Err::<
                            Seq<ResolvedPopulationV>,
                            ErrorV,
                        >(e@));
                        assert(spec_extract(mv, dv) == Err::<SimulationGraphV, ErrorV>(e@));
                    }
                    return Err(e);
                },
                Ok(rp) => {
                    let ghost done = rps.deep_view();
                    let ghost rv = rp.deep_view();
                    rps.push(rp);
                    proof {
                        let rest = spec_resolve_pops(mv.populations, dv, k + 1);
                        if rest is Ok {
                            assert(rps.deep_view() + rest->Ok_0 =~= done + (seq![rv]
                                + rest->Ok_0));
                        }
                        assert(rps.deep_view() =~= done.push(rv));
                    }
                },
            }
            k += 1;
        }
        proof {
            assert(spec_resolve_pops(mv.populations, dv, k as int) == Ok::<
                Seq<ResolvedPopulationV>,
                ErrorV,
            >(Seq::empty()));
            assert(rps.deep_view() + Seq::<ResolvedPopulationV>::empty() =~= rps.deep_view());
        }
        // Validate every edge's endpoints against the declared populations.
        let mut k2: usize = 0;
        while k2 < raw.edges.len()
            invariant
                mv == raw.deep_view(),
                dv == dirs.deep_view(),
                mv.edges.len() == raw.edges@.len(),
                0 <= k2 <= mv.edges.len(),
                dirs_match(mv.components, dv),
                spec_resolve_pops(mv.populations, dv, 0) == Ok::<_, ErrorV>(rps.deep_view()),
                spec_first_edge_err(mv.edges, mv.populations, 0) == spec_first_edge_err(
                    mv.edges,
                    mv.populations,
                    k2 as int,
                ),
            decreases mv.edges.len() - k2,
        {
            proof {
                assert(mv.edges[k2 as int] == raw.edges[k2 as int].deep_view());
            }
            if !pop_declared(&raw.populations, &raw.edges[k2].source) {
                let e = Error::semantic(raw.edges[k2].source.clone()).context(
                    String::from_str("validating connectivity"),
                );
                proof {
                    assert(spec_edge_err(mv.edges[k2 as int], mv.populations) == Some(e@));
                    assert(spec_first_edge_err(mv.edges, mv.populations, k2 as int) == Some(e@));
                    assert(spec_extract(mv, dv) == Err::<SimulationGraphV, ErrorV>(e@));
                }
                return Err(e);
            }
            if !pop_declared(&raw.populations, &raw.edges[k2].target) {
                let e = Error::semantic(raw.edges[k2].target.clone()).context(
                    String::from_str("validating connectivity"),
                );
                proof {
                    assert(spec_edge_err(mv.edges[k2 as int], mv.populations) == Some(e@));
                    assert(spec_first_edge_err(mv.edges, mv.populations, k2 as int) == Some(e@));
                    assert(spec_extract(mv, dv) == Err::<SimulationGraphV, ErrorV>(e@));
                }
                return Err(e);
            }
            k2 += 1;
        }
        let g = SimulationGraph {
            populations: rps,
            edges: clone_edges(&raw.edges),
            run: raw.run,
            components: clone_strings(&raw.components),
        };
        proof {
            let sv = spec_extract(mv, dv);
            assert(sv is Ok);
            assert(g.deep_view() =~= sv->Ok_0);
        }
        Ok(g)
    }
}

/// Completeness: extraction never succeeds while any referenced component
/// is unresolved or any edge endpoint is undeclared — whenever the graph is
/// produced, every population's morphology and fit resolve against the
/// search locations and every edge joins declared populations.
pub proof fn lemma_extraction_completeness(m: RawModelV, dirs: Seq<DirV>)
    requires
        spec_extract(m, dirs) is Ok,
    ensures
        forall|k: int|
            0 <= k < m.populations.len() ==> spec_find(dirs, m.populations[k].morphology) is Some
                && spec_find(dirs, m.populations[k].fit) is Some,
        forall|k: int|
            0 <= k < m.edges.len() ==> has_pop(m.populations, m.edges[k].source) && has_pop(
                m.populations,
                m.edges[k].target,
            ),
{
    lemma_resolve_pops_complete(m.populations, dirs, 0);
    lemma_edges_complete(m.edges, m.populations, 0);
}

proof fn lemma_resolve_pops_complete(ps: Seq<PopulationV>, dirs: Seq<DirV>, k: int)
    requires
        0 <= k,
        spec_resolve_pops(ps, dirs, k) is Ok,
    ensures
        forall|t: int|
            k <= t < ps.len() ==> spec_find(dirs, ps[t].morphology) is Some && spec_find(
                dirs,
                ps[t].fit,
            ) is Some,
    decreases ps.len() - k,
{
    if 0 <= k < ps.len() {
        assert(spec_resolve_pop(ps[k], dirs) is Ok);
        lemma_resolve_pops_complete(ps, dirs, k + 1);
    }
}

proof fn lemma_edges_complete(es: Seq<EdgeV>, ps: Seq<PopulationV>, k: int)
    requires
        0 <= k,
        spec_first_edge_err(es, ps, k) is None,
    ensures
        forall|t: int| k <= t < es.len() ==> has_pop(ps, es[t].source) && has_pop(ps, es[t].target),
    decreases es.len() - k,
{
    if 0 <= k < es.len() {
        assert(spec_edge_err(es[k], ps) is None);
        lemma_edges_complete(es, ps, k + 1);
    }
}

} // verus!

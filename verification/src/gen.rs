//! The bundle assembler and the build driver.
//!
//! A [`Bundle`] is the serializable snapshot of a validated simulation
//! graph: the ordered morphology file names, the ordered decoration file
//! names, and the connectivity and run data.  Both lists keep the graph's
//! population declaration order — consumers address entries positionally.
//! The [`build`] driver performs the whole conversion: it parses and
//! extracts the model, assembles the bundle, converts every referenced fit
//! to the canonical encoding (rewriting the decoration entry's extension
//! exactly once), and encodes the binary snapshot.

use vstd::prelude::*;
use vstd::utf8::encode_utf8;

use crate::cbor::{encode_bundle, spec_encode_bundle};
use crate::err::{err_v, with_ctx, Error, ErrorKind, ErrorV};
use crate::lex::str_eq;
use crate::nml::{fit_to_acc, mk_acc, spec_fit_acc, spec_nml_acc};
use crate::raw::{spec_model, EdgeV, RawModel, RawModelV, Run};
use crate::resolve::{find_component, spec_find, spec_find_err, Dir, DirV};
use crate::sim::{spec_extract, ResolvedPopulationV, SimulationGraph, SimulationGraphV};

verus! {

/// A connectivity entry of the bundle, with names in byte form as they are
/// snapshotted.
#[derive(Debug)]
pub struct BundleEdge {
    pub source: Vec<u8>,
    pub target: Vec<u8>,
    pub weight: u64,
}

#[verifier::ext_equal]
pub struct BundleEdgeV {
    pub source: Seq<u8>,
    pub target: Seq<u8>,
    pub weight: u64,
}

impl DeepView for BundleEdge {
    type V = BundleEdgeV;

    open spec fn deep_view(&self) -> BundleEdgeV {
        BundleEdgeV { source: self.source@, target: self.target@, weight: self.weight }
    }
}

/// The serializable snapshot record: morphology file names and decoration
/// file names in population declaration order, plus connectivity and run
/// data.
#[derive(Debug)]
pub struct Bundle {
    pub morphology: Vec<Vec<u8>>,
    pub decoration: Vec<Vec<u8>>,
    pub edges: Vec<BundleEdge>,
    pub run: Run,
}

#[verifier::ext_equal]
pub struct BundleV {
    pub morphology: Seq<Seq<u8>>,
    pub decoration: Seq<Seq<u8>>,
    pub edges: Seq<BundleEdgeV>,
    pub run: Run,
}

impl DeepView for Bundle {
    type V = BundleV;

    open spec fn deep_view(&self) -> BundleV {
        BundleV {
            morphology: self.morphology.deep_view(),
            decoration: self.decoration.deep_view(),
            edges: self.edges.deep_view(),
            run: self.run,
        }
    }
}

/// The byte form a name is snapshotted in.
pub open spec fn name_bytes(s: Seq<char>) -> Seq<u8> {
    encode_utf8(s)
}

/// Assembly is a deterministic transformation of the graph: entry `k` of
/// each list comes from population `k`.
pub open spec fn spec_assemble(g: SimulationGraphV) -> BundleV {
    BundleV {
        morphology: g.populations.map_values(|p: ResolvedPopulationV| name_bytes(p.morphology)),
        decoration: g.populations.map_values(|p: ResolvedPopulationV| name_bytes(p.fit)),
        edges: g.edges.map_values(
            |e: EdgeV| BundleEdgeV {
                source: name_bytes(e.source),
                target: name_bytes(e.target),
                weight: e.weight,
            },
        ),
        run: g.run,
    }
}

fn text_bytes(s: &String) -> (r: Vec<u8>)
    ensures
        r@ == name_bytes(s@),
{
    s.as_str().as_bytes_vec()
}

impl Bundle {
    /// Assembles the bundle of a validated graph: the morphology and
    /// decoration lists hold, in population declaration order, the names
    /// the populations reference, and the connectivity and run data are
    /// carried over unchanged.
    pub fn new(g: &SimulationGraph) -> (b: Bundle)
        ensures
            b.deep_view() == spec_assemble(g.deep_view()),
    {
        let ghost gv = g.deep_view();
        let mut morphology: Vec<Vec<u8>> = Vec::new();
        let mut decoration: Vec<Vec<u8>> = Vec::new();
        let mut k: usize = 0;
        while k < g.populations.len()
            invariant
                gv == g.deep_view(),
                gv.populations.len() == g.populations@.len(),
                0 <= k <= gv.populations.len(),
                morphology.deep_view().len() == k,
                decoration.deep_view().len() == k,
                forall|t: int|
                    0 <= t < k ==> morphology.deep_view()[t] == name_bytes(
                        gv.populations[t].morphology,
                    ),
                forall|t: int|
                    0 <= t < k ==> decoration.deep_view()[t] == name_bytes(gv.populations[t].fit),
            decreases gv.populations.len() - k,
        {
            proof {
                assert(gv.populations[k as int] == g.populations[k as int].deep_view());
            }
            let ghost pm = morphology.deep_view();
            let ghost pd = decoration.deep_view();
            morphology.push(text_bytes(&g.populations[k].morphology));
            decoration.push(text_bytes(&g.populations[k].fit));
            proof {
                assert forall|t: int| 0 <= t < k + 1 implies morphology.deep_view()[t]
                    == name_bytes(gv.populations[t].morphology) by {
                    if t < k {
                        assert(morphology.deep_view()[t] == pm[t]);
                    }
                }
                assert forall|t: int| 0 <= t < k + 1 implies decoration.deep_view()[t]
                    == name_bytes(gv.populations[t].fit) by {
                    if t < k {
                        assert(decoration.deep_view()[t] == pd[t]);
                    }
                }
            }
            k += 1;
        }
        let mut edges: Vec<BundleEdge> = Vec::new();
        let mut k2: usize = 0;
        while k2 < g.edges.len()
            invariant
                gv == g.deep_view(),
                gv.edges.len() == g.edges@.len(),
                0 <= k2 <= gv.edges.len(),
                edges.deep_view().len() == k2,
                forall|t: int|
                    0 <= t < k2 ==> edges.deep_view()[t] == (BundleEdgeV {
                        source: name_bytes(gv.edges[t].source),
                        target: name_bytes(gv.edges[t].target),
                        weight: gv.edges[t].weight,
                    }),
            decreases gv.edges.len() - k2,
        {
            proof {
                assert(gv.edges[k2 as int] == g.edges[k2 as int].deep_view());
            }
            let ghost pe = edges.deep_view();
            let e = BundleEdge {
                source: text_bytes(&g.edges[k2].source),
                target: text_bytes(&g.edges[k2].target),
                weight: g.edges[k2].weight,
            };
            edges.push(e);
            proof {
                assert forall|t: int| 0 <= t < k2 + 1 implies edges.deep_view()[t]
                    == (BundleEdgeV {
                    source: name_bytes(gv.edges[t].source),
                    target: name_bytes(gv.edges[t].target),
                    weight: gv.edges[t].weight,
                }) by {
                    if t < k2 {
                        assert(edges.deep_view()[t] == pe[t]);
                    } else {
                        assert(edges.deep_view()[t] =~= (BundleEdgeV {
                            source: name_bytes(gv.edges[t].source),
                            target: name_bytes(gv.edges[t].target),
                            weight: gv.edges[t].weight,
                        }));
                    }
                }
            }
            k2 += 1;
        }
        let b = Bundle { morphology, decoration, edges, run: g.run };
        proof {
            assert(b.deep_view().morphology =~= spec_assemble(gv).morphology);
            assert(b.deep_view().decoration =~= spec_assemble(gv).decoration);
            assert(b.deep_view().edges =~= spec_assemble(gv).edges);
            assert(b.deep_view() =~= spec_assemble(gv));
        }
        b
    }
}

/// The recognized source dialects of a fit description.
#[derive(Clone, Copy, PartialEq, Eq, Structural, Debug)]
pub enum FitKind {
    /// The native fit format, extension `json`.
    Native,
    /// The NeuroML-derived format, extension `nml`.
    Neuroml,
}

/// The last dot of a name at or before position `j`.
pub open spec fn last_dot_from(s: Seq<char>, j: int) -> Option<int>
    decreases j + 1,
{
    if j < 0 || j >= s.len() {
        None
    } else if s[j] == '.' {
        Some(j)
    } else {
        last_dot_from(s, j - 1)
    }
}

/// The position of the extension separator of a name.
pub open spec fn spec_last_dot(s: Seq<char>) -> Option<int> {
    last_dot_from(s, s.len() - 1)
}

/// The extension of a name, after its last dot.
pub open spec fn spec_ext(s: Seq<char>) -> Option<Seq<char>> {
    match spec_last_dot(s) {
        Some(d) => Some(s.subrange(d + 1, s.len() as int)),
        None => None,
    }
}

/// The dialect a fit reference declares through its extension: `json` and
/// `nml` are the two recognized kinds; any other extension — or a name with
/// no extension at all — is a configuration error naming what was found.
pub open spec fn spec_fit_kind(s: Seq<char>) -> Result<FitKind, ErrorV> {
    match spec_ext(s) {
        Some(e) => if e == "json"@ {
            Ok(FitKind::Native)
        } else if e == "nml"@ {
            Ok(FitKind::Neuroml)
        } else {
            Err(err_v(ErrorKind::Configuration, e))
        },
        None => Err(err_v(ErrorKind::Configuration, Seq::empty())),
    }
}

/// The canonical name a converted decoration entry is rewritten to: the
/// extension replaced by `acc`.
pub open spec fn spec_encoded(s: Seq<char>) -> Seq<char> {
    match spec_last_dot(s) {
        Some(d) => s.subrange(0, d) + ".acc"@,
        None => s + ".acc"@,
    }
}

fn find_last_dot(s: &str, n: usize) -> (r: Option<usize>)
    requires
        n == s@.len(),
    ensures
        match r {
            Some(d) => spec_last_dot(s@) == Some(d as int) && d < n,
            None => spec_last_dot(s@) is None,
        },
{
    let mut j: usize = n;
    loop
        invariant
            n == s@.len(),
            0 <= j <= n,
            spec_last_dot(s@) == last_dot_from(s@, j as int - 1),
        decreases j,
    {
        if j == 0 {
            return None;
        }
        let c = s.get_char(j - 1);
        if c == '.' {
            return Some(j - 1);
        }
        j -= 1;
    }
}

/// Classifies a fit reference by its extension.  A fit with an extension
/// other than the two recognized kinds fails with a configuration error
/// naming the unsupported extension, before anything is converted.
pub fn fit_kind(name: &String) -> (r: Result<FitKind, Error>)
    ensures
        match r {
            Ok(k) => spec_fit_kind(name@) == Ok::<_, ErrorV>(k),
            Err(e) => spec_fit_kind(name@) == Err::<FitKind, _>(e@),
        },
{
    let s = name.as_str();
    let n = s.unicode_len();
    match find_last_dot(s, n) {
        None => Err(Error::configuration(String::new())),
        Some(d) => {
            let ext = s.substring_char(d + 1, n).to_owned();
            if str_eq(ext.as_str(), "json") {
                Ok(FitKind::Native)
            } else if str_eq(ext.as_str(), "nml") {
                Ok(FitKind::Neuroml)
            } else {
                Err(Error::configuration(ext))
            }
        },
    }
}

/// Rewrites a fit reference to its canonical encoded name.
pub fn encoded_name(name: &String) -> (r: String)
    ensures
        r@ == spec_encoded(name@),
{
    let s = name.as_str();
    let n = s.unicode_len();
    match find_last_dot(s, n) {
        None => {
            let mut out = name.clone();
            out.append(".acc");
            out
        },
        Some(d) => {
            let mut out = s.substring_char(0, d).to_owned();
            out.append(".acc");
            out
        },
    }
}

/// One converted decoration: the canonical file name it is written under
/// and its canonical text.
#[derive(Debug)]
pub struct AccFile {
    pub name: String,
    pub text: String,
}

#[verifier::ext_equal]
pub struct AccFileV {
    pub name: Seq<char>,
    pub text: Seq<char>,
}

impl DeepView for AccFile {
    type V = AccFileV;

    open spec fn deep_view(&self) -> AccFileV {
        AccFileV { name: self.name@, text: self.text@ }
    }
}

/// Everything one build invocation produces: the paths the morphology files
/// are copied from, the converted decorations, the final bundle, and its
/// binary snapshot.
#[derive(Debug)]
pub struct Outputs {
    pub morphology_sources: Vec<String>,
    pub acc: Vec<AccFile>,
    pub bundle: Bundle,
    pub snapshot: Vec<u8>,
}

#[verifier::ext_equal]
pub struct OutputsV {
    pub morphology_sources: Seq<Seq<char>>,
    pub acc: Seq<AccFileV>,
    pub bundle: BundleV,
    pub snapshot: Seq<u8>,
}

impl DeepView for Outputs {
    type V = OutputsV;

    open spec fn deep_view(&self) -> OutputsV {
        OutputsV {
            morphology_sources: self.morphology_sources.deep_view(),
            acc: self.acc.deep_view(),
            bundle: self.bundle.deep_view(),
            snapshot: self.snapshot@,
        }
    }
}

/// Conversion of one population's fit: classify its kind by extension,
/// resolve and read its source text, convert it through the dialect's
/// decoder and the shared encoder, and name the result canonically.
pub open spec fn spec_convert_pop(p: ResolvedPopulationV, dirs: Seq<DirV>) -> Result<
    AccFileV,
    ErrorV,
> {
    match spec_fit_kind(p.fit) {
        Err(e) => Err(with_ctx(e, "converting fit"@)),
        Ok(kind) => match spec_find(dirs, p.fit) {
            None => Err(with_ctx(spec_find_err(p.fit, dirs), "resolving fit"@)),
            Some((d, f)) => {
                let txt = dirs[d].files[f].text;
                let conv = if kind == FitKind::Native {
                    spec_fit_acc(txt)
                } else {
                    spec_nml_acc(txt)
                };
                match conv {
                    Err(e) => Err(with_ctx(e, "converting fit"@)),
                    Ok(acc) => Ok(AccFileV { name: spec_encoded(p.fit), text: acc }),
                }
            },
        },
    }
}

/// Conversion of the populations' fits from position `k` on, in order, or
/// the first failure.
pub open spec fn spec_convert_pops(
    ps: Seq<ResolvedPopulationV>,
    dirs: Seq<DirV>,
    k: int,
) -> Result<Seq<AccFileV>, ErrorV>
    decreases ps.len() - k,
{
    if k < 0 || k >= ps.len() {
        Ok(Seq::empty())
    } else {
        match spec_convert_pop(ps[k], dirs) {
            Err(e) => Err(e),
            Ok(a) => match spec_convert_pops(ps, dirs, k + 1) {
                Err(e) => Err(e),
                Ok(rest) => Ok(seq![a] + rest),
            },
        }
    }
}

/// Prepending already-converted entries to the outcome of the rest.
pub open spec fn prepend_accs(done: Seq<AccFileV>, rest: Result<Seq<AccFileV>, ErrorV>) -> Result<
    Seq<AccFileV>,
    ErrorV,
> {
    match rest {
        Ok(rs) => Ok(done + rs),
        Err(e) => Err(e),
    }
}

/// The bundle after the conversion loop: each decoration entry rewritten,
/// exactly once, to its canonical encoded name; everything else untouched.
pub open spec fn spec_final_bundle(g: SimulationGraphV) -> BundleV {
    BundleV {
        decoration: Seq::new(
            g.populations.len(),
            |k: int| name_bytes(spec_encoded(g.populations[k].fit)),
        ),
        ..spec_assemble(g)
    }
}

/// One whole build invocation over a model text and the search-location
/// snapshots: parse, extract, assemble, convert every fit, snapshot.  The
/// outcome is a function of the inputs alone, so two runs on equal inputs
/// produce byte-identical output.
pub open spec fn spec_build(s: Seq<char>, dirs: Seq<DirV>) -> Result<OutputsV, ErrorV> {
    match spec_model(s) {
        Err(e) => Err(with_ctx(e, "parsing simulation"@)),
        Ok(m) => match spec_extract(m, dirs) {
            Err(e) => Err(with_ctx(e, "extracting simulation"@)),
            Ok(g) => match spec_convert_pops(g.populations, dirs, 0) {
                Err(e) => Err(e),
                Ok(accs) => {
                    let b = spec_final_bundle(g);
                    Ok(
                        OutputsV {
                            morphology_sources: g.populations.map_values(
                                |p: ResolvedPopulationV| p.morphology_path,
                            ),
                            acc: accs,
                            bundle: b,
                            snapshot: spec_encode_bundle(b),
                        },
                    )
                },
            },
        },
    }
}

/// Runs one whole build: parses the model text, extracts and validates the
/// graph, assembles the bundle, converts every referenced fit to the
/// canonical encoding (rewriting its decoration entry's name exactly once),
/// and encodes the binary snapshot.  Nothing is produced on failure.
pub fn build(model_text: &str, dirs: &Vec<Dir>) -> (r: Result<Outputs, Error>)
    ensures
        match r {
            Ok(o) => spec_build(model_text@, dirs.deep_view()) == Ok::<_, ErrorV>(o.deep_view()),
            Err(e) => spec_build(model_text@, dirs.deep_view()) == Err::<OutputsV, _>(e@),
        },
{
    let ghost dv = dirs.deep_view();
    let raw = match RawModel::parse(model_text) {
        Ok(m) => m,
        Err(e) => {
            return Err(e.context(String::from_str("parsing simulation")));
        },
    };
    let graph = match SimulationGraph::extract(&raw, dirs) {
        Ok(g) => g,
        Err(e) => {
            return Err(e.context(String::from_str("extracting simulation")));
        },
    };
    let ghost mv = raw.deep_view();
    let ghost gv = graph.deep_view();
    let mut accs: Vec<AccFile> = Vec::new();
    let mut dec: Vec<Vec<u8>> = Vec::new();
    let mut k: usize = 0;
    proof {
        let r0 = spec_convert_pops(gv.populations, dv, 0);
        if r0 is Ok {
            assert(accs.deep_view() + r0->Ok_0 =~= r0->Ok_0);
        }
    }
    while k < graph.populations.len()
        invariant
            dv == dirs.deep_view(),
            mv == raw.deep_view(),
            gv == graph.deep_view(),
            spec_model(model_text@) == Ok::<RawModelV, ErrorV>(mv),
            spec_extract(mv, dv) == Ok::<SimulationGraphV, ErrorV>(gv),
            gv.populations.len() == graph.populations@.len(),
            0 <= k <= gv.populations.len(),
            spec_convert_pops(gv.populations, dv, 0) == prepend_accs(
                accs.deep_view(),
                spec_convert_pops(gv.populations, dv, k as int),
            ),
            dec.deep_view().len() == k,
            forall|t: int|
                0 <= t < k ==> dec.deep_view()[t] == name_bytes(
                    spec_encoded(gv.populations[t].fit),
                ),
        decreases gv.populations.len() - k,
    {
        proof {
            assert(gv.populations[k as int] == graph.populations[k as int].deep_view());
        }
        let p = &graph.populations[k];
        let kind = match fit_kind(&p.fit) {
            Ok(kd) => kd,
            Err(e) => {
                let e = e.context(String::from_str("converting fit"));
                proof {
                    assert(spec_convert_pop(gv.populations[k as int], dv) == Err::<
                        AccFileV,
                        ErrorV,
                    >(e@));
                    assert(spec_build(model_text@, dv) == Err::<OutputsV, ErrorV>(e@));
                }
                return Err(e);
            },
        };
        let (d, f) = match find_component(&p.fit, dirs) {
            Ok(t) => t,
            Err(e) => {
                let e = e.context(String::from_str("resolving fit"));
                proof {
                    assert(spec_convert_pop(gv.populations[k as int], dv) == Err::<
                        AccFileV,
                        ErrorV,
                    >(e@));
                    assert(spec_build(model_text@, dv) == Err::<OutputsV, ErrorV>(e@));
                }
                return Err(e);
            },
        };
        proof {
            assert(dv[d as int] == dirs[d as int].deep_view());
            assert(dv[d as int].files[f as int] == dirs[d as int].files[f as int].deep_view());
        }
        let txt = &dirs[d].files[f].text;
        let converted = match kind {
            FitKind::Native => fit_to_acc(txt.as_str()),
            FitKind::Neuroml => mk_acc(txt.as_str()),
        };
        let acc_text = match converted {
            Ok(a) => a,
            Err(e) => {
                let e = e.context(String::from_str("converting fit"));
                proof {
                    assert(spec_convert_pop(gv.populations[k as int], dv) == Err::<
                        AccFileV,
                        ErrorV,
                    >(e@));
                    assert(spec_build(model_text@, dv) == Err::<OutputsV, ErrorV>(e@));
                }
                return Err(e);
            },
        };
        let name = encoded_name(&p.fit);
        let nb = text_bytes(&name);
        let ghost pdec = dec.deep_view();
        dec.push(nb);
        let af = AccFile { name, text: acc_text };
        let ghost av = af.deep_view();
        let ghost done = accs.deep_view();
        accs.push(af);
        proof {
            assert(spec_convert_pop(gv.populations[k as int], dv) == Ok::<AccFileV, ErrorV>(av));
            let rest = spec_convert_pops(gv.populations, dv, k + 1);
            if rest is Ok {
                assert(accs.deep_view() + rest->Ok_0 =~= done + (seq![av] + rest->Ok_0));
            }
            assert(accs.deep_view() =~= done.push(av));
            assert forall|t: int| 0 <= t < k + 1 implies dec.deep_view()[t] == name_bytes(
                spec_encoded(gv.populations[t].fit),
            ) by {
                if t < k {
                    assert(dec.deep_view()[t] == pdec[t]);
                }
            }
        }
        k += 1;
    }
    proof {
        assert(spec_convert_pops(gv.populations, dv, k as int) == Ok::<Seq<AccFileV>, ErrorV>(
            Seq::empty(),
        ));
        assert(accs.deep_view() + Seq::<AccFileV>::empty() =~= accs.deep_view());
    }
    let mut bundle = Bundle::new(&graph);
    bundle.decoration = dec;
    proof {
        assert(bundle.deep_view().decoration =~= spec_final_bundle(gv).decoration);
        assert(bundle.deep_view() =~= spec_final_bundle(gv));
    }
    let snapshot = encode_bundle(&bundle);
    let mut sources: Vec<String> = Vec::new();
    let mut k2: usize = 0;
    while k2 < graph.populations.len()
        invariant
            gv == graph.deep_view(),
            gv.populations.len() == graph.populations@.len(),
            0 <= k2 <= gv.populations.len(),
            sources.deep_view().len() == k2,
            forall|t: int|
                0 <= t < k2 ==> sources.deep_view()[t] == gv.populations[t].morphology_path,
        decreases gv.populations.len() - k2,
    {
        proof {
            assert(gv.populations[k2 as int] == graph.populations[k2 as int].deep_view());
        }
        let ghost prev = sources.deep_view();
        sources.push(graph.populations[k2].morphology_path.clone());
        proof {
            assert forall|t: int|
                0 <= t < k2 + 1 implies sources.deep_view()[t]
                == gv.populations[t].morphology_path by {
                if t < k2 {
                    assert(sources.deep_view()[t] == prev[t]);
                }
            }
        }
        k2 += 1;
    }
    let o = Outputs { morphology_sources: sources, acc: accs, bundle, snapshot };
    proof {
        assert(o.deep_view().morphology_sources =~= gv.populations.map_values(
            |p: ResolvedPopulationV| p.morphology_path,
        ));
        let sv = spec_build(model_text@, dv);
        assert(sv is Ok);
        assert(o.deep_view() =~= sv->Ok_0);
    }
    Ok(o)
}

/// Determinism: a build is a function of the model text and the
/// search-location snapshots alone — two runs over equal inputs yield equal
/// outputs, byte-identical snapshot included.
pub proof fn lemma_build_deterministic(
    s1: Seq<char>,
    dirs1: Seq<DirV>,
    s2: Seq<char>,
    dirs2: Seq<DirV>,
)
    requires
        s1 == s2,
        dirs1 == dirs2,
    ensures
        spec_build(s1, dirs1) == spec_build(s2, dirs2),
{
}

/// Order preservation: the bundle a successful build produces lists, at
/// every position, exactly the names declared by the population at that
/// position of the validated graph — the morphology names unchanged, the
/// decoration names rewritten to their canonical encoded form — whatever
/// order the individual conversions completed in.
pub proof fn lemma_order_preservation(
    s: Seq<char>,
    dirs: Seq<DirV>,
    g: SimulationGraphV,
    o: OutputsV,
)
    requires
        ({
            match spec_model(s) {
                Ok(m) => spec_extract(m, dirs) == Ok::<SimulationGraphV, ErrorV>(g),
                Err(_) => false,
            }
        }),
        spec_build(s, dirs) == Ok::<OutputsV, ErrorV>(o),
    ensures
        o.bundle.decoration.len() == g.populations.len(),
        forall|k: int|
            0 <= k < g.populations.len() ==> o.bundle.decoration[k] == name_bytes(
                spec_encoded(g.populations[k].fit),
            ),
        o.bundle.morphology.len() == g.populations.len(),
        forall|k: int|
            0 <= k < g.populations.len() ==> o.bundle.morphology[k] == name_bytes(
                g.populations[k].morphology,
            ),
{
}


} // verus!

//! The normalized intermediate form of a biophysical parameter set, and the
//! canonical text encoding (ACC) it is written out in.
//!
//! Both source dialects — the native fit format and the NeuroML-derived
//! format — are decoded into the same [`Fit`] intermediate, validated into a
//! [`Decoration`], and encoded by the one shared encoder [`Decoration::to_acc`].
//! Two semantically equal decorations therefore always produce byte-identical
//! canonical text.

use vstd::prelude::*;

use crate::err::{err_v, Error, ErrorKind, ErrorV};
use crate::lex::str_eq;

verus! {

/// One named parameter value of a mechanism.  The value is kept as its
/// numeric token text; the encoder never reinterprets it.
#[derive(Debug)]
pub struct Param {
    pub name: String,
    pub value: String,
}

#[verifier::ext_equal]
pub struct ParamV {
    pub name: Seq<char>,
    pub value: Seq<char>,
}

impl DeepView for Param {
    type V = ParamV;

    open spec fn deep_view(&self) -> ParamV {
        ParamV { name: self.name@, value: self.value@ }
    }
}

/// An ion-channel mechanism, the morphological region it paints, and its
/// parameter values.
#[derive(Debug)]
pub struct Mechanism {
    pub name: String,
    pub region: String,
    pub parameters: Vec<Param>,
}

#[verifier::ext_equal]
pub struct MechanismV {
    pub name: Seq<char>,
    pub region: Seq<char>,
    pub parameters: Seq<ParamV>,
}

impl DeepView for Mechanism {
    type V = MechanismV;

    open spec fn deep_view(&self) -> MechanismV {
        MechanismV {
            name: self.name@,
            region: self.region@,
            parameters: self.parameters.deep_view(),
        }
    }
}

/// A decoded but not yet validated parameter set, the shared intermediate of
/// the two source dialects.
#[derive(Debug)]
pub struct Fit {
    pub mechanisms: Vec<Mechanism>,
}

impl DeepView for Fit {
    type V = Seq<MechanismV>;

    open spec fn deep_view(&self) -> Seq<MechanismV> {
        self.mechanisms.deep_view()
    }
}

/// A validated parameter set: every mechanism is named and every painted
/// region is one the model defines.
#[derive(Debug)]
pub struct Decoration {
    pub mechanisms: Vec<Mechanism>,
}

impl DeepView for Decoration {
    type V = Seq<MechanismV>;

    open spec fn deep_view(&self) -> Seq<MechanismV> {
        self.mechanisms.deep_view()
    }
}

/// The morphological regions a mechanism may be painted on.
pub open spec fn is_region(r: Seq<char>) -> bool {
    r == "soma"@ || r == "axon"@ || r == "dend"@ || r == "apic"@ || r == "all"@
}

/// What is wrong with a mechanism, if anything: an unnamed mechanism or an
/// unknown target region is a semantic error.
pub open spec fn spec_mech_err(m: MechanismV) -> Option<ErrorV> {
    if m.name.len() == 0 {
        Some(err_v(ErrorKind::Semantic, "mechanism"@))
    } else if !is_region(m.region) {
        Some(err_v(ErrorKind::Semantic, m.region))
    } else {
        None
    }
}

/// The first semantic error among the mechanisms from position `k` on.
pub open spec fn spec_first_err(ms: Seq<MechanismV>, k: int) -> Option<ErrorV>
    decreases ms.len() - k,
{
    if k < 0 || k >= ms.len() {
        None
    } else {
        match spec_mech_err(ms[k]) {
            Some(e) => Some(e),
            None => spec_first_err(ms, k + 1),
        }
    }
}

/// Validation of a decoded fit: the mechanisms unchanged, or the first
/// semantic error among them.
pub open spec fn spec_decor(ms: Seq<MechanismV>) -> Result<Seq<MechanismV>, ErrorV> {
    match spec_first_err(ms, 0) {
        Some(e) => Err(e),
        None => Ok(ms),
    }
}

/// The canonical text of one parameter.
pub open spec fn spec_acc_param(p: ParamV) -> Seq<char> {
    " (\""@ + p.name + "\" "@ + p.value + ")"@
}

/// The canonical text of the first `k` parameters, in order.
pub open spec fn spec_acc_params(ps: Seq<ParamV>, k: int) -> Seq<char>
    decreases k,
{
    if k <= 0 {
        Seq::empty()
    } else {
        spec_acc_params(ps, k - 1) + spec_acc_param(ps[k - 1])
    }
}

/// The canonical text of one mechanism paint.
pub open spec fn spec_acc_mech(m: MechanismV) -> Seq<char> {
    " (paint (region \""@ + m.region + "\") (density (mechanism \""@ + m.name + "\""@
        + spec_acc_params(m.parameters, m.parameters.len() as int) + ")))"@
}

/// The canonical text of the first `k` mechanisms, in order.
pub open spec fn spec_acc_mechs(ms: Seq<MechanismV>, k: int) -> Seq<char>
    decreases k,
{
    if k <= 0 {
        Seq::empty()
    } else {
        spec_acc_mechs(ms, k - 1) + spec_acc_mech(ms[k - 1])
    }
}

/// The canonical text encoding of a whole decoration.  This is the one
/// target encoding both source dialects converge to.
pub open spec fn spec_acc(ms: Seq<MechanismV>) -> Seq<char> {
    "(decor"@ + spec_acc_mechs(ms, ms.len() as int) + ")"@
}

fn region_ok(r: &String) -> (ok: bool)
    ensures
        ok == is_region(r@),
{
    str_eq(r.as_str(), "soma") || str_eq(r.as_str(), "axon") || str_eq(r.as_str(), "dend")
        || str_eq(r.as_str(), "apic") || str_eq(r.as_str(), "all")
}

impl Fit {
    /// Validates the decoded mechanisms into a decoration: fails with the
    /// first semantic error (an unnamed mechanism, or a region the model
    /// does not define), and otherwise keeps the mechanisms exactly as
    /// decoded, in order.
    pub fn decor(self) -> (r: Result<Decoration, Error>)
        ensures
            match r {
                Ok(d) => spec_decor(self.deep_view()) == Ok::<_, ErrorV>(d.deep_view()),
                Err(e) => spec_decor(self.deep_view()) == Err::<Seq<MechanismV>, _>(e@),
            },
    {
        let ghost ms = self.deep_view();
        let mut k: usize = 0;
        while k < self.mechanisms.len()
            invariant
                ms == self.deep_view(),
                0 <= k <= ms.len(),
                spec_first_err(ms, 0) == spec_first_err(ms, k as int),
            decreases ms.len() - k,
        {
            let m = &self.mechanisms[k];
            proof {
                assert(ms[k as int] == m.deep_view());
            }
            if m.name.as_str().is_empty() {
                return Err(Error::semantic(String::from_str("mechanism")));
            }
            if !region_ok(&m.region) {
                return Err(Error::semantic(m.region.clone()));
            }
            k += 1;
        }
        Ok(Decoration { mechanisms: self.mechanisms })
    }
}

impl Decoration {
    /// Encodes the decoration into the canonical text, mechanism by
    /// mechanism in declaration order.
    pub fn to_acc(&self) -> (r: String)
        ensures
            r@ == spec_acc(self.deep_view()),
    {
        let ghost ms = self.deep_view();
        let mut out = String::from_str("(decor");
        let mut k: usize = 0;
        while k < self.mechanisms.len()
            invariant
                ms == self.deep_view(),
                0 <= k <= ms.len(),
                out@ == "(decor"@ + spec_acc_mechs(ms, k as int),
            decreases ms.len() - k,
        {
            let m = &self.mechanisms[k];
            proof {
                assert(ms[k as int] == m.deep_view());
            }
            let mt = acc_mech(m);
            out.append(mt.as_str());
            proof {
                assert(out@ =~= "(decor"@ + spec_acc_mechs(ms, k + 1));
            }
            k += 1;
        }
        out.append(")");
        proof {
            assert(out@ =~= spec_acc(ms));
        }
        out
    }
}

fn acc_params(ps: &Vec<Param>) -> (r: String)
    ensures
        r@ == spec_acc_params(ps.deep_view(), ps.len() as int),
{
    let ghost psv = ps.deep_view();
    let mut out = String::new();
    let mut k: usize = 0;
    proof {
        assert(out@ =~= spec_acc_params(psv, 0));
    }
    while k < ps.len()
        invariant
            psv == ps.deep_view(),
            0 <= k <= psv.len(),
            out@ == spec_acc_params(psv, k as int),
        decreases psv.len() - k,
    {
        proof {
            assert(psv[k as int] == ps[k as int].deep_view());
        }
        out.append(" (\"");
        out.append(ps[k].name.as_str());
        out.append("\" ");
        out.append(ps[k].value.as_str());
        out.append(")");
        proof {
            assert(out@ =~= spec_acc_params(psv, k + 1));
        }
        k += 1;
    }
    out
}

fn acc_mech(m: &Mechanism) -> (r: String)
    ensures
        r@ == spec_acc_mech(m.deep_view()),
{
    let mut out = String::from_str(" (paint (region \"");
    out.append(m.region.as_str());
    out.append("\") (density (mechanism \"");
    out.append(m.name.as_str());
    out.append("\"");
    let ps = acc_params(&m.parameters);
    out.append(ps.as_str());
    out.append(")))");
    proof {
        assert(out@ =~= spec_acc_mech(m.deep_view()));
    }
    out
}

} // verus!

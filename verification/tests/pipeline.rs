use cantata::err::ErrorKind;
use cantata::gen::{build, fit_kind, encoded_name, Bundle, FitKind};
use cantata::decor::Fit;
use cantata::nml;
use cantata::raw::RawModel;
use cantata::resolve::{find_component, join_path, Dir, DirFile};
use cantata::sim::SimulationGraph;

fn dir(path: &str, files: &[(&str, &str)]) -> Dir {
    Dir {
        path: String::from(path),
        files: files
            .iter()
            .map(|(n, t)| DirFile { name: String::from(*n), text: String::from(*t) })
            .collect(),
    }
}

const FIT_A: &str = "{\"mechanisms\":[{\"name\":\"pas\",\"region\":\"soma\",\"parameters\":[{\"name\":\"g\",\"value\":0.001}]}]}";

const NML_A: &str = "<decor><mech name=\"pas\" region=\"soma\"><param name=\"g\" value=\"0.001\"/></mech></decor>";

const ACC_A: &str = "(decor (paint (region \"soma\") (density (mechanism \"pas\" (\"g\" 0.001)))))";

fn model_a() -> String {
    String::from("{\"components\":[\"comps\"],\"populations\":[{\"name\":\"popA\",\"morphology\":\"cellA.swc\",\"fit\":\"paramsA.json\"}],\"edges\":[],\"run\":{\"t_end\":100,\"dt\":25}}")
}

#[test]
fn fit_decodes_and_encodes_canonically() {
    let f = Fit::parse(FIT_A).unwrap();
    assert_eq!(f.mechanisms.len(), 1);
    assert_eq!(f.mechanisms[0].name, "pas");
    assert_eq!(f.mechanisms[0].region, "soma");
    assert_eq!(f.mechanisms[0].parameters[0].name, "g");
    assert_eq!(f.mechanisms[0].parameters[0].value, "0.001");
    let acc = f.decor().unwrap().to_acc();
    assert_eq!(acc, ACC_A);
}

#[test]
fn formats_converge_to_identical_bytes() {
    let from_fit = nml::fit_to_acc(FIT_A).unwrap();
    let from_nml = nml::mk_acc(NML_A).unwrap();
    assert_eq!(from_fit, from_nml);
    assert_eq!(from_fit, ACC_A);
}

#[test]
fn malformed_fit_is_a_structure_error() {
    let e = Fit::parse("{\"mechanisms\":[nonsense]}").unwrap_err();
    assert_eq!(e.kind, ErrorKind::Structure);
    let e2 = Fit::parse("").unwrap_err();
    assert_eq!(e2.kind, ErrorKind::Structure);
}

#[test]
fn unknown_region_is_a_semantic_error() {
    let text = "{\"mechanisms\":[{\"name\":\"pas\",\"region\":\"elsewhere\",\"parameters\":[]}]}";
    let e = Fit::parse(text).unwrap().decor().unwrap_err();
    assert_eq!(e.kind, ErrorKind::Semantic);
    assert_eq!(e.detail, "elsewhere");
}

#[test]
fn unnamed_mechanism_is_a_semantic_error() {
    let text = "{\"mechanisms\":[{\"name\":\"\",\"region\":\"soma\",\"parameters\":[]}]}";
    let e = Fit::parse(text).unwrap().decor().unwrap_err();
    assert_eq!(e.kind, ErrorKind::Semantic);
    assert_eq!(e.detail, "mechanism");
}

#[test]
fn fit_kinds_are_classified_by_extension() {
    assert_eq!(fit_kind(&String::from("a.json")).unwrap(), FitKind::Native);
    assert_eq!(fit_kind(&String::from("b.nml")).unwrap(), FitKind::Neuroml);
    let e = fit_kind(&String::from("cell.swc")).unwrap_err();
    assert_eq!(e.kind, ErrorKind::Configuration);
    assert_eq!(e.detail, "swc");
    let e2 = fit_kind(&String::from("noextension")).unwrap_err();
    assert_eq!(e2.kind, ErrorKind::Configuration);
    assert_eq!(e2.detail, "");
}

#[test]
fn encoded_names_replace_the_extension() {
    assert_eq!(encoded_name(&String::from("paramsA.json")), "paramsA.acc");
    assert_eq!(encoded_name(&String::from("x.y.nml")), "x.y.acc");
}

#[test]
fn resolution_prefers_the_earlier_location() {
    let dirs = vec![
        dir("first", &[("a.txt", "one")]),
        dir("second", &[("a.txt", "two")]),
    ];
    let (d, f) = find_component(&String::from("a.txt"), &dirs).unwrap();
    assert_eq!((d, f), (0, 0));
    assert_eq!(join_path(&dirs[d].path, &dirs[d].files[f].name), "first/a.txt");
}

#[test]
fn resolution_failure_names_the_component_and_search_list() {
    let dirs = vec![dir("first", &[]), dir("second", &[])];
    let e = find_component(&String::from("missing.swc"), &dirs).unwrap_err();
    assert_eq!(e.kind, ErrorKind::NotFound);
    assert_eq!(e.detail, "missing.swc");
    assert_eq!(e.searched, vec![String::from("first"), String::from("second")]);
}

#[test]
fn extraction_fails_on_an_unresolved_fit() {
    let raw = RawModel::parse(&model_a()).unwrap();
    let dirs = vec![dir("comps", &[("cellA.swc", "")])];
    let e = SimulationGraph::extract(&raw, &dirs).unwrap_err();
    assert_eq!(e.kind, ErrorKind::NotFound);
    assert_eq!(e.detail, "paramsA.json");
    assert_eq!(e.chain, vec![String::from("resolving fit")]);
}

#[test]
fn extraction_fails_on_an_undeclared_edge_endpoint() {
    let text = "{\"components\":[\"comps\"],\"populations\":[{\"name\":\"popA\",\"morphology\":\"cellA.swc\",\"fit\":\"paramsA.json\"}],\"edges\":[{\"source\":\"popA\",\"target\":\"ghost\",\"weight\":3}],\"run\":{\"t_end\":100,\"dt\":25}}";
    let raw = RawModel::parse(text).unwrap();
    let dirs = vec![dir("comps", &[("cellA.swc", ""), ("paramsA.json", FIT_A)])];
    let e = SimulationGraph::extract(&raw, &dirs).unwrap_err();
    assert_eq!(e.kind, ErrorKind::Semantic);
    assert_eq!(e.detail, "ghost");
    assert_eq!(e.chain, vec![String::from("validating connectivity")]);
}

#[test]
fn malformed_model_names_the_offending_section() {
    let e = RawModel::parse("{\"components\":[\"comps\"]}").unwrap_err();
    assert_eq!(e.kind, ErrorKind::Structure);
    assert_eq!(e.detail, "populations");
    let e2 = RawModel::parse("nonsense").unwrap_err();
    assert_eq!(e2.detail, "components");
    let e3 = RawModel::parse("{\"components\":[],\"populations\":[],\"edges\":[],\"run\":{\"t_end\":99999999999999999999999,\"dt\":1}}")
    .unwrap_err();
    assert_eq!(e3.detail, "run");
}

#[test]
fn end_to_end_build_produces_the_expected_artifacts() {
    let dirs = vec![dir("comps", &[("cellA.swc", "morph-bytes"), ("paramsA.json", FIT_A)])];
    let out = build(&model_a(), &dirs).unwrap();
    assert_eq!(out.morphology_sources, vec![String::from("comps/cellA.swc")]);
    assert_eq!(out.acc.len(), 1);
    assert_eq!(out.acc[0].name, "paramsA.acc");
    assert_eq!(out.acc[0].text, ACC_A);
    assert_eq!(out.bundle.morphology, vec![b"cellA.swc".to_vec()]);
    assert_eq!(out.bundle.decoration, vec![b"paramsA.acc".to_vec()]);
    assert_eq!(out.bundle.run.t_end, 100);
    assert_eq!(out.bundle.run.dt, 25);
    let decoded = cantata::cbor::decode_bundle(&out.snapshot).unwrap();
    assert_eq!(decoded.morphology, vec![b"cellA.swc".to_vec()]);
    assert_eq!(decoded.decoration, vec![b"paramsA.acc".to_vec()]);
}

#[test]
fn build_is_deterministic_across_runs() {
    let dirs = vec![dir("comps", &[("cellA.swc", "x"), ("paramsA.json", FIT_A)])];
    let a = build(&model_a(), &dirs).unwrap();
    let b = build(&model_a(), &dirs).unwrap();
    assert_eq!(a.snapshot, b.snapshot);
    assert_eq!(a.bundle.morphology, b.bundle.morphology);
    assert_eq!(a.bundle.decoration, b.bundle.decoration);
}

#[test]
fn build_rejects_an_unknown_fit_kind_before_producing_output() {
    let text = "{\"components\":[\"comps\"],\"populations\":[{\"name\":\"popA\",\"morphology\":\"cellA.swc\",\"fit\":\"paramsA.toml\"}],\"edges\":[],\"run\":{\"t_end\":100,\"dt\":25}}";
    let dirs = vec![dir("comps", &[("cellA.swc", ""), ("paramsA.toml", "x")])];
    let e = build(text, &dirs).unwrap_err();
    assert_eq!(e.kind, ErrorKind::Configuration);
    assert_eq!(e.detail, "toml");
}

#[test]
fn build_wraps_errors_with_the_failing_stage() {
    let dirs: Vec<Dir> = Vec::new();
    let e = build("garbage", &dirs).unwrap_err();
    assert_eq!(e.kind, ErrorKind::Structure);
    assert_eq!(e.chain, vec![String::from("parsing simulation")]);
}

#[test]
fn assembled_lists_follow_population_order() {
    let text = "{\"components\":[\"comps\"],\"populations\":[{\"name\":\"p1\",\"morphology\":\"m1.swc\",\"fit\":\"f1.json\"},{\"name\":\"p2\",\"morphology\":\"m2.swc\",\"fit\":\"f2.json\"}],\"edges\":[{\"source\":\"p1\",\"target\":\"p2\",\"weight\":7}],\"run\":{\"t_end\":10,\"dt\":1}}";
    let raw = RawModel::parse(text).unwrap();
    let dirs = vec![dir(
        "comps",
        &[("m1.swc", ""), ("m2.swc", ""), ("f1.json", FIT_A), ("f2.json", FIT_A)],
    )];
    let g = SimulationGraph::extract(&raw, &dirs).unwrap();
    let b = Bundle::new(&g);
    assert_eq!(b.morphology, vec![b"m1.swc".to_vec(), b"m2.swc".to_vec()]);
    assert_eq!(b.decoration, vec![b"f1.json".to_vec(), b"f2.json".to_vec()]);
    assert_eq!(b.edges.len(), 1);
    assert_eq!(b.edges[0].source, b"p1".to_vec());
    assert_eq!(b.edges[0].target, b"p2".to_vec());
    assert_eq!(b.edges[0].weight, 7);
    let out = build(text, &dirs).unwrap();
    assert_eq!(out.bundle.decoration, vec![b"f1.acc".to_vec(), b"f2.acc".to_vec()]);
}

#[test]
fn empty_fit_is_accepted() {
    let acc = Fit::parse("{\"mechanisms\":[]}").unwrap().decor().unwrap().to_acc();
    assert_eq!(acc, "(decor)");
}

#[test]
fn malformed_nml_is_a_structure_error() {
    let e = nml::mk_acc("<decor><mech bad/></decor>").unwrap_err();
    assert_eq!(e.kind, ErrorKind::Structure);
    assert_eq!(e.detail, "decor");
    let e2 = nml::parse_nml("").unwrap_err();
    assert_eq!(e2.kind, ErrorKind::Structure);
}

#[test]
fn build_wraps_a_bad_fit_with_the_conversion_stage() {
    let dirs = vec![dir("comps", &[("cellA.swc", ""), ("paramsA.json", "not a fit")])];
    let e = build(&model_a(), &dirs).unwrap_err();
    assert_eq!(e.kind, ErrorKind::Structure);
    assert_eq!(e.detail, "mechanisms");
    assert_eq!(e.chain, vec![String::from("converting fit")]);
}

#[test]
fn nml_with_several_mechanisms_encodes_in_order() {
    let text = "<decor><mech name=\"pas\" region=\"soma\"></mech><mech name=\"hh\" region=\"axon\"></mech></decor>";
    let acc = nml::mk_acc(text).unwrap();
    assert_eq!(
        acc,
        "(decor (paint (region \"soma\") (density (mechanism \"pas\"))) (paint (region \"axon\") (density (mechanism \"hh\"))))"
    );
}

use rubix_server::seed::portfolio::{equips, sites, sparks, SparkSeveritySpec, ORG};

#[test]
fn portfolio_blueprint_shape() {
    assert_eq!(ORG, "acme");
    let s = sites();
    assert_eq!(s.len(), 4);
    assert_eq!(s[0].display_name, "HQ Tower");
    assert_eq!(s[3].tags, &["site", "cold"]);
    let e = equips();
    assert_eq!(e.len(), 9);
    assert_eq!(e[5].path, "meter-main");
    assert_eq!(e[5].tags, &["elec", "meter", "energy"]);
    let k = sparks();
    assert_eq!(k.len(), 7);
    assert!(matches!(k[0].severity, SparkSeveritySpec::Fault));
    assert_eq!(k[0].points, &["ahu-3-cooling-valve", "ahu-3-heating-valve"]);
    assert!(k[4].acknowledged && k[4].points.is_empty());
}

//! The demo portfolio blueprint: sites, the per-site equipment, and the
//! per-site sparks. Tags are load-bearing: the dashboard derives its load
//! breakdown from `submeter` tags and its KPIs from `meter`/`comfort` tags.

use vstd::prelude::*;

verus! {

/// A site definition. `slug` is a keyexpr path segment.
#[derive(Clone, Copy)]
pub struct SiteSpec {
    pub slug: &'static str,
    pub display_name: &'static str,
    pub tags: &'static [&'static str],
}

/// An equip under a site. `path` is the equip keyexpr segment.
#[derive(Clone, Copy)]
pub struct EquipSpec {
    pub path: &'static str,
    pub display_name: &'static str,
    pub tags: &'static [&'static str],
}

/// The kind of a seeded point.
#[derive(Clone, Copy, PartialEq, Eq, Structural)]
pub enum PointKindSpec {
    Sensor,
    Cmd,
    Sp,
}

/// A per-site spark finding. `points` references point keys `equip-slug`.
#[derive(Clone, Copy)]
pub struct SparkSpec {
    pub rule: &'static str,
    pub severity: SparkSeveritySpec,
    pub message: &'static str,
    pub points: &'static [&'static str],
    pub acknowledged: bool,
}

/// How severe a seeded spark is.
#[derive(Clone, Copy, PartialEq, Eq, Structural)]
pub enum SparkSeveritySpec {
    Info,
    Warning,
    Fault,
}

/// The org the portfolio is seeded under.
pub const ORG: &'static str = "acme";

/// The seeded sites.
pub fn sites() -> (r: Vec<SiteSpec>)
    ensures
        r@.len() == 4,
        r@[0].slug == "hq-tower" && r@[0].display_name == "HQ Tower" && r@[0].tags@ == seq!["site", "commercial"],
        r@[1].slug == "distribution-w" && r@[1].display_name == "Distribution West" && r@[1].tags@ == seq!["site", "warehouse"],
        r@[2].slug == "lab-campus" && r@[2].display_name == "Lab Campus" && r@[2].tags@ == seq!["site", "lab"],
        r@[3].slug == "cold-store-3" && r@[3].display_name == "Cold Store 3" && r@[3].tags@ == seq!["site", "cold"],
{
    let mut r: Vec<SiteSpec> = Vec::new();
    r.push(SiteSpec { slug: "hq-tower", display_name: "HQ Tower", tags: &["site", "commercial"] });
    r.push(SiteSpec { slug: "distribution-w", display_name: "Distribution West", tags: &["site", "warehouse"] });
    r.push(SiteSpec { slug: "lab-campus", display_name: "Lab Campus", tags: &["site", "lab"] });
    r.push(SiteSpec { slug: "cold-store-3", display_name: "Cold Store 3", tags: &["site", "cold"] });
    r
}


/// The equipment seeded under each site.
pub fn equips() -> (r: Vec<EquipSpec>)
    ensures
        r@.len() == 9,
        r@[0].path == "ahu-1" && r@[0].display_name == "AHU-1 · L1 East" && r@[0].tags@ == seq!["ahu", "hvac"],
        r@[1].path == "ahu-3" && r@[1].display_name == "AHU-3 · L4 West" && r@[1].tags@ == seq!["ahu", "hvac"],
        r@[2].path == "chiller-1" && r@[2].display_name == "Chiller-1" && r@[2].tags@ == seq!["chiller", "plant"],
        r@[3].path == "chiller-2" && r@[3].display_name == "Chiller-2" && r@[3].tags@ == seq!["chiller", "plant"],
        r@[4].path == "boiler-1" && r@[4].display_name == "Boiler-1" && r@[4].tags@ == seq!["boiler", "plant"],
        r@[5].path == "meter-main" && r@[5].display_name == "Main Incomer" && r@[5].tags@ == seq!["elec", "meter", "energy"],
        r@[6].path == "vav-4-12" && r@[6].display_name == "VAV 4-12" && r@[6].tags@ == seq!["vav", "hvac"],
        r@[7].path == "vav-4-13" && r@[7].display_name == "VAV 4-13" && r@[7].tags@ == seq!["vav", "hvac"],
        r@[8].path == "ct-1" && r@[8].display_name == "Cooling Tower 1" && r@[8].tags@ == seq!["tower", "plant"],
{
    let mut r: Vec<EquipSpec> = Vec::new();
    r.push(EquipSpec { path: "ahu-1", display_name: "AHU-1 · L1 East", tags: &["ahu", "hvac"] });
    r.push(EquipSpec { path: "ahu-3", display_name: "AHU-3 · L4 West", tags: &["ahu", "hvac"] });
    r.push(EquipSpec { path: "chiller-1", display_name: "Chiller-1", tags: &["chiller", "plant"] });
    r.push(EquipSpec { path: "chiller-2", display_name: "Chiller-2", tags: &["chiller", "plant"] });
    r.push(EquipSpec { path: "boiler-1", display_name: "Boiler-1", tags: &["boiler", "plant"] });
    r.push(EquipSpec { path: "meter-main", display_name: "Main Incomer", tags: &["elec", "meter", "energy"] });
    r.push(EquipSpec { path: "vav-4-12", display_name: "VAV 4-12", tags: &["vav", "hvac"] });
    r.push(EquipSpec { path: "vav-4-13", display_name: "VAV 4-13", tags: &["vav", "hvac"] });
    r.push(EquipSpec { path: "ct-1", display_name: "Cooling Tower 1", tags: &["tower", "plant"] });
    r
}

/// The sparks seeded on each site.
pub fn sparks() -> (r: Vec<SparkSpec>)
    ensures
        r@.len() == 7,
        r@[0].rule == "simultaneous-heat-cool" && r@[0].severity == SparkSeveritySpec::Fault && r@[0].message == "Simultaneous heating and cooling — cooling valve 96% while heating valve 35%" && r@[0].points@ == seq!["ahu-3-cooling-valve", "ahu-3-heating-valve"] && r@[0].acknowledged == false,
        r@[1].rule == "rogue-zone" && r@[1].severity == SparkSeveritySpec::Fault && r@[1].message == "CHW supply temp 9.2°C above setpoint for 14 min — possible fouling" && r@[1].points@ == seq!["chiller-1-chw-supply-temp"] && r@[1].acknowledged == false,
        r@[2].rule == "stuck-damper" && r@[2].severity == SparkSeveritySpec::Warning && r@[2].message == "Damper command changed 40% but airflow flat — possible stuck actuator" && r@[2].points@ == seq!["vav-4-12-damper-pos"] && r@[2].acknowledged == false,
        r@[3].rule == "after-hours-runtime" && r@[3].severity == SparkSeveritySpec::Warning && r@[3].message == "Fan running 3.2h after scheduled off — 41 kWh waste" && r@[3].points@ == seq!["ahu-1-supply-fan-cmd"] && r@[3].acknowledged == false,
        r@[4].rule == "sensor-drift" && r@[4].severity == SparkSeveritySpec::Info && r@[4].message == "Flue temp sensor drift detected vs sibling sensor (1.8°C)" && r@[4].points@.len() == 0 && r@[4].acknowledged == true,
        r@[5].rule == "demand-spike" && r@[5].severity == SparkSeveritySpec::Warning && r@[5].message == "Peak demand approaching 92% of contracted capacity" && r@[5].points@ == seq!["meter-main-kw-total"] && r@[5].acknowledged == false,
        r@[6].rule == "low-delta-t" && r@[6].severity == SparkSeveritySpec::Info && r@[6].message == "Chilled water ΔT 3.1°C — below 5°C design (low-ΔT syndrome)" && r@[6].points@ == seq!["chiller-1-load-pct"] && r@[6].acknowledged == true,
{
    let mut r: Vec<SparkSpec> = Vec::new();
    r.push(SparkSpec {
        rule: "simultaneous-heat-cool",
        severity: SparkSeveritySpec::Fault,
        message: "Simultaneous heating and cooling — cooling valve 96% while heating valve 35%",
        points: &["ahu-3-cooling-valve", "ahu-3-heating-valve"],
        acknowledged: false,
    });
    r.push(SparkSpec {
        rule: "rogue-zone",
        severity: SparkSeveritySpec::Fault,
        message: "CHW supply temp 9.2°C above setpoint for 14 min — possible fouling",
        points: &["chiller-1-chw-supply-temp"],
        acknowledged: false,
    });
    r.push(SparkSpec {
        rule: "stuck-damper",
        severity: SparkSeveritySpec::Warning,
        message: "Damper command changed 40% but airflow flat — possible stuck actuator",
        points: &["vav-4-12-damper-pos"],
        acknowledged: false,
    });
    r.push(SparkSpec {
        rule: "after-hours-runtime",
        severity: SparkSeveritySpec::Warning,
        message: "Fan running 3.2h after scheduled off — 41 kWh waste",
        points: &["ahu-1-supply-fan-cmd"],
        acknowledged: false,
    });
    r.push(SparkSpec {
        rule: "sensor-drift",
        severity: SparkSeveritySpec::Info,
        message: "Flue temp sensor drift detected vs sibling sensor (1.8°C)",
        points: &[],
        acknowledged: true,
    });
    r.push(SparkSpec {
        rule: "demand-spike",
        severity: SparkSeveritySpec::Warning,
        message: "Peak demand approaching 92% of contracted capacity",
        points: &["meter-main-kw-total"],
        acknowledged: false,
    });
    r.push(SparkSpec {
        rule: "low-delta-t",
        severity: SparkSeveritySpec::Info,
        message: "Chilled water ΔT 3.1°C — below 5°C design (low-ΔT syndrome)",
        points: &["chiller-1-load-pct"],
        acknowledged: true,
    });
    r
}

} // verus!

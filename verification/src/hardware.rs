//! Judging the health of a server's hardware from what its management
//! controller reports: storage, the management controller's self tests,
//! power supplies, fans and temperatures.
use vstd::prelude::*;
use crate::error::{BynarError, HardwareError};
use crate::text::{str_eq, concat2, concat3};

verus! {

/// The kind of a storage component.
#[derive(Debug, Clone, Copy, PartialEq, Eq, Structural)]
pub enum StorageHardwareType {
    ArrayController,
    DiskDrive,
    SmartArray,
    StorageEnclosure,
}

/// The name a storage kind is printed with.
pub open spec fn storage_kind_name(t: StorageHardwareType) -> Seq<char> {
    match t {
        StorageHardwareType::ArrayController => "ArrayController"@,
        StorageHardwareType::DiskDrive => "DiskDrive"@,
        StorageHardwareType::SmartArray => "SmartArray"@,
        StorageHardwareType::StorageEnclosure => "StorageEnclosure"@,
    }
}

fn storage_kind_str(t: StorageHardwareType) -> (res: &'static str)
    ensures
        res@ == storage_kind_name(t),
{
    match t {
        StorageHardwareType::ArrayController => "ArrayController",
        StorageHardwareType::DiskDrive => "DiskDrive",
        StorageHardwareType::SmartArray => "SmartArray",
        StorageHardwareType::StorageEnclosure => "StorageEnclosure",
    }
}

/// A storage component as the controller reports it.
#[derive(Debug)]
pub struct StorageHardware {
    pub hardware_type: StorageHardwareType,
    pub health: String,
    pub model: String,
    pub location: String,
    pub location_format: String,
    pub serial_number: String,
}

/// A storage component that is not `OK` has failed: the error names its
/// model, location and serial number.
pub fn evaluate_storage(hardware: &StorageHardware) -> (res: Result<(), BynarError>)
    ensures
        hardware.health@ == "OK"@ ==> res is Ok,
        hardware.health@ != "OK"@ ==> (res matches Err(BynarError::HardwareError(h)) && h.name
            == hardware.model && h.location == Some(hardware.location) && h.location_format == Some(
            hardware.location_format,
        ) && h.serial_number == Some(hardware.serial_number) && h.error@ == storage_kind_name(
            hardware.hardware_type,
        ) + " has failed"@),
{
    if !str_eq(hardware.health.as_str(), "OK") {
        return Err(
            BynarError::HardwareError(
                HardwareError {
                    name: hardware.model.clone(),
                    location: Some(hardware.location.clone()),
                    location_format: Some(hardware.location_format.clone()),
                    error: concat2(storage_kind_str(hardware.hardware_type), " has failed"),
                    serial_number: Some(hardware.serial_number.clone()),
                },
            ),
        );
    }
    Ok(())
}

/// `res` holds, in order, one error for each message of `msgs`.
pub open spec fn errors_are(res: Seq<Result<(), BynarError>>, msgs: Seq<Seq<char>>) -> bool {
    &&& res.len() == msgs.len()
    &&& forall|i: int| 0 <= i < res.len() ==> (#[trigger] res[i] matches Err(BynarError::Error(m)) && m@ == msgs[i])
}

proof fn lemma_errors_push(res: Seq<Result<(), BynarError>>, msgs: Seq<Seq<char>>, m: String)
    requires
        errors_are(res, msgs),
    ensures
        errors_are(res.push(Err(BynarError::Error(m))), msgs.push(m@)),
{
    let r2 = res.push(Err(BynarError::Error(m)));
    assert forall|i: int| 0 <= i < r2.len() implies (#[trigger] r2[i] matches Err(BynarError::Error(x)) && x@ == msgs.push(m@)[i]) by {
        if i < res.len() {
            assert(r2[i] == res[i]);
        }
    }
}

/// A self test result of the management controller.
#[derive(Debug)]
pub struct IloSelfTest {
    pub self_test_name: String,
    pub status: String,
    pub notes: String,
}

/// The errors for the failed self tests: a test failed unless its status is
/// `OK` or `Informational`.
pub open spec fn manager_failures(tests: Seq<IloSelfTest>) -> Seq<Seq<char>>
    decreases tests.len(),
{
    if tests.len() == 0 {
        Seq::empty()
    } else {
        let t = tests.last();
        manager_failures(tests.drop_last()) + (if t.status@ != "OK"@ && t.status@ != "Informational"@ {
            seq!["Hp ilo error detected: "@ + t.notes@]
        } else {
            Seq::empty()
        })
    }
}

/// One error for each failed self test of the management controller.
pub fn evaluate_manager(self_tests: &Vec<IloSelfTest>) -> (res: Vec<Result<(), BynarError>>)
    ensures
        errors_are(res@, manager_failures(self_tests@)),
{
    let mut results: Vec<Result<(), BynarError>> = Vec::new();
    let mut i: usize = 0;
    while i < self_tests.len()
        invariant
            i <= self_tests@.len(),
            errors_are(results@, manager_failures(self_tests@.take(i as int))),
        decreases self_tests@.len() - i,
    {
        let t = &self_tests[i];
        proof {
            assert(self_tests@.take(i + 1).drop_last() =~= self_tests@.take(i as int));
            assert(self_tests@.take(i + 1).last() == *t);
        }
        if !str_eq(t.status.as_str(), "OK") && !str_eq(t.status.as_str(), "Informational") {
            let m = concat2("Hp ilo error detected: ", t.notes.as_str());
            proof {
                lemma_errors_push(results@, manager_failures(self_tests@.take(i as int)), m);
            }
            results.push(Err(BynarError::Error(m)));
        } else {
            assert(manager_failures(self_tests@.take(i + 1)) =~= manager_failures(self_tests@.take(i as int)));
        }
        i = i + 1;
    }
    assert(self_tests@.take(self_tests@.len() as int) =~= self_tests@);
    results
}

/// A power supply.
#[derive(Debug)]
pub struct PowerSupply {
    pub health: String,
    pub serial_number: String,
}

/// The errors for the failed power supplies: those not `OK`.
pub open spec fn power_failures(psus: Seq<PowerSupply>) -> Seq<Seq<char>>
    decreases psus.len(),
{
    if psus.len() == 0 {
        Seq::empty()
    } else {
        let p = psus.last();
        power_failures(psus.drop_last()) + (if p.health@ != "OK"@ {
            seq!["PSU serial # "@ + p.serial_number@ + " has failed"@]
        } else {
            Seq::empty()
        })
    }
}

/// Whether a power supply reports a failure: any health but `OK`.
pub open spec fn psu_failed(p: PowerSupply) -> bool {
    p.health@ != "OK"@
}

/// The error reported for a failed power supply.
pub open spec fn psu_error(p: PowerSupply) -> Seq<char> {
    "PSU serial # "@ + p.serial_number@ + " has failed"@
}

/// The power supplies, in order, that report a failure.
pub open spec fn failed_supplies(psus: Seq<PowerSupply>) -> Seq<PowerSupply> {
    psus.filter(|p: PowerSupply| psu_failed(p))
}

/// Every failed power supply is reported, each with its own error, in
/// order, and nothing else is: the errors are the failed supplies' errors.
pub proof fn lemma_power_errors_one_per_failure(psus: Seq<PowerSupply>)
    ensures
        power_failures(psus) == failed_supplies(psus).map_values(|p: PowerSupply| psu_error(p)),
        power_failures(psus).len() == failed_supplies(psus).len(),
        forall|i: int| 0 <= i < psus.len() && psu_failed(#[trigger] psus[i]) ==> power_failures(psus).contains(
            psu_error(psus[i]),
        ),
    decreases psus.len(),
{
    if psus.len() > 0 {
        let d = psus.drop_last();
        lemma_power_errors_one_per_failure(d);
        let p = psus.last();
        reveal(Seq::filter);
        assert(failed_supplies(psus) == if psu_failed(p) {
            failed_supplies(d).push(p)
        } else {
            failed_supplies(d)
        });
        if psu_failed(p) {
            assert(failed_supplies(d).push(p).map_values(|q: PowerSupply| psu_error(q)) =~= failed_supplies(
                d,
            ).map_values(|q: PowerSupply| psu_error(q)).push(psu_error(p)));
            assert(power_failures(psus) =~= power_failures(d) + seq![psu_error(p)]);
        } else {
            assert(power_failures(psus) =~= power_failures(d));
        }
        assert forall|i: int| 0 <= i < psus.len() && psu_failed(#[trigger] psus[i]) implies power_failures(
            psus,
        ).contains(psu_error(psus[i])) by {
            if i < d.len() {
                assert(d[i] == psus[i]);
                let k = choose|k: int| 0 <= k < power_failures(d).len() && power_failures(d)[k] == psu_error(d[i]);
                assert(power_failures(psus)[k] == power_failures(d)[k]);
            } else {
                assert(power_failures(psus)[power_failures(psus).len() - 1] == psu_error(p));
            }
        }
    }
}

/// One error for each failed power supply.
pub fn evaluate_power(power_supplies: &Vec<PowerSupply>) -> (res: Vec<Result<(), BynarError>>)
    ensures
        errors_are(res@, power_failures(power_supplies@)),
{
    let mut results: Vec<Result<(), BynarError>> = Vec::new();
    let mut i: usize = 0;
    while i < power_supplies.len()
        invariant
            i <= power_supplies@.len(),
            errors_are(results@, power_failures(power_supplies@.take(i as int))),
        decreases power_supplies@.len() - i,
    {
        let p = &power_supplies[i];
        proof {
            assert(power_supplies@.take(i + 1).drop_last() =~= power_supplies@.take(i as int));
            assert(power_supplies@.take(i + 1).last() == *p);
        }
        if !str_eq(p.health.as_str(), "OK") {
            let m = concat3("PSU serial # ", p.serial_number.as_str(), " has failed");
            proof {
                lemma_errors_push(results@, power_failures(power_supplies@.take(i as int)), m);
            }
            results.push(Err(BynarError::Error(m)));
        } else {
            assert(power_failures(power_supplies@.take(i + 1)) =~= power_failures(power_supplies@.take(i as int)));
        }
        i = i + 1;
    }
    assert(power_supplies@.take(power_supplies@.len() as int) =~= power_supplies@);
    results
}

/// A chassis fan; no health reported counts as healthy.
#[derive(Debug)]
pub struct Fan {
    pub fan_name: String,
    pub health: Option<String>,
}

/// A temperature reading; no health reported counts as healthy.
#[derive(Debug)]
pub struct Temperature {
    pub name: String,
    pub physical_context: String,
    pub health: Option<String>,
}

/// Whether a reported health is a failure.
pub open spec fn health_failed(h: Option<String>) -> bool {
    match h {
        Some(s) => s@ != "OK"@,
        None => false,
    }
}

fn health_failed_exec(h: &Option<String>) -> (res: bool)
    ensures
        res == health_failed(*h),
{
    match h {
        Some(s) => !str_eq(s.as_str(), "OK"),
        None => false,
    }
}

/// The errors for the failed fans.
pub open spec fn fan_failures(fans: Seq<Fan>) -> Seq<Seq<char>>
    decreases fans.len(),
{
    if fans.len() == 0 {
        Seq::empty()
    } else {
        let f = fans.last();
        fan_failures(fans.drop_last()) + (if health_failed(f.health) {
            seq!["Chassis fan "@ + f.fan_name@ + " has failed"@]
        } else {
            Seq::empty()
        })
    }
}

/// The errors for the failing temperature readings.
pub open spec fn temperature_failures(temps: Seq<Temperature>) -> Seq<Seq<char>>
    decreases temps.len(),
{
    if temps.len() == 0 {
        Seq::empty()
    } else {
        let t = temps.last();
        temperature_failures(temps.drop_last()) + (if health_failed(t.health) {
            seq!["Temperature reading for "@ + t.name@ + " is failing.  Location: "@ + t.physical_context@]
        } else {
            Seq::empty()
        })
    }
}

/// One error for each failed fan, then one for each failing temperature
/// reading.
pub fn evaluate_thermals(fans: &Vec<Fan>, temperatures: &Vec<Temperature>) -> (res: Vec<Result<(), BynarError>>)
    ensures
        errors_are(res@, fan_failures(fans@) + temperature_failures(temperatures@)),
{
    let mut results: Vec<Result<(), BynarError>> = Vec::new();
    let mut i: usize = 0;
    while i < fans.len()
        invariant
            i <= fans@.len(),
            errors_are(results@, fan_failures(fans@.take(i as int))),
        decreases fans@.len() - i,
    {
        let f = &fans[i];
        proof {
            assert(fans@.take(i + 1).drop_last() =~= fans@.take(i as int));
            assert(fans@.take(i + 1).last() == *f);
        }
        if health_failed_exec(&f.health) {
            let m = concat3("Chassis fan ", f.fan_name.as_str(), " has failed");
            proof {
                lemma_errors_push(results@, fan_failures(fans@.take(i as int)), m);
            }
            results.push(Err(BynarError::Error(m)));
        } else {
            assert(fan_failures(fans@.take(i + 1)) =~= fan_failures(fans@.take(i as int)));
        }
        i = i + 1;
    }
    assert(fans@.take(fans@.len() as int) =~= fans@);
    let ghost fan_msgs = fan_failures(fans@);
    let mut j: usize = 0;
    while j < temperatures.len()
        invariant
            j <= temperatures@.len(),
            fan_msgs == fan_failures(fans@),
            errors_are(results@, fan_msgs + temperature_failures(temperatures@.take(j as int))),
        decreases temperatures@.len() - j,
    {
        let t = &temperatures[j];
        proof {
            assert(temperatures@.take(j + 1).drop_last() =~= temperatures@.take(j as int));
            assert(temperatures@.take(j + 1).last() == *t);
        }
        if health_failed_exec(&t.health) {
            let m = concat3("Temperature reading for ", t.name.as_str(), " is failing.  Location: ");
            let m = m.concat(t.physical_context.as_str());
            proof {
                lemma_errors_push(results@, fan_msgs + temperature_failures(temperatures@.take(j as int)), m);
                assert(fan_msgs + temperature_failures(temperatures@.take(j + 1)) =~= (fan_msgs
                    + temperature_failures(temperatures@.take(j as int))).push(m@));
            }
            results.push(Err(BynarError::Error(m)));
        } else {
            assert(temperature_failures(temperatures@.take(j + 1)) =~= temperature_failures(temperatures@.take(j as int)));
        }
        j = j + 1;
    }
    assert(temperatures@.take(temperatures@.len() as int) =~= temperatures@);
    results
}

/// The health of the server's hardware, one result per component checked.
pub struct HardwareHealthSummary {
    pub array_controllers: Vec<Result<(), BynarError>>,
    pub disk_drives: Vec<Result<(), BynarError>>,
    pub manager: Vec<Result<(), BynarError>>,
    pub power: Vec<Result<(), BynarError>>,
    pub storage_enclosures: Vec<Result<(), BynarError>>,
    pub thermals: Vec<Result<(), BynarError>>,
}


/// What a hardware check result calls for.
pub enum HardwareFinding {
    /// The component is healthy
    Healthy,
    /// A component failed: a ticket may be needed, unless its repair is
    /// already under way
    Failed {
        name: String,
        serial_number: Option<String>,
        /// The ticket description: the error's message
        description: String,
    },
    /// The check itself went wrong: this error is passed on
    CheckError,
}

/// What a hardware check result calls for: a failed component names
/// itself and describes its failure; any other error is passed on.
pub fn hardware_finding(result: &Result<(), BynarError>) -> (res: HardwareFinding)
    ensures
        result is Ok ==> res is Healthy,
        result matches Err(BynarError::HardwareError(h)) ==> (res matches HardwareFinding::Failed { name, serial_number, description }
            && name@ == h.name@ && serial_number == h.serial_number && description@
            == crate::error::hardware_error_text(*h)),
        result matches Err(BynarError::Error(_)) ==> res is CheckError,
{
    match result {
        Ok(()) => HardwareFinding::Healthy,
        Err(BynarError::HardwareError(h)) => HardwareFinding::Failed {
            name: h.name.clone(),
            serial_number: crate::ops::copy_opt_string(&h.serial_number),
            description: h.to_string(),
        },
        Err(_) => HardwareFinding::CheckError,
    }
}

} // verus!

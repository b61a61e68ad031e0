use bynar::error::BynarError;
use bynar::hardware::{
    evaluate_manager, evaluate_power, evaluate_storage, evaluate_thermals, hardware_finding, Fan,
    HardwareFinding, IloSelfTest, PowerSupply, StorageHardware, StorageHardwareType, Temperature,
};

fn hardware(kind: StorageHardwareType, health: &str) -> StorageHardware {
    StorageHardware {
        hardware_type: kind,
        health: health.to_string(),
        model: "".to_string(),
        location: "".to_string(),
        location_format: "".to_string(),
        serial_number: "".to_string(),
    }
}

fn check_storage(kind: StorageHardwareType) {
    assert!(evaluate_storage(&hardware(kind, "OK")).is_ok());
    assert!(!evaluate_storage(&hardware(kind, "Warning")).is_ok());
}

#[test]
fn test_evaluate_storage_arraycontroller() {
    check_storage(StorageHardwareType::ArrayController);
}

#[test]
fn test_evaluate_storage_diskdrive() {
    check_storage(StorageHardwareType::DiskDrive);
}

#[test]
fn test_evaluate_storage_smartarray() {
    check_storage(StorageHardwareType::SmartArray);
}

#[test]
fn test_evaluate_storage_storageenclosure() {
    check_storage(StorageHardwareType::StorageEnclosure);
}

#[test]
fn storage_failure_names_the_component() {
    let mut hw = hardware(StorageHardwareType::DiskDrive, "Critical");
    hw.model = "MB2000".to_string();
    hw.location = "1I:1:1".to_string();
    hw.location_format = "ControllerPort:Box:Bay".to_string();
    hw.serial_number = "SN42".to_string();
    match evaluate_storage(&hw) {
        Err(BynarError::HardwareError(h)) => {
            assert_eq!(h.error, "DiskDrive has failed");
            assert_eq!(h.name, "MB2000");
            assert_eq!(h.serial_number, Some("SN42".to_string()));
            let e = BynarError::HardwareError(h);
            assert_eq!(
                e.to_string(),
                "Error: DiskDrive has failed. MB2000 with serial SN42 at location 1I:1:1  with format ControllerPort:Box:Bay "
            );
        }
        _ => panic!("should fail"),
    }
}

#[test]
fn test_evaluate_manager() {
    let mut tests = vec![IloSelfTest { notes: "".to_string(), self_test_name: "test".to_string(), status: "OK".to_string() }];
    assert!(evaluate_manager(&tests).is_empty(), "Should have returned an empty vector");
    tests[0].status = "Informational".to_string();
    assert!(evaluate_manager(&tests).is_empty(), "Should have returned an empty vector");
    tests[0].status = "Warning".to_string();
    let eval = evaluate_manager(&tests);
    assert!(!eval.is_empty(), "Should return a non-empty vector");
    assert!(eval.len() == 1, "Should return a vector length 1");
    if let Err(err_msg) = &eval[0] {
        assert_eq!(err_msg.to_string(), "Hp ilo error detected: ");
    } else {
        panic!("Failed to get an error message");
    }
}

#[test]
fn test_evaluate_thermals() {
    let mut fans = vec![Fan { fan_name: "test".to_string(), health: None }];
    let mut temps = vec![Temperature { name: "test".to_string(), physical_context: "moop".to_string(), health: None }];
    assert!(evaluate_thermals(&fans, &temps).is_empty(), "Should have returned an empty vector");
    temps[0].health = Some("OK".to_string());
    fans[0].health = Some("OK".to_string());
    assert!(evaluate_thermals(&fans, &temps).is_empty(), "Should have returned an empty vector");
    temps[0].health = Some("NOT OK".to_string());
    let eval = evaluate_thermals(&fans, &temps);
    assert!(!eval.is_empty(), "Should return a non-empty vector");
    assert!(eval.len() == 1, "Should return a vector length 1");
    if let Err(err_msg) = &eval[0] {
        assert_eq!(err_msg.to_string(), "Temperature reading for test is failing.  Location: moop");
    } else {
        panic!("Failed to get an error message");
    }
    temps[0].health = Some("OK".to_string());
    fans[0].health = Some("NT OK".to_string());
    let eval = evaluate_thermals(&fans, &temps);
    assert!(!eval.is_empty(), "Should return a non-empty vector");
    assert!(eval.len() == 1, "Should return a vector length 1");
    if let Err(err_msg) = &eval[0] {
        assert_eq!(err_msg.to_string(), "Chassis fan test has failed");
    } else {
        panic!("Failed to get an error message");
    }
    temps[0].health = Some("N OK".to_string());
    fans[0].health = Some("T OK".to_string());
    let eval = evaluate_thermals(&fans, &temps);
    assert!(!eval.is_empty(), "Should return a non-empty vector");
    assert!(eval.len() == 2, "Should return a vector length 1");
    if let Err(err_msg) = &eval[0] {
        assert_eq!(err_msg.to_string(), "Chassis fan test has failed");
    } else {
        panic!("Failed to get an error message");
    }
    if let Err(err_msg) = &eval[1] {
        assert_eq!(err_msg.to_string(), "Temperature reading for test is failing.  Location: moop");
    } else {
        panic!("Failed to get an error message");
    }
}

#[test]
fn test_evaluate_power() {
    let mut psus = vec![PowerSupply { health: "OK".to_string(), serial_number: "".to_string() }];
    assert!(evaluate_power(&psus).is_empty(), "Should have returned an empty vector");
    psus[0].health = "NOT OK".to_string();
    let eval = evaluate_power(&psus);
    assert!(!eval.is_empty(), "Should return a non-empty vector");
    assert!(eval.len() == 1, "Should return a vector length 1");
    if let Err(err_msg) = &eval[0] {
        assert_eq!(err_msg.to_string(), "PSU serial #  has failed");
    } else {
        panic!("Failed to get an error message");
    }
}

#[test]
fn findings_from_results() {
    assert!(matches!(hardware_finding(&Ok(())), HardwareFinding::Healthy));
    assert!(matches!(hardware_finding(&Err(BynarError::from_str_msg("boom"))), HardwareFinding::CheckError));
    let failed = evaluate_storage(&hardware(StorageHardwareType::SmartArray, "Warning"));
    match hardware_finding(&failed) {
        HardwareFinding::Failed { name, serial_number, description } => {
            assert_eq!(name, "");
            assert_eq!(serial_number, Some("".to_string()));
            assert_eq!(description, "Error: SmartArray has failed.  with serial  at location   with format  ");
        }
        _ => panic!("should be a failure"),
    }
}

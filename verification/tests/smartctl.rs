use procmon::smart::SmartHealth;
use procmon::smartctl::parse_smartctl_reading;

    const SAMPLE_OK: &str = r#"{
  "jsonrpc": { "version": "1.0" },
  "smartctl": { "version": [7, 3] },
  "device": { "name": "/dev/sda", "info_name": "/dev/sda" },
  "model_name": "Samsung SSD 850 EVO 500GB",
  "serial_number": "S2RANX0J123456A",
  "temperature": { "current": 35 },
  "smart_status": { "passed": true },
  "ata_smart_attributes": {
    "table": [
      { "id": 5, "name": "Reallocated_Sector_Ct", "value": 100, "thresh": 10, "raw": { "value": 0 }, "when_failed": "-" },
      { "id": 9, "name": "Power_On_Hours", "value": 99, "thresh": 0, "raw": { "value": 12345 }, "when_failed": "-" },
      { "id": 12, "name": "Power_Cycle_Count", "value": 99, "thresh": 0, "raw": { "value": 567 }, "when_failed": "-" },
      { "id": 194, "name": "Temperature_Celsius", "value": 65, "thresh": 0, "raw": { "value": 35 }, "when_failed": "-" }
    ]
  }
}"#;

    const SAMPLE_FAILING: &str = r#"{
  "device": { "name": "/dev/sdb" },
  "model_name": "WD Blue 1TB",
  "serial_number": "WD-WMC1S1234567",
  "temperature": { "current": 47 },
  "smart_status": { "passed": false },
  "ata_smart_attributes": {
    "table": [
      { "id": 5, "name": "Reallocated_Sector_Ct", "value": 1, "thresh": 5, "raw": { "value": 1234 }, "when_failed": "now" },
      { "id": 197, "name": "Current_Pending_Sector", "value": 100, "thresh": 0, "raw": { "value": 16 }, "when_failed": "now" }
    ]
  }
}"#;

    const SAMPLE_WARNING: &str = r#"{
  "device": { "name": "/dev/sdc" },
  "model_name": "Crucial MX500",
  "serial_number": "1234567890",
  "temperature": { "current": 42 },
  "smart_status": { "passed": true },
  "ata_smart_attributes": {
    "table": [
      { "id": 5, "name": "Reallocated_Sector_Ct", "value": 100, "thresh": 10, "raw": { "value": 0 }, "when_failed": "-" },
      { "id": 197, "name": "Current_Pending_Sector", "value": 100, "thresh": 0, "raw": { "value": 2 }, "when_failed": "past" }
    ]
  }
}"#;

    const SAMPLE_MIXED_PAST_AND_NOW: &str = r#"{
  "device": { "name": "/dev/sdd" },
  "model_name": "Mixed Disk",
  "smart_status": { "passed": true },
  "ata_smart_attributes": {
    "table": [
      { "id": 5, "name": "Reallocated_Sector_Ct", "value": 100, "thresh": 10, "raw": { "value": 0 }, "when_failed": "past" },
      { "id": 197, "name": "Current_Pending_Sector", "value": 100, "thresh": 0, "raw": { "value": 16 }, "when_failed": "now" }
    ]
  }
}"#;

    #[test]
    fn parses_ok_sample_to_ok_health() {
        let data = parse_smartctl_reading(SAMPLE_OK).expect("parse");
        assert_eq!(data.health, SmartHealth::Good);
        assert_eq!(data.model, "Samsung SSD 850 EVO 500GB");
        assert_eq!(data.serial, "S2RANX0J123456A");
        assert!(data.attributes.len() >= 4);
        let reallocated = data
            .attributes
            .iter()
            .find(|a| a.id == 5)
            .expect("attribute 5 should be present");
        assert_eq!(reallocated.name, "Reallocated_Sector_Ct");
        assert_eq!(reallocated.value, 100);
        assert_eq!(reallocated.threshold, 10);
        assert_eq!(reallocated.raw_value, 0);
        assert!(!reallocated.failing);
    }

    #[test]
    fn parses_failing_sample_to_failing_health() {
        let data = parse_smartctl_reading(SAMPLE_FAILING).expect("parse");
        assert_eq!(data.health, SmartHealth::Failing);
        let reallocated = data
            .attributes
            .iter()
            .find(|a| a.id == 5)
            .expect("attribute 5 should be present");
        assert!(reallocated.failing, "when_failed=now gives failing");
        let pending = data
            .attributes
            .iter()
            .find(|a| a.id == 197)
            .expect("attribute 197 should be present");
        assert!(pending.failing);
    }

    #[test]
    fn parses_warning_sample_to_warning_health() {
        let data = parse_smartctl_reading(SAMPLE_WARNING).expect("parse");
        assert_eq!(
            data.health,
            SmartHealth::Warning,
            "when_failed=past + smart_status.passed=true → Warning"
        );
        let pending = data
            .attributes
            .iter()
            .find(|a| a.id == 197)
            .expect("attribute 197 should be present");
        assert!(
            !pending.failing,
            "when_failed=past → attribute.failing=false"
        );
    }

    #[test]
    fn failing_takes_precedence_over_warning() {
        let data = parse_smartctl_reading(SAMPLE_MIXED_PAST_AND_NOW).expect("parse");
        assert_eq!(
            data.health,
            SmartHealth::Failing,
            "混合 past + now 属性时 Failing 应优先于 Warning"
        );
    }

    #[test]
    fn parses_minimal_sample_without_attributes() {
        let minimal = r#"{
            "device": { "name": "/dev/nvme0n1" },
            "model_name": "WD Black SN750",
            "smart_status": { "passed": true }
        }"#;
        let data = parse_smartctl_reading(minimal).expect("parse");
        assert_eq!(data.health, SmartHealth::Good);
        assert!(data.attributes.is_empty());
        }

    #[test]
    fn parses_nvme_compound_temperature() {
        let nvme = r#"{
            "device": { "name": "/dev/nvme0n1" },
            "model_name": "Samsung 970 EVO",
            "smart_status": { "passed": true },
            "nvme_smart_health_information_log": {
                "temperature": 38,
                "available_spare": 100,
                "percentage_used": 5
            }
        }"#;
        let data = parse_smartctl_reading(nvme).expect("parse");
        assert!(
            data.attributes
                .iter()
                .any(|a| a.id == 194 && a.name == "temperature")
        );
        assert!(
            data.attributes
                .iter()
                .any(|a| a.id == 233 && a.name == "percentage_used")
        );
    }

    #[test]
    fn invalid_json_returns_err() {
        assert!(parse_smartctl_reading("not json").is_err());
    }

    #[test]
    fn missing_smart_status_is_unknown() {
        let s = r#"{ "device": { "name": "/dev/sda" }, "model_name": "X" }"#;
        let data = parse_smartctl_reading(s).expect("parse");
        assert_eq!(data.health, SmartHealth::Unknown);
    }


#[test]
fn rows_without_a_byte_id_are_skipped_and_product_names_the_model() {
    let s = r#"{
        "product": "Generic Disk",
        "smart_status": { "passed": true },
        "ata_smart_attributes": { "table": [
            { "name": "no id", "when_failed": "now" },
            { "id": 300, "name": "too big", "when_failed": "now" },
            { "id": 7, "name": "Seek_Error_Rate", "value": 90, "when_failed": "past" }
        ] },
        "nvme_smart_health_information_log": { "media_errors": 3, "unknown_field": 1 }
    }"#;
    let d = parse_smartctl_reading(s).expect("parse");
    assert_eq!(d.model, "Generic Disk");
    assert_eq!(d.device, "");
    assert_eq!(d.serial, "");
    assert_eq!(d.health, SmartHealth::Warning);
    assert_eq!(d.attributes.len(), 2);
    assert_eq!((d.attributes[0].id, d.attributes[0].value, d.attributes[0].threshold, d.attributes[0].raw_value), (7, 90, 0, 0));
    assert_eq!((d.attributes[1].id, d.attributes[1].name.as_str(), d.attributes[1].raw_value), (187, "media_errors", 3));
}

#[test]
fn not_json_is_the_only_error() {
    assert_eq!(parse_smartctl_reading("{ \"a\": ").unwrap_err(), procmon::smartctl::SmartctlError::NotJson);
    assert!(parse_smartctl_reading("[]").is_ok());
    assert_eq!(parse_smartctl_reading("[]").unwrap().health, SmartHealth::Unknown);
}

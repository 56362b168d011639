use dpcs::model::extension::ExtensionMap;
use dpcs::model::failure::{FailureResponse, FailureScope};
use dpcs::model::interface::{InterfacePort, PipelineInterface};
use dpcs::model::quality_gate::GatePlacement;

fn port(id: &str, name: Option<&str>) -> InterfacePort {
    InterfacePort {
        id: id.to_owned(),
        name: name.map(str::to_owned),
        contract_ref: Some("odcs:orders".to_owned()),
        purpose: Some("orders feed".to_owned()),
        extensions: ExtensionMap::empty(),
    }
}

#[test]
fn placements_and_scopes_ignore_case() {
    let before = GatePlacement { kind: "  BeforeStep ".to_owned(), step_id: Some("a".to_owned()) };
    assert!(before.targets_step());
    let pipeline = GatePlacement { kind: "pipelineEnd".to_owned(), step_id: None };
    assert!(!pipeline.targets_step());
    let step = FailureScope { kind: "STEP".to_owned(), step_id: Some("a".to_owned()), path: None };
    assert!(step.is_step());
    let padded = FailureScope { kind: " step".to_owned(), step_id: None, path: None };
    assert!(!padded.is_step());
    assert!(!FailureScope::pipeline().is_step());
    assert!(FailureResponse::Retry.is_retry());
    assert!(!FailureResponse::Skip.is_retry());
}

#[test]
fn interface_ports() {
    assert!(port("orders", Some("Orders")).is_complete());
    assert!(!port("orders", Some("  ")).is_complete());
    assert!(!port(" ", Some("Orders")).is_complete());
    let unique = PipelineInterface {
        inputs: vec![port("a", None)],
        outputs: vec![port("b", None)],
        metadata: None,
        extensions: ExtensionMap::empty(),
    };
    assert!(unique.has_unique_port_ids());
    let clash = PipelineInterface {
        inputs: vec![port("a", None)],
        outputs: vec![port("a", None)],
        metadata: None,
        extensions: ExtensionMap::empty(),
    };
    assert!(!clash.has_unique_port_ids());
}

use crow_core::types::TaskCompleteInfo;

#[test]
fn dual_test_task_complete_info() {
    let info = TaskCompleteInfo {
        summary: "Done".to_string(),
        verification: "Tests pass".to_string(),
    };
    assert_eq!(info.summary, "Done");
    assert_eq!(info.verification, "Tests pass");
}

#[test]
fn primary_dual_test_task_complete_info() {
    let info = TaskCompleteInfo {
        summary: "Done".to_string(),
        verification: "Tests pass".to_string(),
    };
    assert_eq!(info.summary, "Done");
    assert_eq!(info.verification, "Tests pass");
}

use fusarium::QemuExitCode;

#[test]
fn exit_code_values() {
    assert_eq!(QemuExitCode::Success.value(), 0x10);
    assert_eq!(QemuExitCode::Failed.value(), 0x11);
    assert_ne!(QemuExitCode::Success, QemuExitCode::Failed);
}

use perry_codegen::linker::{is_executable_mode, msvc_vswhere_installation_path_args};

#[test]
fn vswhere_args_select_vc_tools_install() {
    assert_eq!(
        msvc_vswhere_installation_path_args(),
        [
            "-products",
            "*",
            "-requires",
            "Microsoft.VisualStudio.Component.VC.Tools.x86.x64",
            "-latest",
            "-property",
            "installationPath",
            "-nologo",
        ]
    );
}

#[test]
fn executable_bits() {
    assert!(is_executable_mode(0o755));
    assert!(is_executable_mode(0o100));
    assert!(is_executable_mode(0o010));
    assert!(is_executable_mode(0o001));
    assert!(!is_executable_mode(0o644));
    assert!(!is_executable_mode(0o100644 & !0o111));
    assert!(!is_executable_mode(0));
}

//! The decisions of the object-file driver that do not touch the file
//! system or spawn processes: the `vswhere` query that locates a Visual
//! Studio installation, and the permission test for executables.

use vstd::prelude::*;

verus! {

/// Arguments for `vswhere.exe` that print the installation path of the
/// latest Visual Studio that has the x86/x64 C++ tools (without that
/// filter `-latest` can select Management Studio).
pub fn msvc_vswhere_installation_path_args() -> (a: [&'static str; 8])
    ensures
        a@.len() == 8,
        a@[0]@ == "-products"@,
        a@[1]@ == "*"@,
        a@[2]@ == "-requires"@,
        a@[3]@ == "Microsoft.VisualStudio.Component.VC.Tools.x86.x64"@,
        a@[4]@ == "-latest"@,
        a@[5]@ == "-property"@,
        a@[6]@ == "installationPath"@,
        a@[7]@ == "-nologo"@,
{
    [
        "-products",
        "*",
        "-requires",
        "Microsoft.VisualStudio.Component.VC.Tools.x86.x64",
        "-latest",
        "-property",
        "installationPath",
        "-nologo",
    ]
}

/// Whether a Unix permission mode lets anyone execute the file (any of
/// the owner, group and other execute bits, `0o111`, is set).
pub fn is_executable_mode(mode: u32) -> (b: bool)
    ensures
        b == (mode & 0o111 != 0),
{
    mode & 0o111 != 0
}

} // verus!

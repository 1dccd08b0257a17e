//! The operating system and the hardware that the program runs on.

use crate::outside::from_chars;
use crate::text::{str_eq, to_chars, trim, trim_spec};
use vstd::prelude::*;

verus! {

/// Kind of operating system.
#[derive(Debug, Clone, Copy, PartialEq, Eq, Structural)]
pub enum OsType {
    Windows,
    Linux,
    MacOS,
    Unknown,
}

/// Kind of processor.
#[derive(Debug, Clone, Copy, PartialEq, Eq, Structural)]
pub enum ArchType {
    X86_64,
    X86,
    Aarch64,
    Arm,
    Unknown,
}

/// What is known of the machine.
#[derive(Debug, Clone)]
pub struct EnvInfo {
    pub os: OsType,
    pub arch: ArchType,
    pub os_version: String,
    pub is_64bit: bool,
}

/// The kind of system that the target name `target_os` stands for.
pub open spec fn os_of(target_os: Seq<char>) -> OsType {
    if target_os == "windows"@ {
        OsType::Windows
    } else if target_os == "linux"@ {
        OsType::Linux
    } else if target_os == "macos"@ {
        OsType::MacOS
    } else {
        OsType::Unknown
    }
}

/// The kind of processor that the target name `target_arch` stands for.
pub open spec fn arch_of(target_arch: Seq<char>) -> ArchType {
    if target_arch == "x86_64"@ {
        ArchType::X86_64
    } else if target_arch == "x86"@ {
        ArchType::X86
    } else if target_arch == "aarch64"@ {
        ArchType::Aarch64
    } else if target_arch == "arm"@ {
        ArchType::Arm
    } else {
        ArchType::Unknown
    }
}

/// The name under which a kind of system is shown.
pub open spec fn os_label(os: OsType) -> Seq<char> {
    match os {
        OsType::Windows => "Windows"@,
        OsType::Linux => "Linux"@,
        OsType::MacOS => "macOS"@,
        OsType::Unknown => "Unknown"@,
    }
}

/// The name under which a kind of processor is shown.
pub open spec fn arch_label(arch: ArchType) -> Seq<char> {
    match arch {
        ArchType::X86_64 => "x86_64"@,
        ArchType::X86 => "x86"@,
        ArchType::Aarch64 => "aarch64"@,
        ArchType::Arm => "arm"@,
        ArchType::Unknown => "unknown"@,
    }
}

/// A processor of this kind has 64-bit addresses.
pub open spec fn is_64bit_arch(arch: ArchType) -> bool {
    arch == ArchType::X86_64 || arch == ArchType::Aarch64
}

/// The kind of operating system, from the name of the target system
/// (`windows`, `linux`, `macos`; anything else is unknown).
pub fn detect_os(target_os: &str) -> (os: OsType)
    ensures
        os == os_of(target_os@),
{
    if str_eq(target_os, "windows") {
        OsType::Windows
    } else if str_eq(target_os, "linux") {
        OsType::Linux
    } else if str_eq(target_os, "macos") {
        OsType::MacOS
    } else {
        OsType::Unknown
    }
}

/// The kind of processor, from the name of the target architecture
/// (`x86_64`, `x86`, `aarch64`, `arm`; anything else is unknown).
pub fn detect_arch(target_arch: &str) -> (arch: ArchType)
    ensures
        arch == arch_of(target_arch@),
{
    if str_eq(target_arch, "x86_64") {
        ArchType::X86_64
    } else if str_eq(target_arch, "x86") {
        ArchType::X86
    } else if str_eq(target_arch, "aarch64") {
        ArchType::Aarch64
    } else if str_eq(target_arch, "arm") {
        ArchType::Arm
    } else {
        ArchType::Unknown
    }
}

/// The version of the system as text: what the system's own tool printed,
/// without the white space around it; where the tool could not be run,
/// the name of the system.
pub fn get_os_version(os: OsType, tool_output: Option<&str>) -> (version: String)
    ensures
        version@ == (match tool_output {
            Some(out) => trim_spec(out@),
            None => os_label(os),
        }),
{
    match tool_output {
        Some(out) => {
            let chars = to_chars(out);
            let trimmed = trim(&chars);
            from_chars(&trimmed)
        },
        None => {
            match os {
                OsType::Windows => "Windows".to_owned(),
                OsType::Linux => "Linux".to_owned(),
                OsType::MacOS => "macOS".to_owned(),
                OsType::Unknown => "Unknown".to_owned(),
            }
        },
    }
}

impl EnvInfo {
    /// What is known of the machine, from the names of the target system
    /// and architecture and the version of the system.
    pub fn new(target_os: &str, target_arch: &str, os_version: String) -> (env: Self)
        ensures
            env.os == os_of(target_os@),
            env.arch == arch_of(target_arch@),
            env.os_version == os_version,
            env.is_64bit == is_64bit_arch(arch_of(target_arch@)),
    {
        let os = detect_os(target_os);
        let arch = detect_arch(target_arch);
        let is_64bit = arch == ArchType::X86_64 || arch == ArchType::Aarch64;
        EnvInfo { os, arch, os_version, is_64bit }
    }

    /// The name of the operating system.
    pub fn os_name(&self) -> (name: &'static str)
        ensures
            name@ == os_label(self.os),
    {
        match self.os {
            OsType::Windows => "Windows",
            OsType::Linux => "Linux",
            OsType::MacOS => "macOS",
            OsType::Unknown => "Unknown",
        }
    }

    /// The name of the architecture.
    pub fn arch_name(&self) -> (name: &'static str)
        ensures
            name@ == arch_label(self.arch),
    {
        match self.arch {
            ArchType::X86_64 => "x86_64",
            ArchType::X86 => "x86",
            ArchType::Aarch64 => "aarch64",
            ArchType::Arm => "arm",
            ArchType::Unknown => "unknown",
        }
    }
}

} // verus!

//! Installing the shim on the remote host: the embedded binaries, where the
//! shim lives, how the remote platform is named, and whether an installed
//! shim is the expected version.
use vstd::prelude::*;

use crate::ext::{b64_decode, base64_decode};
use crate::text::{chars_eq, chars_eq_str, chars_of, push_str, split_char, split_on, string_of,
    trim, trim_ws};

verus! {

/// The base64 shim binary for Linux on x86_64 (empty when not built in).
pub const SHIM_LINUX_X86_64: &'static str = "";

/// The base64 shim binary for Linux on aarch64 (empty when not built in).
pub const SHIM_LINUX_AARCH64: &'static str = "";

/// The base64 shim binary for macOS on x86_64 (empty when not built in).
pub const SHIM_MACOS_X86_64: &'static str = "";

/// The base64 shim binary for macOS on aarch64 (empty when not built in).
pub const SHIM_MACOS_AARCH64: &'static str = "";

/// The embedded base64 binary for an `uname` platform pair, if the pair is
/// one the shim is built for.
pub open spec fn embedded(os: Seq<char>, arch: Seq<char>) -> Option<Seq<char>> {
    if os == "Linux"@ && arch == "x86_64"@ {
        Some(SHIM_LINUX_X86_64@)
    } else if os == "Linux"@ && arch == "aarch64"@ {
        Some(SHIM_LINUX_AARCH64@)
    } else if os == "Darwin"@ && arch == "x86_64"@ {
        Some(SHIM_MACOS_X86_64@)
    } else if os == "Darwin"@ && arch == "aarch64"@ {
        Some(SHIM_MACOS_AARCH64@)
    } else {
        None
    }
}

/// Whether any shim binary is built in.
pub open spec fn any_embedded() -> bool {
    !(SHIM_LINUX_X86_64@.len() == 0 && SHIM_LINUX_AARCH64@.len() == 0 && SHIM_MACOS_X86_64@.len()
        == 0 && SHIM_MACOS_AARCH64@.len() == 0)
}

/// The shim binary for a platform: the embedded text decoded, when there is
/// a non-empty one and it decodes.
pub open spec fn shim_binary(os: Seq<char>, arch: Seq<char>) -> Option<Seq<u8>> {
    match embedded(os, arch) {
        None => None,
        Some(t) => if t.len() == 0 {
            None
        } else {
            match b64_decode(t) {
                Ok(b) => Some(b),
                Err(_) => None,
            }
        },
    }
}

/// Whether any shim binary is built in.
pub fn has_embedded_shim() -> (r: bool)
    ensures
        r == any_embedded(),
{
    let a = chars_of(SHIM_LINUX_X86_64);
    let b = chars_of(SHIM_LINUX_AARCH64);
    let c = chars_of(SHIM_MACOS_X86_64);
    let d = chars_of(SHIM_MACOS_AARCH64);
    !(a.len() == 0 && b.len() == 0 && c.len() == 0 && d.len() == 0)
}

/// The shim binary for a platform: `None` when there is no embedded binary
/// for it or it does not decode.
pub fn get_shim_binary(os: &str, arch: &str) -> (r: Option<Vec<u8>>)
    ensures
        match shim_binary(os@, arch@) {
            None => r is None,
            Some(b) => r matches Some(v) && v@ == b,
        },
{
    let o = chars_of(os);
    let a = chars_of(arch);
    let b64 = if chars_eq_str(&o, "Linux") && chars_eq_str(&a, "x86_64") {
        SHIM_LINUX_X86_64
    } else if chars_eq_str(&o, "Linux") && chars_eq_str(&a, "aarch64") {
        SHIM_LINUX_AARCH64
    } else if chars_eq_str(&o, "Darwin") && chars_eq_str(&a, "x86_64") {
        SHIM_MACOS_X86_64
    } else if chars_eq_str(&o, "Darwin") && chars_eq_str(&a, "aarch64") {
        SHIM_MACOS_AARCH64
    } else {
        return None;
    };
    let t = chars_of(b64);
    if t.len() == 0 {
        return None;
    }
    match base64_decode(b64) {
        Ok(v) => Some(v),
        Err(_) => None,
    }
}

/// The directory of the shim under the remote home.
pub fn shim_dir(home: &str) -> (r: String)
    ensures
        r@ == home@ + "/.rcargo"@,
{
    let mut v = chars_of(home);
    push_str(&mut v, "/.rcargo");
    string_of(&v)
}

/// The path of the shim under the remote home.
pub fn shim_path(home: &str) -> (r: String)
    ensures
        r@ == home@ + "/.rcargo"@ + "/shim"@,
{
    let mut v = chars_of(home);
    push_str(&mut v, "/.rcargo");
    push_str(&mut v, "/shim");
    string_of(&v)
}

/// The operating system and architecture names of the remote host, from the
/// two lines that `uname -s && uname -m` printed (trimmed; `arm64` is named
/// `aarch64`).
pub open spec fn platform_spec(out: Seq<char>) -> (Seq<char>, Seq<char>) {
    let parts = split_char(out, '\n');
    let os = trim(parts[0]);
    let arch = if parts.len() > 1 {
        trim(parts[1])
    } else {
        Seq::empty()
    };
    (os, if arch == "arm64"@ {
        "aarch64"@
    } else {
        arch
    })
}

/// Reads the remote platform from the output of `uname -s && uname -m`.
pub fn platform_of(out: &str) -> (r: (String, String))
    ensures
        r.0@ == platform_spec(out@).0,
        r.1@ == platform_spec(out@).1,
{
    let cs = chars_of(out);
    let parts = split_on(&cs, '\n');
    let ghost v = parts@.map_values(|t: Vec<char>| t@);
    assert(v.len() == parts.len());
    assert(v.len() >= 1);
    assert(v[0] == parts@[0]@);
    let os = trim_ws(&parts[0]);
    let arch = if parts.len() > 1 {
        assert(v[1] == parts@[1]@);
        trim_ws(&parts[1])
    } else {
        Vec::new()
    };
    let arch = if chars_eq_str(&arch, "arm64") {
        chars_of("aarch64")
    } else {
        arch
    };
    (string_of(&os), string_of(&arch))
}

/// Whether what `shim --version` printed is the expected version.
pub fn shim_is_current(output: &str, version: &str) -> (r: bool)
    ensures
        r == (trim(output@) == "rcargo-shim "@ + version@),
{
    let cs = chars_of(output);
    let t = trim_ws(&cs);
    let mut want = chars_of("rcargo-shim ");
    push_str(&mut want, version);
    chars_eq(&t, &want)
}

/// The remote command that prints the version of an installed, executable
/// shim.
pub fn shim_check_cmd(shim_path: &str) -> (r: String)
    ensures
        r@ == "test -x "@ + shim_path@ + " && "@ + shim_path@ + " --version"@,
{
    let mut v = chars_of("test -x ");
    push_str(&mut v, shim_path);
    push_str(&mut v, " && ");
    push_str(&mut v, shim_path);
    push_str(&mut v, " --version");
    string_of(&v)
}

/// `<shim> <flag>`: the remote command that runs the shim with one flag.
pub fn shim_invocation(shim_path: &str, flag: &str) -> (r: String)
    ensures
        r@ == shim_path@ + " "@ + flag@,
{
    let mut v = chars_of(shim_path);
    push_str(&mut v, " ");
    push_str(&mut v, flag);
    string_of(&v)
}

/// The error when no binary is built in for the remote platform.
pub fn no_binary_error(os: &str, arch: &str) -> (r: String)
    ensures
        r@ == "no embedded shim for "@ + os@ + "/"@ + arch@,
{
    let mut v = chars_of("no embedded shim for ");
    push_str(&mut v, os);
    push_str(&mut v, "/");
    push_str(&mut v, arch);
    string_of(&v)
}

// ---------------------------------------------------------------------------
// The installation, step by step
// ---------------------------------------------------------------------------

/// Where the installation of the shim stands.
#[derive(Debug, Clone, Copy, PartialEq, Eq, Structural)]
pub enum BootPhase {
    /// Nothing done yet.
    Start,
    /// Waiting for the remote home directory.
    Home,
    /// Waiting for the remote platform.
    Platform,
    /// Waiting for the version of the installed shim.
    Installed,
    /// Waiting for the upload of the binary.
    Uploading,
    /// Waiting for the version of the uploaded shim.
    Verifying,
    /// The shim is in place and current.
    Ready,
    /// Stopped on an error.
    Failed,
}

/// What the caller hands to the installation.
#[derive(Debug)]
pub enum BootEvent {
    /// Start the installation.
    Begin,
    /// What the command of a `Capture` printed.
    Output(String),
    /// What the version check printed, or `None` when it failed (no shim,
    /// or not executable).
    Checked(Option<String>),
    /// The binary is in place and executable.
    Uploaded,
}

/// What the caller does next.
#[derive(Debug)]
pub enum BootAction {
    /// Run this command on the remote host and hand back what it printed;
    /// a failure of the command ends the installation.
    Capture(String),
    /// Run this version check and hand back what it printed, or `None` when
    /// it fails.
    Check(String),
    /// Create `dir`, copy `binary` to `path` and make it executable, then
    /// hand back `Uploaded`.
    Upload { dir: String, path: String, binary: Vec<u8> },
    /// The shim at this path is current.
    Ready(String),
    /// The installation failed.
    Fail(String),
}

/// The state of the installation.
pub struct Bootstrap {
    pub phase: BootPhase,
    /// The version the shim must report.
    pub version: String,
    /// The remote home directory, once known.
    pub home: String,
    /// The remote operating system and architecture, once known.
    pub os: String,
    pub arch: String,
}

/// What a current shim prints for `--version`.
pub open spec fn current_version(out: Seq<char>, version: Seq<char>) -> bool {
    trim(out) == "rcargo-shim "@ + version
}

/// The shim path under a home directory.
pub open spec fn shim_path_of(home: Seq<char>) -> Seq<char> {
    home + "/.rcargo"@ + "/shim"@
}

/// `new` has the version, home and platform of `old`.
pub open spec fn boot_keeps(old: Bootstrap, new: Bootstrap) -> bool {
    &&& new.version@ == old.version@
    &&& new.home@ == old.home@
    &&& new.os@ == old.os@
    &&& new.arch@ == old.arch@
}

/// The installation stops with this message.
pub open spec fn boot_fails(new: Bootstrap, a: BootAction, msg: Seq<char>) -> bool {
    new.phase == BootPhase::Failed && (a matches BootAction::Fail(t) && t@ == msg)
}

/// One step of the installation: without an embedded binary it fails at
/// once; it learns the home and the platform, keeps an installed shim that
/// reports the expected version, else uploads the binary for the platform
/// (failing when there is none) and checks the version it then reports.
pub open spec fn boot_step(old: Bootstrap, e: BootEvent, new: Bootstrap, a: BootAction) -> bool {
    let path = shim_path_of(old.home@);
    match (old.phase, e) {
        (BootPhase::Start, BootEvent::Begin) => boot_keeps(old, new) && if any_embedded() {
            new.phase == BootPhase::Home && (a matches BootAction::Capture(c) && c@
                == "echo $HOME"@)
        } else {
            boot_fails(
                new,
                a,
                "no embedded shim binaries; rebuild with cross-compiled shim binaries"@,
            )
        },
        (BootPhase::Home, BootEvent::Output(h)) => new.version@ == old.version@ && new.home@ == h@
            && new.os@ == old.os@ && new.arch@ == old.arch@ && new.phase == BootPhase::Platform
            && (a matches BootAction::Capture(c) && c@ == "uname -s && uname -m"@),
        (BootPhase::Platform, BootEvent::Output(out)) => new.version@ == old.version@ && new.home@
            == old.home@ && new.os@ == platform_spec(out@).0 && new.arch@ == platform_spec(out@).1
            && new.phase == BootPhase::Installed && (a matches BootAction::Check(c) && c@
            == "test -x "@ + path + " && "@ + path + " --version"@),
        (BootPhase::Installed, BootEvent::Checked(v)) => boot_keeps(old, new) && if v is Some
            && current_version(v->0@, old.version@) {
            new.phase == BootPhase::Ready && (a matches BootAction::Ready(p) && p@ == path)
        } else {
            match shim_binary(old.os@, old.arch@) {
                None => boot_fails(new, a, "no embedded shim for "@ + old.os@ + "/"@ + old.arch@),
                Some(b) => new.phase == BootPhase::Uploading && (a matches BootAction::Upload {
                    dir,
                    path: p,
                    binary,
                } && dir@ == old.home@ + "/.rcargo"@ && p@ == path && binary@ == b),
            }
        },
        (BootPhase::Uploading, BootEvent::Uploaded) => boot_keeps(old, new) && new.phase
            == BootPhase::Verifying && (a matches BootAction::Capture(c) && c@ == path
            + " "@ + "--version"@),
        (BootPhase::Verifying, BootEvent::Output(out)) => boot_keeps(old, new) && if current_version(
            out@,
            old.version@,
        ) {
            new.phase == BootPhase::Ready && (a matches BootAction::Ready(p) && p@ == path)
        } else {
            boot_fails(new, a, "shim bootstrap verification failed"@)
        },
        _ => boot_keeps(old, new) && boot_fails(new, a, "bootstrap event out of order"@),
    }
}

impl Bootstrap {
    /// An installation that expects the shim to report `version`.
    pub fn new(version: &str) -> (b: Bootstrap)
        ensures
            b.phase == BootPhase::Start,
            b.version@ == version@,
            b.home@.len() == 0,
            b.os@.len() == 0,
            b.arch@.len() == 0,
    {
        Bootstrap {
            phase: BootPhase::Start,
            version: string_of(&chars_of(version)),
            home: String::new(),
            os: String::new(),
            arch: String::new(),
        }
    }

    fn fail(&mut self, msg: &str) -> (a: BootAction)
        ensures
            boot_keeps(*old(self), *final(self)),
            boot_fails(*final(self), a, msg@),
    {
        self.phase = BootPhase::Failed;
        BootAction::Fail(string_of(&chars_of(msg)))
    }

    /// Takes in what came of the last action and says what to do next.
    pub fn next(&mut self, e: BootEvent) -> (a: BootAction)
        ensures
            boot_step(*old(self), e, *final(self), a),
    {
        match (self.phase, e) {
            (BootPhase::Start, BootEvent::Begin) => {
                if has_embedded_shim() {
                    self.phase = BootPhase::Home;
                    BootAction::Capture(string_of(&chars_of("echo $HOME")))
                } else {
                    self.fail("no embedded shim binaries; rebuild with cross-compiled shim binaries")
                }
            },
            (BootPhase::Home, BootEvent::Output(h)) => {
                self.home = h;
                self.phase = BootPhase::Platform;
                BootAction::Capture(string_of(&chars_of("uname -s && uname -m")))
            },
            (BootPhase::Platform, BootEvent::Output(out)) => {
                let (os, arch) = platform_of(out.as_str());
                self.os = os;
                self.arch = arch;
                self.phase = BootPhase::Installed;
                let path = shim_path(self.home.as_str());
                BootAction::Check(shim_check_cmd(path.as_str()))
            },
            (BootPhase::Installed, BootEvent::Checked(v)) => {
                let path = shim_path(self.home.as_str());
                let current = match &v {
                    Some(t) => shim_is_current(t.as_str(), self.version.as_str()),
                    None => false,
                };
                if current {
                    self.phase = BootPhase::Ready;
                    return BootAction::Ready(path);
                }
                match get_shim_binary(self.os.as_str(), self.arch.as_str()) {
                    None => {
                        let e = no_binary_error(self.os.as_str(), self.arch.as_str());
                        self.phase = BootPhase::Failed;
                        BootAction::Fail(e)
                    },
                    Some(binary) => {
                        self.phase = BootPhase::Uploading;
                        BootAction::Upload { dir: shim_dir(self.home.as_str()), path, binary }
                    },
                }
            },
            (BootPhase::Uploading, BootEvent::Uploaded) => {
                self.phase = BootPhase::Verifying;
                let path = shim_path(self.home.as_str());
                BootAction::Capture(shim_invocation(path.as_str(), "--version"))
            },
            (BootPhase::Verifying, BootEvent::Output(out)) => {
                if shim_is_current(out.as_str(), self.version.as_str()) {
                    self.phase = BootPhase::Ready;
                    BootAction::Ready(shim_path(self.home.as_str()))
                } else {
                    self.fail("shim bootstrap verification failed")
                }
            },
            _ => self.fail("bootstrap event out of order"),
        }
    }
}

} // verus!

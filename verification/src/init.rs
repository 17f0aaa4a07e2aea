//! Identity-aware bootstrap: the startup banner, the pseudo-filesystem
//! mount plan, and the sequencer that branches on whether the daemon runs
//! as the operating system's first process.
//!
//! The process identity is read once by the driver and handed in as a plain
//! value, so the branch is decided — and verified — here, while the driver
//! performs the mounts, wires the log sinks, and starts the listeners.

use vstd::prelude::*;

verus! {

/// The startup banner.
pub const BANNER: &'static str = "
    +--------------------------------------------+
    |   █████╗ ██╗   ██╗██████╗  █████╗ ███████╗ |
    |  ██╔══██╗██║   ██║██╔══██╗██╔══██╗██╔════╝ |
    |  ███████║██║   ██║██████╔╝███████║█████╗   |
    |  ██╔══██║██║   ██║██╔══██╗██╔══██║██╔══╝   |
    |  ██║  ██║╚██████╔╝██║  ██║██║  ██║███████╗ |
    |  ╚═╝  ╚═╝ ╚═════╝ ╚═╝  ╚═╝╚═╝  ╚═╝╚══════╝ |
    +--------------------------------------------+\n";

/// The startup banner, as an owned string.
pub fn banner() -> (s: String)
    ensures
        s@ == BANNER@,
{
    String::from_str(BANNER)
}

/// One pseudo-filesystem mount: source, target path, and filesystem type.
#[derive(Debug, Clone, PartialEq, Eq)]
pub struct MountRequest {
    pub source: String,
    pub target: String,
    pub fstype: String,
}

/// The views of a mount plan: (source, target, type) triples.
pub open spec fn mounts_model(v: Seq<MountRequest>) -> Seq<(Seq<char>, Seq<char>, Seq<char>)> {
    Seq::new(v.len(), |i: int| (v[i].source@, v[i].target@, v[i].fstype@))
}

/// The three pseudo-filesystem mounts of a first process, in order: the
/// device filesystem, the kernel-information filesystem, and the
/// process-information filesystem.
pub open spec fn pid1_mounts() -> Seq<(Seq<char>, Seq<char>, Seq<char>)> {
    seq![
        ("none"@, "/dev"@, "devtmpfs"@),
        ("none"@, "/sys"@, "sysfs"@),
        ("proc"@, "/proc"@, "proc"@),
    ]
}

fn mount_request(source: &str, target: &str, fstype: &str) -> (m: MountRequest)
    ensures
        m.source@ == source@,
        m.target@ == target@,
        m.fstype@ == fstype@,
{
    MountRequest {
        source: String::from_str(source),
        target: String::from_str(target),
        fstype: String::from_str(fstype),
    }
}

/// The root-filesystem mount plan for a process identity: exactly the three
/// pseudo-filesystem mounts when running as process 1, and nothing at all —
/// no mount is attempted — for any other identity.
pub fn init_rootfs(pid: u32) -> (plan: Vec<MountRequest>)
    ensures
        pid != 1 ==> plan@.len() == 0,
        pid == 1 ==> mounts_model(plan@) == pid1_mounts(),
{
    let mut plan: Vec<MountRequest> = Vec::new();
    if pid != 1 {
        return plan;
    }
    plan.push(mount_request("none", "/dev", "devtmpfs"));
    plan.push(mount_request("none", "/sys", "sysfs"));
    plan.push(mount_request("proc", "/proc", "proc"));
    proof {
        assert(mounts_model(plan@) =~= pid1_mounts());
    }
    plan
}

/// Verbosity of the daemon's log output.
#[derive(Debug, Clone, Copy, PartialEq, Eq, Structural)]
pub enum LogLevel {
    Error,
    Warn,
    Info,
    Debug,
    Trace,
}

/// Which log sinks initialization wires up.
#[derive(Debug, Clone, Copy, PartialEq, Eq, Structural)]
pub enum LogMode {
    /// An init context logs to standard output only.
    SimpleOnly,
    /// A supervised child forwards to the system log beside standard
    /// output.
    SimpleAndSyslog,
}

/// The log level the daemon runs at: everything when verbose, the normal
/// informational level otherwise.
pub fn log_level_for(verbose: bool) -> (l: LogLevel)
    ensures
        l == (if verbose {
            LogLevel::Trace
        } else {
            LogLevel::Info
        }),
{
    if verbose {
        LogLevel::Trace
    } else {
        LogLevel::Info
    }
}

/// Everything the driver must do before serving the control plane, decided
/// once from the process identity.
#[derive(Debug, Clone, PartialEq, Eq)]
pub struct BootPlan {
    /// Print the startup banner first (an init context only).
    pub show_banner: bool,
    /// Which log sinks to wire up.
    pub log_mode: LogMode,
    /// The pseudo-filesystem mounts to perform, in order.
    pub mounts: Vec<MountRequest>,
    /// Whether to run the network bootstrap.
    pub configure_network: bool,
    /// The input device to watch for power-button events, if any.
    pub power_button_device: Option<String>,
}

/// The identity-aware bootstrap sequencer.
#[derive(Debug, Clone, Copy, PartialEq, Eq, Structural)]
pub struct SystemRuntime {
    pub logger_level: LogLevel,
}

impl SystemRuntime {
    /// The full OS-init plan of process 1: banner, init logging, the three
    /// pseudo-filesystem mounts, the network bootstrap, and the
    /// power-button listener.
    pub fn init_pid1(&self) -> (plan: BootPlan)
        ensures
            plan.show_banner,
            plan.log_mode == LogMode::SimpleOnly,
            mounts_model(plan.mounts@) == pid1_mounts(),
            plan.configure_network,
            plan.power_button_device matches Some(d) && d@ == crate::POWER_BUTTON_DEVICE@,
    {
        BootPlan {
            show_banner: true,
            log_mode: LogMode::SimpleOnly,
            mounts: init_rootfs(1),
            configure_network: true,
            power_button_device: Some(self.spawn_system_runtime_threads()),
        }
    }

    /// The plan of a supervised child: log-only initialization, no OS-init
    /// responsibility at all.
    pub fn init_pid_gt_1(&self) -> (plan: BootPlan)
        ensures
            !plan.show_banner,
            plan.log_mode == LogMode::SimpleAndSyslog,
            plan.mounts@.len() == 0,
            !plan.configure_network,
            plan.power_button_device is None,
    {
        BootPlan {
            show_banner: false,
            log_mode: LogMode::SimpleAndSyslog,
            mounts: Vec::new(),
            configure_network: false,
            power_button_device: None,
        }
    }

    /// The device the daemon's background activity watches for power
    /// events.
    pub fn spawn_system_runtime_threads(&self) -> (device: String)
        ensures
            device@ == crate::POWER_BUTTON_DEVICE@,
    {
        String::from_str(crate::POWER_BUTTON_DEVICE)
    }

    /// Decides the whole bootstrap once from the process identity: identity
    /// 1 takes on full OS-init responsibilities, every other identity only
    /// initializes logging and proceeds to serve.
    pub fn init(&self, pid: u32) -> (plan: BootPlan)
        ensures
            pid == 1 ==> {
                &&& plan.show_banner
                &&& plan.log_mode == LogMode::SimpleOnly
                &&& mounts_model(plan.mounts@) == pid1_mounts()
                &&& plan.configure_network
                &&& (plan.power_button_device matches Some(d) && d@
                    == crate::POWER_BUTTON_DEVICE@)
            },
            pid != 1 ==> {
                &&& !plan.show_banner
                &&& plan.log_mode == LogMode::SimpleAndSyslog
                &&& plan.mounts@.len() == 0
                &&& !plan.configure_network
                &&& plan.power_button_device is None
            },
    {
        if pid == 1 {
            self.init_pid1()
        } else {
            self.init_pid_gt_1()
        }
    }
}

} // verus!

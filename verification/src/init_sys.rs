//! Which init system runs the daemon, and the step that starts, stops or
//! reloads it under each: a program to run, or a signal for the process
//! named in the PID file.

use vstd::prelude::*;
use crate::text::{chars_of, parse_u32, parse_u32_range, string_of, trim, trim_range, CharClass};

verus! {

#[derive(Debug, Clone, Copy, PartialEq, Eq)]
pub enum InitSystem {
    Systemd,
    S6,
    OpenRC,
    PidFile,
}

#[derive(Debug, Clone, Copy, PartialEq, Eq)]
pub enum DaemonCmd {
    Start,
    Stop,
    Reload,
}

/// Which of the marker paths exist on this machine.
#[derive(Debug, Clone, Copy)]
pub struct InitMarkers {
    /// `/run/systemd/private`
    pub systemd_private: bool,
    /// `/run/s6`
    pub run_s6: bool,
    /// `/run/s6-rc`
    pub run_s6_rc: bool,
    /// `/sbin/openrc`
    pub sbin_openrc: bool,
    /// `/usr/sbin/openrc`
    pub usr_sbin_openrc: bool,
}

pub open spec fn detect_init_spec(m: InitMarkers) -> InitSystem {
    if m.systemd_private {
        InitSystem::Systemd
    } else if m.run_s6 || m.run_s6_rc {
        InitSystem::S6
    } else if m.sbin_openrc || m.usr_sbin_openrc {
        InitSystem::OpenRC
    } else {
        InitSystem::PidFile
    }
}

/// systemd wins over S6, S6 over OpenRC; with no marker the PID file is used.
pub fn detect_init(m: &InitMarkers) -> (r: InitSystem)
    ensures
        r == detect_init_spec(*m),
{
    if m.systemd_private {
        InitSystem::Systemd
    } else if m.run_s6 || m.run_s6_rc {
        InitSystem::S6
    } else if m.sbin_openrc || m.usr_sbin_openrc {
        InitSystem::OpenRC
    } else {
        InitSystem::PidFile
    }
}

/// What carries out a lifecycle command.
#[derive(Debug, Clone)]
pub enum LifecycleStep {
    /// Run this argument vector; the command fails unless it exits with success.
    Run(Vec<String>),
    /// Read the PID from `pid_path` and send it `signal`.
    Signal { pid_path: String, signal: i32 },
}

pub enum StepView {
    Run(Seq<Seq<char>>),
    Signal(Seq<char>, i32),
}

impl View for LifecycleStep {
    type V = StepView;

    open spec fn view(&self) -> StepView {
        match self {
            LifecycleStep::Run(argv) => StepView::Run(argv@.map_values(|a: String| a@)),
            LifecycleStep::Signal { pid_path, signal } => StepView::Signal(pid_path@, *signal),
        }
    }
}

/// The service directory that `s6-svc` drives.
pub open spec fn s6_service_dir_spec() -> Seq<char> {
    "/run/service/gpionext"@
}

/// The OpenRC init script.
pub open spec fn openrc_script_spec() -> Seq<char> {
    "/etc/init.d/gpionext"@
}

/// The daemon's PID file.
pub open spec fn pid_file_spec() -> Seq<char> {
    "/run/gpionext.pid"@
}

pub fn s6_service_dir() -> (s: &'static str)
    ensures
        s@ == s6_service_dir_spec(),
{
    proof {
        reveal_strlit("/run/service/gpionext");
    }
    "/run/service/gpionext"
}

pub fn openrc_script() -> (s: &'static str)
    ensures
        s@ == openrc_script_spec(),
{
    proof {
        reveal_strlit("/etc/init.d/gpionext");
    }
    "/etc/init.d/gpionext"
}

fn argv(parts: &[&str]) -> (r: Vec<String>)
    ensures
        r@.len() == parts@.len(),
        forall|i: int| 0 <= i < parts@.len() ==> (#[trigger] r@[i])@ == parts@[i]@,
{
    let mut r: Vec<String> = Vec::new();
    let mut i: usize = 0;
    while i < parts.len()
        invariant
            i <= parts@.len(),
            r@.len() == i,
            forall|j: int| 0 <= j < i ==> (#[trigger] r@[j])@ == parts@[j]@,
        decreases parts@.len() - i,
    {
        r.push(string_of(parts[i]));
        i = i + 1;
    }
    r
}

pub open spec fn systemd_spec(cmd: DaemonCmd) -> StepView {
    let arg = match cmd {
        DaemonCmd::Start => "start"@,
        DaemonCmd::Stop => "stop"@,
        DaemonCmd::Reload => "reload"@,
    };
    StepView::Run(seq!["systemctl"@, arg, "gpionext"@])
}

/// `systemctl start|stop|reload gpionext`.
pub fn systemd_cmd(cmd: DaemonCmd) -> (r: LifecycleStep)
    ensures
        r@ == systemd_spec(cmd),
{
    let arg = match cmd {
        DaemonCmd::Start => "start",
        DaemonCmd::Stop => "stop",
        DaemonCmd::Reload => "reload",
    };
    let v = argv(&["systemctl", arg, "gpionext"]);
    let r = LifecycleStep::Run(v);
    assert(v@.map_values(|a: String| a@) =~= seq!["systemctl"@, arg@, "gpionext"@]);
    r
}

pub open spec fn s6_spec(cmd: DaemonCmd, svc_dir_exists: bool) -> StepView {
    if svc_dir_exists {
        let arg = match cmd {
            DaemonCmd::Start => "-u"@,
            DaemonCmd::Stop => "-d"@,
            DaemonCmd::Reload => "-h"@,
        };
        StepView::Run(seq!["s6-svc"@, arg, s6_service_dir_spec()])
    } else {
        let arg = match cmd {
            DaemonCmd::Start => "up"@,
            DaemonCmd::Stop => "down"@,
            DaemonCmd::Reload => "reload"@,
        };
        StepView::Run(seq!["s6-rc"@, "-u"@, arg, "gpionext"@])
    }
}

/// `s6-svc -u|-d|-h /run/service/gpionext` when that directory exists,
/// otherwise `s6-rc -u up|down|reload gpionext`.
pub fn s6_cmd(cmd: DaemonCmd, svc_dir_exists: bool) -> (r: LifecycleStep)
    ensures
        r@ == s6_spec(cmd, svc_dir_exists),
{
    if svc_dir_exists {
        let arg = match cmd {
            DaemonCmd::Start => "-u",
            DaemonCmd::Stop => "-d",
            DaemonCmd::Reload => "-h",
        };
        let dir = s6_service_dir();
        let v = argv(&["s6-svc", arg, dir]);
        assert(v@.map_values(|a: String| a@) =~= seq!["s6-svc"@, arg@, dir@]);
        LifecycleStep::Run(v)
    } else {
        let arg = match cmd {
            DaemonCmd::Start => "up",
            DaemonCmd::Stop => "down",
            DaemonCmd::Reload => "reload",
        };
        let v = argv(&["s6-rc", "-u", arg, "gpionext"]);
        assert(v@.map_values(|a: String| a@) =~= seq!["s6-rc"@, "-u"@, arg@, "gpionext"@]);
        LifecycleStep::Run(v)
    }
}

pub open spec fn openrc_spec(cmd: DaemonCmd, init_script_exists: bool) -> StepView {
    let arg = match cmd {
        DaemonCmd::Start => "start"@,
        DaemonCmd::Stop => "stop"@,
        DaemonCmd::Reload => "reload"@,
    };
    if init_script_exists {
        StepView::Run(seq![openrc_script_spec(), arg])
    } else {
        StepView::Run(seq!["rc-service"@, "gpionext"@, arg])
    }
}

/// `/etc/init.d/gpionext start|stop|reload` when the script exists,
/// otherwise `rc-service gpionext start|stop|reload`.
pub fn openrc_cmd(cmd: DaemonCmd, init_script_exists: bool) -> (r: LifecycleStep)
    ensures
        r@ == openrc_spec(cmd, init_script_exists),
{
    let arg = match cmd {
        DaemonCmd::Start => "start",
        DaemonCmd::Stop => "stop",
        DaemonCmd::Reload => "reload",
    };
    if init_script_exists {
        let script = openrc_script();
        let v = argv(&[script, arg]);
        assert(v@.map_values(|a: String| a@) =~= seq![script@, arg@]);
        LifecycleStep::Run(v)
    } else {
        let v = argv(&["rc-service", "gpionext", arg]);
        assert(v@.map_values(|a: String| a@) =~= seq!["rc-service"@, "gpionext"@, arg@]);
        LifecycleStep::Run(v)
    }
}

/// Reads the constant `libc::SIGTERM`; the contract claims its value, 15,
/// as the libc crate defines it for Linux.
#[verifier::external_body]
pub(crate) fn libc_sigterm() -> (s: i32)
    ensures
        s == 15,
{
    libc::SIGTERM
}

/// Reads the constant `libc::SIGHUP`; the contract claims its value, 1,
/// as the libc crate defines it for Linux.
#[verifier::external_body]
pub(crate) fn libc_sighup() -> (s: i32)
    ensures
        s == 1,
{
    libc::SIGHUP
}

pub open spec fn pidfile_spec(cmd: DaemonCmd) -> StepView {
    match cmd {
        DaemonCmd::Start => StepView::Run(seq!["/usr/bin/gpionext"@, "start"@]),
        DaemonCmd::Stop => StepView::Signal(pid_file_spec(), 15),
        DaemonCmd::Reload => StepView::Signal(pid_file_spec(), 1),
    }
}

/// Without an init system: start through the `gpionext` wrapper, stop with
/// SIGTERM and reload with SIGHUP to the PID in `/run/gpionext.pid`.
pub fn pidflie_cmd(cmd: DaemonCmd) -> (r: LifecycleStep)
    ensures
        r@ == pidfile_spec(cmd),
{
    proof {
        reveal_strlit("/run/gpionext.pid");
    }
    match cmd {
        DaemonCmd::Start => {
            let v = argv(&["/usr/bin/gpionext", "start"]);
            assert(v@.map_values(|a: String| a@) =~= seq!["/usr/bin/gpionext"@, "start"@]);
            LifecycleStep::Run(v)
        },
        DaemonCmd::Stop => LifecycleStep::Signal {
            pid_path: string_of("/run/gpionext.pid"),
            signal: libc_sigterm(),
        },
        DaemonCmd::Reload => LifecycleStep::Signal {
            pid_path: string_of("/run/gpionext.pid"),
            signal: libc_sighup(),
        },
    }
}

pub open spec fn daemon_cmd_spec(init: InitSystem, cmd: DaemonCmd, svc_dir_exists: bool, init_script_exists: bool) -> StepView {
    match init {
        InitSystem::Systemd => systemd_spec(cmd),
        InitSystem::S6 => s6_spec(cmd, svc_dir_exists),
        InitSystem::OpenRC => openrc_spec(cmd, init_script_exists),
        InitSystem::PidFile => pidfile_spec(cmd),
    }
}

/// The step that carries out `cmd` under `init`. `svc_dir_exists` says
/// whether `/run/service/gpionext` exists (S6 only), `init_script_exists`
/// whether `/etc/init.d/gpionext` does (OpenRC only).
pub fn run_daemon_cmd(init: InitSystem, cmd: DaemonCmd, svc_dir_exists: bool, init_script_exists: bool) -> (r: LifecycleStep)
    ensures
        r@ == daemon_cmd_spec(init, cmd, svc_dir_exists, init_script_exists),
{
    match init {
        InitSystem::Systemd => systemd_cmd(cmd),
        InitSystem::S6 => s6_cmd(cmd, svc_dir_exists),
        InitSystem::OpenRC => openrc_cmd(cmd, init_script_exists),
        InitSystem::PidFile => pidflie_cmd(cmd),
    }
}

/// The PID in a PID file's text: surrounding whitespace dropped, then a `u32`.
pub fn read_pid(text: &str) -> (r: Option<u32>)
    ensures
        r == parse_u32(trim(text@)),
{
    let v = chars_of(text);
    assert(v@.subrange(0, v@.len() as int) =~= text@);
    let (lo, hi) = trim_range(&v, 0, v.len(), CharClass::Whitespace);
    parse_u32_range(&v, lo, hi)
}

} // verus!

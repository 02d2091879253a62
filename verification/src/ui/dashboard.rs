//! The dashboard's configuration file (with custom integrity paths) and the
//! process mitigation commands (kill, isolate, resume).
use vstd::prelude::*;
use crate::text::{concat2, decimal, owned, push_str, str_eq, u64_to_decimal};
use crate::guardian_ui::dashboard::{ModulesConfig, config_yaml, render_config};

use crate::guardian_ui::config_file::{
    append_lines, console_keys, kept_integrity_lines, kept_lines, merge_config,
    merge_integrity_section,
};

verus! {

/// Extra paths the user asked to have monitored.
#[derive(Debug, Clone)]
pub struct FileIntegrityConfig {
    pub custom_paths: Vec<String>,
}

/// The guardian's configuration as this dashboard edits it.
#[derive(Debug, Clone)]
pub struct GuardianConfig {
    pub mode: String,
    pub modules: ModulesConfig,
    pub file_integrity: FileIntegrityConfig,
}

/// The `file_integrity` section lines for `paths`.
pub open spec fn custom_path_lines(paths: Seq<Seq<char>>) -> Seq<char>
    decreases paths.len(),
{
    if paths.len() == 0 {
        seq![]
    } else {
        custom_path_lines(paths.drop_last()) + "\n"@ + "    - \""@ + paths.last() + "\""@
    }
}

/// The configuration file text: the mode and modules lines, an empty line,
/// then `file_integrity:` with `  custom_paths: []` or one
/// `    - "<path>"` line per custom path.
pub open spec fn config_yaml_with_paths(
    mode: Seq<char>,
    modules: ModulesConfig,
    paths: Seq<Seq<char>>,
) -> Seq<char> {
    config_yaml(mode, modules) + "\n"@ + ""@ + "\n"@ + "file_integrity:"@ + "\n"@ + if paths.len()
        == 0 {
        "  custom_paths: []"@
    } else {
        "  custom_paths:"@ + custom_path_lines(paths)
    }
}

/// The configuration file text for `mode`, `modules` and custom paths.
pub fn render_config_with_paths(mode: &str, modules: &ModulesConfig, paths: &Vec<String>) -> (s: String)
    ensures
        s@ == config_yaml_with_paths(mode@, *modules, paths@.map_values(|p: String| p@)),
{
    let mut s = render_config(mode, modules);
    push_str(&mut s, "\n");
    push_str(&mut s, "");
    push_str(&mut s, "\n");
    push_str(&mut s, "file_integrity:");
    push_str(&mut s, "\n");
    let ghost head = s@;
    let ghost pv = paths@.map_values(|p: String| p@);
    if paths.len() == 0 {
        push_str(&mut s, "  custom_paths: []");
    } else {
        push_str(&mut s, "  custom_paths:");
        let ghost head2 = s@;
        let mut i: usize = 0;
        while i < paths.len()
            invariant
                i <= paths@.len(),
                pv == paths@.map_values(|p: String| p@),
                s@ == head2 + custom_path_lines(pv.take(i as int)),
            decreases paths@.len() - i,
        {
            proof {
                assert(pv.take(i + 1).drop_last() == pv.take(i as int));
                assert(pv.take(i + 1).last() == paths@[i as int]@);
            }
            push_str(&mut s, "\n");
            push_str(&mut s, "    - \"");
            push_str(&mut s, paths[i].as_str());
            push_str(&mut s, "\"");
            proof {
                assert(s@ =~= head2 + custom_path_lines(pv.take(i + 1)));
            }
            i += 1;
        }
        proof {
            assert(pv.take(paths@.len() as int) == pv);
        }
    }
    proof {
        assert(s@ =~= config_yaml_with_paths(mode@, *modules, pv));
    }
    s
}

impl GuardianConfig {
    /// The configuration the dashboard starts with: `Silent Monitor`, every
    /// monitor on, no custom paths.
    pub fn initial() -> (c: GuardianConfig)
        ensures
            c.mode@ == "Silent Monitor"@,
            c.modules.visual && c.modules.clipboard && c.modules.network,
            c.file_integrity.custom_paths@.len() == 0,
    {
        GuardianConfig {
            mode: owned("Silent Monitor"),
            modules: ModulesConfig { visual: true, clipboard: true, network: true },
            file_integrity: FileIntegrityConfig { custom_paths: Vec::new() },
        }
    }

    /// Replaces mode, modules and custom paths and returns the file text to
    /// write: the `mode`, `modules` and `file_integrity` sections (the last
    /// keeping its existing settings other than `custom_paths`), then every
    /// other section of the existing file `existing`, line for line.
    pub fn update_config(
        &mut self,
        mode: String,
        modules: ModulesConfig,
        file_integrity: FileIntegrityConfig,
        existing: &str,
    ) -> (text: String)
        ensures
            final(self).mode@ == mode@,
            final(self).modules == modules,
            final(self).file_integrity == file_integrity,
            text@ == append_lines(
                append_lines(
                    config_yaml_with_paths(
                        mode@,
                        modules,
                        file_integrity.custom_paths@.map_values(|p: String| p@),
                    ),
                    kept_integrity_lines(existing@),
                ),
                kept_lines(existing@, console_keys()),
            ),
    {
        let rendered = render_config_with_paths(mode.as_str(), &modules, &file_integrity.custom_paths);
        let with_section = merge_integrity_section(rendered, existing);
        let written: Vec<&str> = vec!["mode", "modules", "file_integrity"];
        proof {
            assert(written@.map_values(|d: &str| d@) =~= console_keys());
        }
        let text = merge_config(with_section, existing, &written);
        self.mode = mode;
        self.modules = modules;
        self.file_integrity = file_integrity;
        text
    }
}

// ---------------------------------------------------------------------------
// Mitigation
// ---------------------------------------------------------------------------

/// A mitigation applied to a process.
#[derive(Debug, Clone, Copy)]
pub enum Mitigation {
    /// `kill -9`
    Kill,
    /// `kill -STOP` (suspend)
    Isolate,
    /// `kill -CONT` (resume)
    Resume,
}

/// The mitigation an action name asks for.
pub open spec fn mitigation_of(action: Seq<char>) -> Option<Mitigation> {
    if action == "kill"@ {
        Some(Mitigation::Kill)
    } else if action == "isolate"@ {
        Some(Mitigation::Isolate)
    } else if action == "resume"@ {
        Some(Mitigation::Resume)
    } else {
        None
    }
}

/// The mitigation for `action` (`kill`, `isolate` or `resume`); an unknown
/// action is refused with `Unknown action`.
pub fn parse_mitigation(action: &str) -> (r: Result<Mitigation, String>)
    ensures
        match r {
            Ok(m) => mitigation_of(action@) == Some(m),
            Err(e) => mitigation_of(action@) is None && e@ == "Unknown action"@,
        },
{
    if str_eq(action, "kill") {
        Ok(Mitigation::Kill)
    } else if str_eq(action, "isolate") {
        Ok(Mitigation::Isolate)
    } else if str_eq(action, "resume") {
        Ok(Mitigation::Resume)
    } else {
        Err(owned("Unknown action"))
    }
}

/// The signal argument passed to `kill`.
pub open spec fn signal_arg_spec(m: Mitigation) -> Seq<char> {
    match m {
        Mitigation::Kill => "-9"@,
        Mitigation::Isolate => "-STOP"@,
        Mitigation::Resume => "-CONT"@,
    }
}

impl Mitigation {
    /// The signal argument passed to `kill`.
    pub fn signal_arg(&self) -> (s: &'static str)
        ensures
            s@ == signal_arg_spec(*self),
    {
        match self {
            Mitigation::Kill => "-9",
            Mitigation::Isolate => "-STOP",
            Mitigation::Resume => "-CONT",
        }
    }
}

/// The answer once `kill` ran: its success or failure message, or the error
/// of running it at all.
pub open spec fn mitigation_result(m: Mitigation, pid: u32, status: Result<bool, Seq<char>>) -> Result<
    Seq<char>,
    Seq<char>,
> {
    let p = decimal(pid as nat);
    match status {
        Err(e) => Err(e),
        Ok(ok) => match m {
            Mitigation::Kill => if ok {
                Ok("Killed PID "@ + p)
            } else {
                Err("Failed to kill PID "@ + p)
            },
            Mitigation::Isolate => if ok {
                Ok("Isolated (Suspended) PID "@ + p)
            } else {
                Err("Failed to isolate PID "@ + p)
            },
            Mitigation::Resume => if ok {
                Ok("Resumed PID "@ + p)
            } else {
                Err("Failed to resume PID "@ + p)
            },
        },
    }
}

/// The answer once `kill <signal> <pid>` ran: `status` is whether it exited
/// successfully, or the error of running it.
pub fn mitigate_process(m: Mitigation, pid: u32, status: Result<bool, String>) -> (r: Result<String, String>)
    ensures
        match (r, status) {
            (Ok(msg), Ok(ok)) => mitigation_result(m, pid, Ok(ok)) == Ok::<Seq<char>, Seq<char>>(msg@),
            (Err(msg), Ok(ok)) => mitigation_result(m, pid, Ok(ok)) == Err::<Seq<char>, Seq<char>>(msg@),
            (Err(msg), Err(e)) => msg@ == e@,
            (Ok(_), Err(_)) => false,
        },
{
    let p = u64_to_decimal(pid as u64);
    match status {
        Err(e) => Err(e),
        Ok(ok) => match m {
            Mitigation::Kill => if ok {
                Ok(concat2("Killed PID ", p.as_str()))
            } else {
                Err(concat2("Failed to kill PID ", p.as_str()))
            },
            Mitigation::Isolate => if ok {
                Ok(concat2("Isolated (Suspended) PID ", p.as_str()))
            } else {
                Err(concat2("Failed to isolate PID ", p.as_str()))
            },
            Mitigation::Resume => if ok {
                Ok(concat2("Resumed PID ", p.as_str()))
            } else {
                Err(concat2("Failed to resume PID ", p.as_str()))
            },
        },
    }
}

/// Each action is carried out with the signal it is named for: `kill` sends
/// SIGKILL (`-9`) and alone reports `Killed PID <pid>`, `isolate` sends
/// SIGSTOP and alone reports a suspension, `resume` sends SIGCONT and alone
/// reports a resumption.
pub proof fn lemma_actions_send_their_signals(action: Seq<char>, pid: u32)
    requires
        mitigation_of(action) is Some,
    ensures
        ({
            let m = mitigation_of(action)->Some_0;
            let p = decimal(pid as nat);
            &&& (action == "kill"@ <==> signal_arg_spec(m) == "-9"@)
            &&& (action == "isolate"@ <==> signal_arg_spec(m) == "-STOP"@)
            &&& (action == "resume"@ <==> signal_arg_spec(m) == "-CONT"@)
            &&& (signal_arg_spec(m) == "-9"@ <==> mitigation_result(m, pid, Ok(true)) == Ok::<
                Seq<char>,
                Seq<char>,
            >("Killed PID "@ + p))
            &&& (signal_arg_spec(m) == "-STOP"@ <==> mitigation_result(m, pid, Ok(true)) == Ok::<
                Seq<char>,
                Seq<char>,
            >("Isolated (Suspended) PID "@ + p))
            &&& (signal_arg_spec(m) == "-CONT"@ <==> mitigation_result(m, pid, Ok(true)) == Ok::<
                Seq<char>,
                Seq<char>,
            >("Resumed PID "@ + p))
        }),
{
    reveal_strlit("kill");
    reveal_strlit("isolate");
    reveal_strlit("resume");
    reveal_strlit("-9");
    reveal_strlit("-STOP");
    reveal_strlit("-CONT");
    reveal_strlit("Killed PID ");
    reveal_strlit("Isolated (Suspended) PID ");
    reveal_strlit("Resumed PID ");
    let p = decimal(pid as nat);
    let k = "Killed PID "@ + p;
    let i = "Isolated (Suspended) PID "@ + p;
    let r = "Resumed PID "@ + p;
    assert(k[0] == 'K' && i[0] == 'I' && r[0] == 'R');
    assert(k != i && k != r && i != r);
    assert("-9"@ != "-STOP"@ && "-9"@ != "-CONT"@ && "-STOP"@ != "-CONT"@) by {
        assert("-9"@.len() != "-STOP"@.len());
        assert("-9"@.len() != "-CONT"@.len());
        assert("-STOP"@[1] != "-CONT"@[1]);
    }
    assert("kill"@ != "isolate"@ && "kill"@ != "resume"@ && "isolate"@ != "resume"@) by {
        assert("kill"@.len() != "isolate"@.len());
        assert("kill"@.len() != "resume"@.len());
        assert("isolate"@.len() != "resume"@.len());
    }
}

} // verus!

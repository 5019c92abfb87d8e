//! Where an agent's shell commands run: an explicit directory, the agent's base directory, or
//! the one directory of the unfinished tasks it owns.
use vstd::prelude::*;

use super::paths::{paths_equal, resolve_path, resolved, same_path};
use crate::task::types::TaskStatus;
use crate::text::{decimal, push_decimal, str_eq};

verus! {

/// What the runtime knows of a registered agent.
#[derive(Debug, Clone)]
pub struct AgentExecutionConfig {
    pub name: String,
    pub team_dir: String,
    pub tasks_dir: String,
    pub base_dir: String,
    pub auto_route_shell: bool,
    pub is_teammate: bool,
}

/// A stored task, as far as routing commands goes: its owner, status and directory.
#[derive(Debug, Clone)]
pub struct RoutedTask {
    pub owner: String,
    pub status: TaskStatus,
    pub working_directory: Option<String>,
}

/// Whether `t` is an unfinished task of the agent, when the agent is a teammate.
pub open spec fn routes_to(config: AgentExecutionConfig, t: RoutedTask) -> bool {
    config.is_teammate && t.owner@ == config.name@ && t.status != TaskStatus::Completed
}

/// The resolved directories of the agent's unfinished tasks that name one, in task order.
pub open spec fn task_directories(config: AgentExecutionConfig, tasks: Seq<RoutedTask>) -> Seq<Seq<char>>
    decreases tasks.len(),
{
    if tasks.len() == 0 {
        Seq::empty()
    } else {
        let rest = task_directories(config, tasks.drop_last());
        let t = tasks.last();
        if routes_to(config, t) && t.working_directory is Some {
            rest.push(resolved(config.base_dir@, t.working_directory->0@))
        } else {
            rest
        }
    }
}

pub const MULTIPLE_DIRECTORIES: &'static str = "Multiple owned task directories are active. Pass workingDirectory explicitly.";

/// Whether the directory depends on the stored tasks: no directory was given and the agent
/// routes its commands to its tasks' directories.
pub open spec fn spec_needs_tasks(config: AgentExecutionConfig, explicit: Option<&str>) -> bool {
    explicit is None && config.auto_route_shell
}

pub fn needs_tasks(config: &AgentExecutionConfig, explicit: Option<&str>) -> (r: bool)
    ensures
        r == spec_needs_tasks(*config, explicit),
{
    explicit.is_none() && config.auto_route_shell
}

/// The working directory for a command: the given one, resolved against the base directory;
/// else the base directory, unless the agent routes to its tasks; then the one directory of
/// its unfinished tasks (the base directory when they name none), refused when they name
/// directories that differ.
pub fn resolve_working_directory(config: &AgentExecutionConfig, explicit: Option<&str>, tasks: &Vec<RoutedTask>) -> (r:
    Result<String, String>)
    ensures
        explicit matches Some(d) ==> (r matches Ok(p) && p@ == resolved(config.base_dir@, d@)),
        explicit is None && !config.auto_route_shell ==> (r matches Ok(p) && p@ == config.base_dir@),
        spec_needs_tasks(*config, explicit) ==> ({
            let dirs = task_directories(*config, tasks@);
            if dirs.len() == 0 {
                r matches Ok(p) && p@ == config.base_dir@
            } else if exists|j: int| 1 <= j < dirs.len() && !same_path(dirs[0], #[trigger] dirs[j]) {
                r matches Err(m) && m@ == MULTIPLE_DIRECTORIES@
            } else {
                r matches Ok(p) && p@ == dirs[0]
            }
        }),
{
    match explicit {
        Some(d) => {
            return Ok(resolve_path(config.base_dir.as_str(), d));
        },
        None => {},
    }
    if !config.auto_route_shell {
        return Ok(config.base_dir.clone());
    }
    let ghost cfg = *config;
    let mut first: Option<String> = None;
    let mut differs = false;
    let mut i: usize = 0;
    while i < tasks.len()
        invariant
            i <= tasks@.len(),
            cfg == *config,
            ({
                let dirs = task_directories(cfg, tasks@.take(i as int));
                &&& (dirs.len() == 0 <==> first is None)
                &&& (first matches Some(f) ==> f@ == dirs[0])
                &&& (differs <==> exists|j: int| 1 <= j < dirs.len() && !same_path(dirs[0], #[trigger] dirs[j]))
            }),
        decreases tasks.len() - i,
    {
        let ghost before = task_directories(cfg, tasks@.take(i as int));
        proof {
            assert(tasks@.take(i as int + 1).drop_last() =~= tasks@.take(i as int));
        }
        let t = &tasks[i];
        if config.is_teammate && str_eq(t.owner.as_str(), config.name.as_str()) && t.status != TaskStatus::Completed {
            match &t.working_directory {
                Some(wd) => {
                    let dir = resolve_path(config.base_dir.as_str(), wd.as_str());
                    let ghost after = before.push(dir@);
                    assert(task_directories(cfg, tasks@.take(i as int + 1)) == after);
                    match &first {
                        Some(f) => {
                            let ghost was = differs;
                            let eq = paths_equal(f.as_str(), dir.as_str());
                            if !eq {
                                differs = true;
                            }
                            proof {
                                assert(after[0] == before[0]);
                                if was {
                                    let j = choose|j: int| 1 <= j < before.len() && !same_path(before[0], #[trigger] before[j]);
                                    assert(after[j] == before[j]);
                                }
                                if !eq {
                                    assert(!same_path(after[0], after[after.len() - 1]));
                                }
                                if exists|j: int| 1 <= j < after.len() && !same_path(after[0], #[trigger] after[j]) {
                                    let j = choose|j: int| 1 <= j < after.len() && !same_path(after[0], #[trigger] after[j]);
                                    if j < before.len() {
                                        assert(after[j] == before[j]);
                                    }
                                }
                            }
                        },
                        None => {
                            first = Some(dir);
                            assert(after.len() == 1);
                        },
                    }
                },
                None => {
                    assert(task_directories(cfg, tasks@.take(i as int + 1)) == before);
                },
            }
        } else {
            assert(task_directories(cfg, tasks@.take(i as int + 1)) == before);
        }
        i += 1;
    }
    assert(tasks@.take(tasks@.len() as int) =~= tasks@);
    if differs {
        return Err(MULTIPLE_DIRECTORIES.to_owned());
    }
    match first {
        Some(f) => Ok(f),
        None => Ok(config.base_dir.clone()),
    }
}

/// The directory an agent's commands run in by default: its base directory, or the current
/// directory for an agent the runtime does not know.
pub fn default_working_directory(config: Option<&AgentExecutionConfig>) -> (r: String)
    ensures
        match config {
            Some(c) => r@ == c.base_dir@,
            None => r@ == "."@,
        },
{
    match config {
        Some(c) => c.base_dir.clone(),
        None => ".".to_owned(),
    }
}

/// The refusal to start another background command when `running` of them already reach
/// the policy's limit.
pub fn background_capacity(limit: Option<usize>, running: usize) -> (r: Result<(), String>)
    ensures
        match limit {
            Some(l) => if running >= l {
                r matches Err(m) && m@ == "Background task limit of "@ + decimal(l as nat) + " reached"@
            } else {
                r is Ok
            },
            None => r is Ok,
        },
{
    match limit {
        Some(l) => if running >= l {
            let mut m = "Background task limit of ".to_owned();
            push_decimal(&mut m, l as u64);
            m.append(" reached");
            Err(m)
        } else {
            Ok(())
        },
        None => Ok(()),
    }
}

} // verus!

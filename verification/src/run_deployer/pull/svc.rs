//! Brings one service of the init system up to date with its unit definition.

use crate::run_deployer::command::{invoke_with_two, with_two, Invocation};
use crate::run_deployer::pull::{check_existence, plan_step, PlanStep, StageOutcome};
use crate::text::{option_view, slash_join, slash_joined, string_views};
use vstd::prelude::*;
use vstd::string::*;

verus! {

/// What has to be done for one unit: where its definition lies, what to
/// write there (nothing when the definition is kept), and the command for
/// the init system.
#[derive(Debug, Clone, PartialEq, Eq)]
pub struct UnitPlan {
    pub unit_path: String,
    pub contents: Option<String>,
    pub command: Invocation,
}

/// The text of a unit definition: its lines in order, each ended by a line feed.
pub open spec fn unit_text(lines: Seq<Seq<char>>) -> Seq<char>
    decreases lines.len(),
{
    if lines.len() == 0 {
        Seq::<char>::empty()
    } else {
        unit_text(lines.drop_last()) + lines.last() + seq!['\n']
    }
}

/// Writes the lines of a unit definition one after the other, each ended
/// by a line feed.
pub fn unit_file_text(lines: &[String]) -> (text: String)
    ensures
        text@ == unit_text(string_views(lines@)),
{
    proof {
        reveal_strlit("\n");
    }
    let ghost all = string_views(lines@);
    let mut text = String::new();
    let mut i: usize = 0;
    assert(all.take(0) =~= Seq::<Seq<char>>::empty());
    while i < lines.len()
        invariant
            i <= lines.len(),
            all == string_views(lines@),
            "\n"@ == seq!['\n'],
            text@ == unit_text(all.take(i as int)),
        decreases lines.len() - i,
    {
        assert(all.take(i as int + 1).drop_last() =~= all.take(i as int));
        assert(all.take(i as int + 1).last() == lines@[i as int]@);
        text.append(lines[i].as_str());
        text.append("\n");
        i += 1;
    }
    assert(all.take(lines.len() as int) =~= all);
    text
}

/// The path of the unit definition `svc_filename` in the directory `svc_dir`.
pub fn complete_dir(svc_dir: &str, svc_filename: &str) -> (path: String)
    ensures
        path@ == slash_joined(svc_dir@, svc_filename@),
{
    slash_join(svc_dir, svc_filename)
}

/// Plans the reconciliation of one unit, given whether its definition `exists`.
///
/// A unit without a definition gets one, holding exactly the given lines,
/// and is started. A unit that has one keeps it as it is and is restarted.
pub fn reconcile(exists: bool, svc_filename: &str, svc_dir: &str, contents: &[String]) -> (plan:
    UnitPlan)
    ensures
        plan.unit_path@ == slash_joined(svc_dir@, svc_filename@),
        exists ==> plan.contents is None && plan.command@ == with_two(
            "systemctl"@,
            "restart"@,
            svc_filename@,
            None,
        ),
        !exists ==> option_view(plan.contents) == Some(unit_text(string_views(contents@)))
            && plan.command@ == with_two("systemctl"@, "start"@, svc_filename@, None),
{
    let unit_path = complete_dir(svc_dir, svc_filename);
    if exists {
        UnitPlan {
            unit_path,
            contents: None,
            command: invoke_with_two("systemctl", "restart", svc_filename, None),
        }
    } else {
        UnitPlan {
            unit_path,
            contents: Some(unit_file_text(contents)),
            command: invoke_with_two("systemctl", "start", svc_filename, None),
        }
    }
}

/// One step of carrying out a `UnitPlan`.
#[derive(Debug, Clone, Copy, PartialEq, Eq, Structural)]
pub enum UnitStep {
    /// Create the unit definition at the plan's path and write its contents.
    Write,
    /// Give the init system the plan's command.
    Command,
}

/// The steps of a plan in the order in which they are taken: a definition
/// that has to be written is written first, and the command is the last step.
pub open spec fn unit_steps(plan: UnitPlan) -> Seq<UnitStep> {
    if plan.contents is Some {
        seq![UnitStep::Write, UnitStep::Command]
    } else {
        seq![UnitStep::Command]
    }
}

/// How many steps a plan has.
pub fn unit_step_count(plan: &UnitPlan) -> (count: usize)
    ensures
        count == unit_steps(*plan).len(),
{
    match plan.contents {
        Some(_) => 2,
        None => 1,
    }
}

/// The step at `position` of a plan; none behind its last step.
pub fn unit_step(plan: &UnitPlan, position: usize) -> (step: Option<UnitStep>)
    ensures
        step == if position < unit_steps(*plan).len() {
            Some(unit_steps(*plan)[position as int])
        } else {
            None
        },
{
    match plan.contents {
        Some(_) => {
            if position == 0 {
                Some(UnitStep::Write)
            } else if position == 1 {
                Some(UnitStep::Command)
            } else {
                None
            }
        },
        None => {
            if position == 0 {
                Some(UnitStep::Command)
            } else {
                None
            }
        },
    }
}

/// The init system gets exactly one command. Where a definition has to be
/// written, the command is given after the writing and only if the writing
/// succeeded; where the definition is kept, the command is the only step.
pub proof fn lemma_unit_written_before_command(plan: UnitPlan, written: StageOutcome)
    ensures
        plan.contents is Some ==> unit_steps(plan) == seq![UnitStep::Write, UnitStep::Command],
        plan.contents is None ==> unit_steps(plan) == seq![UnitStep::Command],
        plan_step(2, 0, written) == PlanStep::Run(1) <==> written == StageOutcome::Succeeded,
        written != StageOutcome::Succeeded ==> plan_step(2, 0, written) == PlanStep::Ended(written),
{
}

/// Plans the reconciliation of one unit after asking the file system
/// whether its definition is there.
///
/// Whatever the answer, the plan is the one `reconcile` gives for it.
pub fn restart_service(svc_filename: &str, svc_dir: &str, contents: &[String]) -> (plan: UnitPlan)
    ensures
        plan.unit_path@ == slash_joined(svc_dir@, svc_filename@),
        plan.contents is None ==> plan.command@ == with_two(
            "systemctl"@,
            "restart"@,
            svc_filename@,
            None,
        ),
        plan.contents is Some ==> option_view(plan.contents) == Some(
            unit_text(string_views(contents@)),
        ) && plan.command@ == with_two("systemctl"@, "start"@, svc_filename@, None),
{
    let unit_path = complete_dir(svc_dir, svc_filename);
    let exists = check_existence(unit_path.as_str());
    reconcile(exists, svc_filename, svc_dir, contents)
}

} // verus!

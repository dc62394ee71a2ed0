//! Starting the program with the user's session through a scheduled task.
use vstd::prelude::*;
use crate::text::{append_str, chars_of, string_from, string_of};

verus! {

/// The PowerShell command that registers a logon task starting `exe_path`.
pub fn register_autostart_command(exe_path: &str) -> (res: String)
    ensures
        res@ == "$trigger = New-ScheduledTaskTrigger -AtLogon; $principal = New-ScheduledTaskPrincipal -UserID $env:USERNAME -LogonType Interactive; $task = New-ScheduledTask -Action (New-ScheduledTaskAction -Execute '"@
            + exe_path@
            + "') -Trigger $trigger -Principal $principal; Register-ScheduledTask -TaskName 'PowerPlanPro' -InputObject $task -Force"@,
{
    let mut v = chars_of(
        "$trigger = New-ScheduledTaskTrigger -AtLogon; $principal = New-ScheduledTaskPrincipal -UserID $env:USERNAME -LogonType Interactive; $task = New-ScheduledTask -Action (New-ScheduledTaskAction -Execute '",
    );
    append_str(&mut v, exe_path);
    append_str(
        &mut v,
        "') -Trigger $trigger -Principal $principal; Register-ScheduledTask -TaskName 'PowerPlanPro' -InputObject $task -Force",
    );
    string_of(&v)
}

/// The PowerShell command that removes the logon task.
pub fn unregister_autostart_command() -> (res: String)
    ensures
        res@ == "Unregister-ScheduledTask -TaskName 'PowerPlanPro' -Confirm:$false"@,
{
    string_from("Unregister-ScheduledTask -TaskName 'PowerPlanPro' -Confirm:$false")
}

/// The name of the logon task.
pub const TASK_NAME: &'static str = "PowerPlanPro";

/// Whether the program starts with the user's session, given whether the
/// logon task named [`TASK_NAME`] exists.
pub fn is_autostart_enabled(task_exists: bool) -> (res: Result<bool, String>)
    ensures
        res == Ok::<bool, String>(task_exists),
{
    Ok(task_exists)
}

} // verus!

//! Starting with Windows: one value under the per-user `Run` key of the registry.

use crate::text;
use vstd::prelude::*;
use vstd::string::*;

verus! {

/// The status with which the registry reports that something is not there.
pub const ERROR_FILE_NOT_FOUND: u32 = 2;

/// The status with which the registry reports success.
pub const ERROR_SUCCESS: u32 = 0;

/// The per-user autostart key, below the current user's root.
pub open spec fn run_key_path_text() -> Seq<char> {
    "Software\\Microsoft\\Windows\\CurrentVersion\\Run"@
}

pub fn run_key_path() -> (path: &'static str)
    ensures
        path@ == run_key_path_text(),
{
    "Software\\Microsoft\\Windows\\CurrentVersion\\Run"
}

/// The name of the value that belongs to this application.
pub open spec fn value_name_text() -> Seq<char> {
    "Resonance"@
}

/// The command that the entry runs: the path in quotes, so that a space in it
/// does not end it, and the mode of the real application.
pub open spec fn command_text(exe: Seq<char>) -> Seq<char> {
    "\""@ + exe + "\" --overlay"@
}

/// The command that starts `exe` with Windows.
pub fn format_command(exe: &str) -> (command: String)
    ensures
        command@ == command_text(exe@),
{
    let mut command = String::from_str("\"");
    command.append(exe);
    command.append("\" --overlay");
    command
}

/// Why the entry could not be changed. Nothing here stops the application.
#[derive(Debug)]
pub enum AutostartError {
    /// The path of the executable is not known; the message says why.
    ExecutablePath(String),
    /// A registry call failed.
    Registry { operation: RegistryCall, code: u32 },
}

/// The registry calls that are made.
#[derive(Debug, Clone, Copy, PartialEq, Eq, Structural)]
pub enum RegistryCall {
    CreateKey,
    OpenKey,
    SetValue,
    DeleteValue,
}

/// The name of a registry call.
pub open spec fn call_name(call: RegistryCall) -> Seq<char> {
    match call {
        RegistryCall::CreateKey => "RegCreateKeyExW"@,
        RegistryCall::OpenKey => "RegOpenKeyExW"@,
        RegistryCall::SetValue => "RegSetValueExW"@,
        RegistryCall::DeleteValue => "RegDeleteValueW"@,
    }
}

/// The text shown for an error.
pub open spec fn error_text(error: AutostartError) -> Seq<char> {
    match error {
        AutostartError::ExecutablePath(reason) => "could not determine the executable path: "@
            + reason@,
        AutostartError::Registry { operation, code } => call_name(operation)
            + " failed with Win32 error "@ + text::decimal(code as nat),
    }
}

impl AutostartError {
    /// The text shown for this error.
    pub fn describe(&self) -> (text: String)
        ensures
            text@ == error_text(*self),
    {
        match self {
            AutostartError::ExecutablePath(reason) => {
                let mut text = String::from_str("could not determine the executable path: ");
                text.append(reason.as_str());
                text
            },
            AutostartError::Registry { operation, code } => {
                let name = match operation {
                    RegistryCall::CreateKey => "RegCreateKeyExW",
                    RegistryCall::OpenKey => "RegOpenKeyExW",
                    RegistryCall::SetValue => "RegSetValueExW",
                    RegistryCall::DeleteValue => "RegDeleteValueW",
                };
                let mut text = String::from_str(name);
                text.append(" failed with Win32 error ");
                let number = text::decimal_of(*code as u64);
                text.append(number.as_str());
                text
            },
        }
    }
}

/// What is to be done to the value of this application.
#[derive(Debug)]
pub enum RunEntry {
    Write { name: String, command: String },
    Remove { name: String },
}

/// Whether `entry` is what makes the registry match `enabled`.
pub open spec fn answers(
    entry: Result<RunEntry, AutostartError>,
    enabled: bool,
    exe: Result<String, String>,
) -> bool {
    match entry {
        Ok(RunEntry::Write { name, command }) => {
            &&& enabled
            &&& exe matches Ok(path)
            &&& name@ == value_name_text()
            &&& command@ == command_text(path@)
        },
        Ok(RunEntry::Remove { name }) => !enabled && name@ == value_name_text(),
        Err(error) => {
            &&& enabled
            &&& exe matches Err(reason)
            &&& error == AutostartError::ExecutablePath(reason)
        },
    }
}

/// The values under the autostart key, each by its name.
pub type Values = Map<Seq<char>, Seq<char>>;

/// The values once `entry` is carried out.
pub open spec fn carried_out(values: Values, entry: RunEntry) -> Values {
    match entry {
        RunEntry::Write { name, command } => values.insert(name@, command@),
        RunEntry::Remove { name } => values.remove(name@),
    }
}

/// What makes the registry match `enabled`: the entry is written, or removed.
/// `exe` is the path of the running executable, or the message why it is not
/// known; it is only needed for writing.
pub fn apply(enabled: bool, exe: Result<String, String>) -> (entry: Result<
    RunEntry,
    AutostartError,
>)
    ensures
        answers(entry, enabled, exe),
{
    let name = String::from_str("Resonance");
    if !enabled {
        return Ok(RunEntry::Remove { name });
    }
    match exe {
        Ok(path) => Ok(RunEntry::Write { name, command: format_command(path.as_str()) }),
        Err(reason) => Err(AutostartError::ExecutablePath(reason)),
    }
}

/// What the status of a registry call means: whether there is more to do, or
/// the error. When an entry is removed, a key or a value that is not there is
/// what was asked for, so there is nothing more to do.
pub fn registry_result(call: RegistryCall, status: u32) -> (result: Result<bool, AutostartError>)
    ensures
        result == if status == ERROR_SUCCESS {
            Ok::<bool, AutostartError>(true)
        } else if status == ERROR_FILE_NOT_FOUND && (call == RegistryCall::OpenKey || call
            == RegistryCall::DeleteValue) {
            Ok(false)
        } else {
            Err(AutostartError::Registry { operation: call, code: status })
        },
{
    if status == ERROR_SUCCESS {
        Ok(true)
    } else if status == ERROR_FILE_NOT_FOUND && (call == RegistryCall::OpenKey || call
        == RegistryCall::DeleteValue) {
        Ok(false)
    } else {
        Err(AutostartError::Registry { operation: call, code: status })
    }
}

/// Once the setting is applied, the value of this application is there exactly
/// when it is enabled, it starts the executable, and every other value is what it
/// was.
pub proof fn only_the_own_value_changes(
    values: Values,
    enabled: bool,
    exe: Result<String, String>,
    entry: RunEntry,
    name: Seq<char>,
)
    requires
        answers(Ok(entry), enabled, exe),
    ensures
        carried_out(values, entry).contains_key(value_name_text()) == enabled,
        enabled ==> exe is Ok && carried_out(values, entry)[value_name_text()] == command_text(
            exe->Ok_0@,
        ),
        name != value_name_text() ==> {
            &&& carried_out(values, entry).contains_key(name) == values.contains_key(name)
            &&& values.contains_key(name) ==> carried_out(values, entry)[name] == values[name]
        },
{
}

/// Applying the setting a second time changes nothing more, whether it is on or
/// off.
pub proof fn applying_twice_is_applying_once(
    values: Values,
    enabled: bool,
    exe: Result<String, String>,
    first: RunEntry,
    second: RunEntry,
)
    requires
        answers(Ok(first), enabled, exe),
        answers(Ok(second), enabled, exe),
    ensures
        carried_out(carried_out(values, first), second) == carried_out(values, first),
{
}

/// Turning the setting off undoes turning it on, and leaves the values as they
/// were where there was no entry before. Where there is no entry, turning it off
/// changes nothing.
pub proof fn off_undoes_on(
    values: Values,
    exe: Result<String, String>,
    later_exe: Result<String, String>,
    on: RunEntry,
    off: RunEntry,
)
    requires
        answers(Ok(on), true, exe),
        answers(Ok(off), false, later_exe),
    ensures
        carried_out(carried_out(values, on), off) == carried_out(values, off),
        !values.contains_key(value_name_text()) ==> carried_out(values, off) == values,
        !values.contains_key(value_name_text()) ==> carried_out(carried_out(values, on), off)
            == values,
{
}

/// The command of the entry is the path between quotes, and behind it the one argument
/// that starts the application with its overlay.
pub proof fn path_stands_between_quotes(exe: Seq<char>)
    ensures
        command_text(exe).len() == exe.len() + 12,
        command_text(exe)[0] == '"',
        command_text(exe).subrange(1, exe.len() as int + 1) == exe,
        command_text(exe)[exe.len() as int + 1] == '"',
        command_text(exe).skip(exe.len() as int + 2) == " --overlay"@,
        value_name_text() == "Resonance"@,
        run_key_path_text() == "Software\\Microsoft\\Windows\\CurrentVersion\\Run"@,
{
    reveal_strlit("\"");
    reveal_strlit("\" --overlay");
    reveal_strlit(" --overlay");
    assert(command_text(exe).subrange(1, exe.len() as int + 1) =~= exe);
    assert(command_text(exe).skip(exe.len() as int + 2) =~= " --overlay"@);
}

/// An error names the call that failed, and its status in decimal, or says why the path
/// is not known.
pub proof fn error_names_the_call(error: AutostartError)
    ensures
        error matches AutostartError::ExecutablePath(reason) ==> error_text(error)
            == "could not determine the executable path: "@ + reason@,
        error matches AutostartError::Registry { operation, code } ==> error_text(error)
            == call_name(operation) + " failed with Win32 error "@ + text::decimal(code as nat),
        call_name(RegistryCall::CreateKey) == "RegCreateKeyExW"@,
        call_name(RegistryCall::OpenKey) == "RegOpenKeyExW"@,
        call_name(RegistryCall::SetValue) == "RegSetValueExW"@,
        call_name(RegistryCall::DeleteValue) == "RegDeleteValueW"@,
{
}

/// A call that succeeded goes on; of those that failed, only opening a key or deleting a
/// value that is not there is no error, and there is nothing more to do then.
pub proof fn missing_entry_is_as_good_as_removed(
    call: RegistryCall,
    status: u32,
    result: Result<bool, AutostartError>,
)
    requires
        call_ensures(registry_result, (call, status), result),
    ensures
        status == 0 <==> result == Ok::<bool, AutostartError>(true),
        result == Ok::<bool, AutostartError>(false) <==> status == 2 && !(call
            == RegistryCall::CreateKey) && !(call == RegistryCall::SetValue),
        result matches Err(error) ==> error matches AutostartError::Registry { operation, code }
            && operation == call && code == status,
{
}

} // verus!

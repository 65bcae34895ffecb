//! Human-readable names and descriptions of assertions.
use vstd::prelude::*;
use crate::extractor::model::{AssertionKind, AssertionKindV, PackageManager};
use crate::parser::ast::opt_view;
use crate::text::{
    decimal, decimal_i32, decimal_int, decimal_string, push_str, str_from, string_views,
};

verus! {

pub open spec fn kind_name(k: AssertionKindV) -> Seq<char> {
    match k {
        AssertionKindV::FileExists { .. } => "file"@,
        AssertionKindV::PortListening { .. } => "port"@,
        AssertionKindV::ProcessRunning { .. } => "process"@,
        AssertionKindV::CommandExit { .. } => "command"@,
        AssertionKindV::CommandOutput { .. } => "command (with output)"@,
        AssertionKindV::UserExists { .. } => "user"@,
        AssertionKindV::HealthcheckPasses { .. } => "healthcheck"@,
        AssertionKindV::HttpStatus { .. } => "http"@,
        AssertionKindV::PackageInstalled { .. } => "package"@,
    }
}

/// The short type name of an assertion.
pub fn assertion_type_name(kind: &AssertionKind) -> (r: &'static str)
    ensures
        r@ == kind_name(kind@),
{
    match kind {
        AssertionKind::FileExists { .. } => "file",
        AssertionKind::PortListening { .. } => "port",
        AssertionKind::ProcessRunning { .. } => "process",
        AssertionKind::CommandExit { .. } => "command",
        AssertionKind::CommandOutput { .. } => "command (with output)",
        AssertionKind::UserExists { .. } => "user",
        AssertionKind::HealthcheckPasses { .. } => "healthcheck",
        AssertionKind::HttpStatus { .. } => "http",
        AssertionKind::PackageInstalled { .. } => "package",
    }
}

pub open spec fn manager_name(m: PackageManager) -> Seq<char> {
    match m {
        PackageManager::Apt => "Apt"@,
        PackageManager::Apk => "Apk"@,
        PackageManager::Pip => "Pip"@,
        PackageManager::Npm => "Npm"@,
        PackageManager::Composer => "Composer"@,
    }
}

/// The `Debug` rendering of a list of strings (`["a", "b"]`, each string quoted
/// and escaped as `Debug` does).
pub uninterp spec fn debug_list_of(items: Seq<Seq<char>>) -> Seq<char>;

/// Relies on the `Debug` impl of `Vec<String>` (through `format!("{:?}")`): the
/// text depends on the strings alone.
#[verifier::external_body]
fn debug_list(items: &Vec<String>) -> (r: String)
    ensures
        r@ == debug_list_of(string_views(items@)),
{
    format!("{:?}", items)
}

/// A one-line description of an assertion.
pub open spec fn description(k: AssertionKindV) -> Seq<char> {
    match k {
        AssertionKindV::FileExists { path, filetype, mode } => "File '"@ + path + "' exists"@
            + match filetype {
            Some(ft) => " (type: "@ + ft + ")"@,
            None => seq![],
        } + match mode {
            Some(m) => " (mode: "@ + m + ")"@,
            None => seq![],
        },
        AssertionKindV::PortListening { protocol, port } => "Port "@ + decimal(port as nat) + "/"@
            + protocol + " is listening"@,
        AssertionKindV::ProcessRunning { name } => "Process '"@ + name + "' is running"@,
        AssertionKindV::CommandExit { command, exit_status } => "Command '"@ + command
            + "' exits with status "@ + decimal_int(exit_status as int),
        AssertionKindV::CommandOutput { command, exit_status, expected_output } => "Command '"@
            + command + "' exits with status "@ + decimal_int(exit_status as int)
            + " and outputs "@ + debug_list_of(expected_output),
        AssertionKindV::UserExists { username } => "User '"@ + username + "' exists"@,
        AssertionKindV::HealthcheckPasses { command } => "Healthcheck '"@ + command + "' passes"@,
        AssertionKindV::HttpStatus { url, status } => "HTTP "@ + url + " returns status "@
            + decimal(status as nat),
        AssertionKindV::PackageInstalled { package, manager, .. } => "Package '"@ + package
            + "' installed via "@ + manager_name(manager),
    }
}

fn manager_str(m: PackageManager) -> (r: &'static str)
    ensures
        r@ == manager_name(m),
{
    match m {
        PackageManager::Apt => "Apt",
        PackageManager::Apk => "Apk",
        PackageManager::Pip => "Pip",
        PackageManager::Npm => "Npm",
        PackageManager::Composer => "Composer",
    }
}

/// A one-line description of an assertion.
pub fn assertion_description(kind: &AssertionKind) -> (r: String)
    ensures
        r@ == description(kind@),
{
    match kind {
        AssertionKind::FileExists { path, filetype, mode } => {
            let mut d = str_from("File '");
            push_str(&mut d, path.as_str());
            push_str(&mut d, "' exists");
            let ghost d1 = d@;
            match filetype {
                Some(ft) => {
                    push_str(&mut d, " (type: ");
                    push_str(&mut d, ft.as_str());
                    push_str(&mut d, ")");
                    assert(d@ =~= d1 + (" (type: "@ + ft@ + ")"@));
                },
                None => {
                    assert(d@ =~= d1 + Seq::<char>::empty());
                },
            }
            let ghost d2 = d@;
            match mode {
                Some(m) => {
                    push_str(&mut d, " (mode: ");
                    push_str(&mut d, m.as_str());
                    push_str(&mut d, ")");
                    assert(d@ =~= d2 + (" (mode: "@ + m@ + ")"@));
                },
                None => {
                    assert(d@ =~= d2 + Seq::<char>::empty());
                },
            }
            d
        },
        AssertionKind::PortListening { protocol, port } => {
            let mut d = str_from("Port ");
            push_str(&mut d, decimal_string(*port as u64).as_str());
            push_str(&mut d, "/");
            push_str(&mut d, protocol.as_str());
            push_str(&mut d, " is listening");
            d
        },
        AssertionKind::ProcessRunning { name } => {
            let mut d = str_from("Process '");
            push_str(&mut d, name.as_str());
            push_str(&mut d, "' is running");
            d
        },
        AssertionKind::CommandExit { command, exit_status } => {
            let mut d = str_from("Command '");
            push_str(&mut d, command.as_str());
            push_str(&mut d, "' exits with status ");
            push_str(&mut d, decimal_i32(*exit_status).as_str());
            d
        },
        AssertionKind::CommandOutput { command, exit_status, expected_output } => {
            let mut d = str_from("Command '");
            push_str(&mut d, command.as_str());
            push_str(&mut d, "' exits with status ");
            push_str(&mut d, decimal_i32(*exit_status).as_str());
            push_str(&mut d, " and outputs ");
            push_str(&mut d, debug_list(expected_output).as_str());
            d
        },
        AssertionKind::UserExists { username } => {
            let mut d = str_from("User '");
            push_str(&mut d, username.as_str());
            push_str(&mut d, "' exists");
            d
        },
        AssertionKind::HealthcheckPasses { command } => {
            let mut d = str_from("Healthcheck '");
            push_str(&mut d, command.as_str());
            push_str(&mut d, "' passes");
            d
        },
        AssertionKind::HttpStatus { url, status } => {
            let mut d = str_from("HTTP ");
            push_str(&mut d, url.as_str());
            push_str(&mut d, " returns status ");
            push_str(&mut d, decimal_string(*status as u64).as_str());
            d
        },
        AssertionKind::PackageInstalled { package, manager, .. } => {
            let mut d = str_from("Package '");
            push_str(&mut d, package.as_str());
            push_str(&mut d, "' installed via ");
            push_str(&mut d, manager_str(*manager));
            d
        },
    }
}

} // verus!

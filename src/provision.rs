use vstd::prelude::*;
use vstd::string::*;
use crate::release::ReleaseInfo;
use crate::text::{trim, trimmed};

verus! {

/// Steam application of the game.
pub const APP_ID: &'static str = "3301060";
/// Depot of the game's files.
pub const DEPOT_ID: &'static str = "3301061";
/// Manifest of the game build that is installed.
pub const MANIFEST_ID: &'static str = "2467897585300615012";

/// Version of the mod loader that is installed.
pub const MELONLOADER_VERSION: &'static str = "v0.6.6";
/// Archive of that version.
pub const MELONLOADER_URL: &'static str =
    "https://github.com/LavaGang/MelonLoader/releases/download/v0.6.6/MelonLoader.x64.zip";

/// The mod loader's release: pinned, not looked up.
pub fn pinned_melonloader() -> (r: ReleaseInfo)
    ensures
        r.tag_name@ == MELONLOADER_VERSION@,
        r.download_url@ == MELONLOADER_URL@,
{
    ReleaseInfo {
        tag_name: String::from_str(MELONLOADER_VERSION),
        download_url: String::from_str(MELONLOADER_URL),
    }
}

/// Texts as character sequences.
pub open spec fn strings_view(v: Seq<String>) -> Seq<Seq<char>> {
    v.map_values(|s: String| s@)
}

/// Arguments of the depot download tool: the game's application, depot and
/// manifest, the account, and the installation directory.
pub fn depot_arguments(user: &str, password: &str, dir: &str) -> (r: Vec<String>)
    ensures
        strings_view(r@) == seq![
            "-app"@, APP_ID@, "-depot"@, DEPOT_ID@, "-manifest"@, MANIFEST_ID@,
            "-username"@, user@, "-password"@, password@, "-dir"@, dir@,
        ],
{
    let mut v: Vec<String> = Vec::new();
    v.push(String::from_str("-app"));
    v.push(String::from_str(APP_ID));
    v.push(String::from_str("-depot"));
    v.push(String::from_str(DEPOT_ID));
    v.push(String::from_str("-manifest"));
    v.push(String::from_str(MANIFEST_ID));
    v.push(String::from_str("-username"));
    v.push(String::from_str(user));
    v.push(String::from_str("-password"));
    v.push(String::from_str(password));
    v.push(String::from_str("-dir"));
    v.push(String::from_str(dir));
    assert(strings_view(v@) =~= seq![
        "-app"@, APP_ID@, "-depot"@, DEPOT_ID@, "-manifest"@, MANIFEST_ID@,
        "-username"@, user@, "-password"@, password@, "-dir"@, dir@,
    ]);
    v
}

/// The arguments' line that the log records: each argument followed by one
/// space, the last by none.
pub open spec fn joined(v: Seq<Seq<char>>) -> Seq<char>
    decreases v.len(),
{
    if v.len() == 0 {
        Seq::empty()
    } else if v.len() == 1 {
        v[0]
    } else {
        joined(v.drop_last()) + " "@ + v.last()
    }
}

/// Joins arguments with single spaces.
pub fn join_arguments(args: &Vec<String>) -> (r: String)
    ensures
        r@ == joined(strings_view(args@)),
{
    let mut s = String::new();
    let mut i: usize = 0;
    while i < args.len()
        invariant
            i <= args@.len(),
            s@ == joined(strings_view(args@.take(i as int))),
        decreases args@.len() - i,
    {
        assert(strings_view(args@.take(i as int + 1)).drop_last() =~= strings_view(args@.take(i as int)));
        if i > 0 {
            s.append(" ");
        }
        s.append(args[i].as_str());
        i = i + 1;
        assert(strings_view(args@.take(i as int)).last() == args@[i - 1]@);
    }
    assert(args@.take(args@.len() as int) =~= args@);
    s
}

/// Relies on `uuid::Uuid::new_v4` and its hyphenated text form: a random
/// identifier of 36 characters.
#[verifier::external_body]
fn random_id() -> (r: String)
    ensures
        r@.len() == 36,
{
    uuid::Uuid::new_v4().to_string()
}

/// A staging file name that concurrent runs do not share: the prefix, `_`, a
/// random identifier of 36 characters, and `.zip`.
pub fn staging_archive_name(prefix: &str) -> (r: String)
    ensures
        exists|id: Seq<char>| id.len() == 36 && r@ == prefix@ + "_"@ + id + ".zip"@,
{
    let id = random_id();
    let mut s = String::from_str(prefix);
    s.append("_");
    s.append(id.as_str());
    s.append(".zip");
    s
}

/// One line of the installation log.
pub fn log_line(timestamp: &str, message: &str) -> (r: String)
    ensures
        r@ == timestamp@ + " - "@ + message@,
{
    let mut s = String::from_str(timestamp);
    s.append(" - ");
    s.append(message);
    s
}

/// The statement that sets a shortcut's arguments, or nothing where the
/// arguments are blank.
pub open spec fn arguments_statement(arguments: Seq<char>) -> Seq<char> {
    if trimmed(arguments).len() == 0 {
        Seq::empty()
    } else {
        "$Shortcut.Arguments = \""@ + arguments + "\";"@
    }
}

/// PowerShell script that creates a shortcut through the Windows scripting host.
pub open spec fn shortcut_script_text(link: Seq<char>, target: Seq<char>, work_dir: Seq<char>, arguments: Seq<char>) -> Seq<char> {
    "\n$WshShell = New-Object -ComObject WScript.Shell;\n$Shortcut = $WshShell.CreateShortcut(\""@
        + link + "\");\n$Shortcut.TargetPath = \""@ + target
        + "\";\n$Shortcut.WorkingDirectory = \""@ + work_dir + "\";\n"@
        + arguments_statement(arguments) + "\n$Shortcut.Save();\n"@
}

/// Builds the script that creates the shortcut `link` to `target`, started in
/// `work_dir` with `arguments`.
pub fn shortcut_script(link: &str, target: &str, work_dir: &str, arguments: &str) -> (r: String)
    ensures
        r@ == shortcut_script_text(link@, target@, work_dir@, arguments@),
{
    let mut s = String::from_str("\n$WshShell = New-Object -ComObject WScript.Shell;\n$Shortcut = $WshShell.CreateShortcut(\"");
    s.append(link);
    s.append("\");\n$Shortcut.TargetPath = \"");
    s.append(target);
    s.append("\";\n$Shortcut.WorkingDirectory = \"");
    s.append(work_dir);
    s.append("\";\n");
    let t = trim(arguments);
    if t.unicode_len() > 0 {
        s.append("$Shortcut.Arguments = \"");
        s.append(arguments);
        s.append("\";");
    }
    s.append("\n$Shortcut.Save();\n");
    s
}

} // verus!

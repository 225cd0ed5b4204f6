//! What the command line leaves unsaid, and what the client tells its user.
use crate::path::FilePath;
use crate::types::{told, FromTo};
use vstd::prelude::*;
use vstd::string::*;

verus! {

/// Where the records are kept if nothing else is said.
pub const DEFAULT_DB: &'static str = "/etc/cross-device-link.csv";

/// Where the server is reached if nothing else is said.
pub const DEFAULT_UDS: &'static str = "/var/run/cross-device-link.socket";

/// What a client says before it has a syncing stopped.
pub const DEL_NOTICE: &'static str =
    "Note: Target files won't be removed. This command just stops the syncing.";

/// What is said of a target that is there, or may be.
pub open spec fn target_notice(dst: Seq<char>, found: Result<bool, Seq<char>>) -> Option<
    Seq<char>,
> {
    match found {
        Ok(true) => Some("Target file "@ + dst + " exists, will be overwritten."@),
        Ok(false) => None,
        Err(e) => Some(
            "Cannot check target file "@ + dst + " existence for reason "@ + e
                + ", will proceed."@,
        ),
    }
}

/// What to tell of the target `dst`, which is there or not, or could not be looked
/// for because of the error.
pub fn overwrite_notice(dst: &FilePath, found: Result<bool, String>) -> (t: Option<String>)
    ensures
        t.deep_view() == target_notice(dst@, told(found)),
{
    match found {
        Ok(true) => {
            let mut t = "Target file ".to_owned();
            t.append(dst.text.as_str());
            t.append(" exists, will be overwritten.");
            Some(t)
        },
        Ok(false) => None,
        Err(e) => {
            let mut t = "Cannot check target file ".to_owned();
            t.append(dst.text.as_str());
            t.append(" existence for reason ");
            t.append(e.as_str());
            t.append(", will proceed.");
            Some(t)
        },
    }
}

/// The line that shows a pair of files.
pub fn list_line(pair: &FromTo<FilePath>) -> (t: String)
    ensures
        t@ == pair@.from + " => "@ + pair@.to,
{
    let mut t = pair.from.text.clone();
    t.append(" => ");
    t.append(pair.to.text.as_str());
    t
}

/// A user hears of a target unless it is known not to be there: with its path, and with
/// the reason where it could not be looked for.
pub proof fn law_target_notice(dst: FilePath, found: Result<bool, String>, t: Option<String>)
    requires
        call_ensures(overwrite_notice, (&dst, found), t),
    ensures
        t is None <==> found == Ok::<bool, String>(false),
        found == Ok::<bool, String>(true) ==> t->0@ == "Target file "@ + dst.text@
            + " exists, will be overwritten."@,
        found matches Err(e) ==> t->0@ == "Cannot check target file "@ + dst.text@
            + " existence for reason "@ + e@ + ", will proceed."@,
{
}

/// The line that shows a pair starts with the source, ends with the target, and has an
/// arrow between them.
pub proof fn law_list_line(pair: FromTo<FilePath>, t: String)
    requires
        call_ensures(list_line, (&pair,), t),
    ensures
        t@.len() == pair.from.text@.len() + 4 + pair.to.text@.len(),
        t@.take(pair.from.text@.len() as int) == pair.from.text@,
        t@.skip(pair.from.text@.len() + 4int) == pair.to.text@,
        t@.subrange(pair.from.text@.len() as int, pair.from.text@.len() + 4int) == seq![
            ' ',
            '=',
            '>',
            ' ',
        ],
{
    reveal_strlit(" => ");
}

/// What is said before a syncing is stopped, and where the records are kept and the
/// server is reached if nothing else is said.
pub proof fn law_unsaid()
    ensures
        DEL_NOTICE@
            == "Note: Target files won't be removed. This command just stops the syncing."@,
        DEFAULT_DB@ == "/etc/cross-device-link.csv"@,
        DEFAULT_UDS@ == "/var/run/cross-device-link.socket"@,
{
}

} // verus!

//! The sound-management commands: `delete`, `rename`, `upload` and `stats`.
//! Each decides from the command's arguments what file operation to run and
//! how to answer, given how that operation went.

use vstd::prelude::*;
use vstd::string::*;
use crate::text::{chars_of, string_from_chars, split_whitespace, words};
use crate::sounds::{sound_path, sound_path_of};
use crate::args::{first_argument, rest_after_first, split_arguments};

verus! {

/// Answer to `delete` or `play` without a sound name.
pub open spec fn missing_name_text() -> Seq<char> {
    "❌ Must provide a sound name"@
}

/// Answer to `delete` when the file could not be removed.
pub open spec fn no_such_sound_text() -> Seq<char> {
    "❌ Sound name doesn't exist!"@
}

/// Answer to `delete` when the file was removed.
pub open spec fn deleted_text(name: Seq<char>) -> Seq<char> {
    "✅ **"@ + name + "** was deleted!"@
}

/// A sound to delete: its name and its file.
#[derive(Debug, PartialEq, Eq)]
pub struct DeletePlan {
    pub name: String,
    pub path: String,
}

/// `delete`: the sound named by the first argument `first`, or the answer
/// when there is none.
pub fn delete_target_for(first: Option<String>) -> (r: Result<DeletePlan, String>)
    ensures
        match first {
            None => r matches Err(m) && m@ == missing_name_text(),
            Some(name) => r matches Ok(p) && p.name@ == name@ && p.path@ == sound_path_of(name@),
        },
{
    match first {
        None => Err(String::from_str("❌ Must provide a sound name")),
        Some(name) => {
            let path = sound_path(name.as_str());
            Ok(DeletePlan { name, path })
        },
    }
}

/// `delete`: the sound named by the first argument of the argument text
/// `args_text`, or the answer when there is none.
pub fn delete_target(args_text: &str) -> (r: Result<DeletePlan, String>)
    ensures
        match first_argument(args_text@) {
            None => r matches Err(m) && m@ == missing_name_text(),
            Some(name) => r matches Ok(p) && p.name@ == name && p.path@ == sound_path_of(name),
        },
{
    let (first, _) = split_arguments(args_text);
    delete_target_for(first)
}

/// `delete`: the answer once removing the file of `name` succeeded
/// (`removed`) or failed.
pub fn delete_reply(name: &str, removed: bool) -> (r: String)
    ensures
        r@ == (if removed { deleted_text(name@) } else { no_such_sound_text() }),
{
    if removed {
        let mut r = String::from_str("✅ **");
        r.append(name);
        r.append("** was deleted!");
        r
    } else {
        String::from_str("❌ Sound name doesn't exist!")
    }
}

/// Answer to `rename` without any argument.
pub open spec fn rename_missing_old_text() -> Seq<char> {
    "❌ Error! Must provide an existing sound name!"@
}

/// Answer to `rename` without a new name.
pub open spec fn rename_missing_new_text() -> Seq<char> {
    "❌ Error! Must provide a new sound name!"@
}

/// Answer to `rename` when the file could not be renamed.
pub open spec fn rename_failed_text() -> Seq<char> {
    "❌ Error! Sound doesn't exist!"@
}

/// Answer to `rename` when the file was renamed.
pub open spec fn renamed_text(old: Seq<char>, new: Seq<char>) -> Seq<char> {
    "✅ Sound name **"@ + old + "** has been changed to **"@ + new + "**."@
}

/// A rename to perform: the two sound names and their files.
#[derive(Debug, PartialEq, Eq)]
pub struct RenamePlan {
    pub old_name: String,
    pub new_name: String,
    pub old_path: String,
    pub new_path: String,
}

/// `rename`: from the first argument and the rest of the arguments, the
/// rename to perform (the new name is the first word of the rest), or the
/// answer when a name is missing.
pub fn rename_plan_for(first: Option<String>, rest: &str) -> (r: Result<RenamePlan, String>)
    ensures
        match first {
            None => r matches Err(m) && m@ == rename_missing_old_text(),
            Some(old) => if words(rest@).len() == 0 {
                r matches Err(m) && m@ == rename_missing_new_text()
            } else {
                r matches Ok(p) && p.old_name@ == old@ && p.new_name@ == words(rest@)[0]
                    && p.old_path@ == sound_path_of(old@) && p.new_path@ == sound_path_of(
                    words(rest@)[0],
                )
            },
        },
{
    match first {
        None => Err(String::from_str("❌ Error! Must provide an existing sound name!")),
        Some(old) => {
            let ws = split_whitespace(rest);
            if ws.len() == 0 {
                return Err(String::from_str("❌ Error! Must provide a new sound name!"));
            }
            let new = ws[0].clone();
            assert(ws.deep_view()[0] == ws@[0]@);
            let old_path = sound_path(old.as_str());
            let new_path = sound_path(new.as_str());
            Ok(RenamePlan { old_name: old, new_name: new, old_path, new_path })
        },
    }
}

/// `rename`: the rename asked for by the argument text `args_text` (the old
/// name is its first argument, the new name the first word of the rest), or
/// the answer when a name is missing.
pub fn rename_plan(args_text: &str) -> (r: Result<RenamePlan, String>)
    ensures
        match first_argument(args_text@) {
            None => r matches Err(m) && m@ == rename_missing_old_text(),
            Some(old) => {
                let rest = rest_after_first(args_text@);
                if words(rest).len() == 0 {
                    r matches Err(m) && m@ == rename_missing_new_text()
                } else {
                    r matches Ok(p) && p.old_name@ == old && p.new_name@ == words(rest)[0]
                        && p.old_path@ == sound_path_of(old) && p.new_path@ == sound_path_of(
                        words(rest)[0],
                    )
                }
            },
        },
{
    let (first, rest) = split_arguments(args_text);
    rename_plan_for(first, rest.as_str())
}

/// `rename`: the answer once renaming `plan` succeeded (`renamed`) or failed.
pub fn rename_reply(plan: &RenamePlan, renamed: bool) -> (r: String)
    ensures
        r@ == (if renamed {
            renamed_text(plan.old_name@, plan.new_name@)
        } else {
            rename_failed_text()
        }),
{
    if renamed {
        let mut r = String::from_str("✅ Sound name **");
        r.append(plan.old_name.as_str());
        r.append("** has been changed to **");
        r.append(plan.new_name.as_str());
        r.append("**.");
        r
    } else {
        String::from_str("❌ Error! Sound doesn't exist!")
    }
}

/// Answer to `upload` without an attachment.
pub open spec fn no_attachment_text() -> Seq<char> {
    "❌ **You have to attach a file and use `upload` command as comment**"@
}

/// Answer to `upload` when the attachment is not an mp3 file.
pub open spec fn not_mp3_text() -> Seq<char> {
    "❌ **The uploaded file must be an mp3 file!**"@
}

/// Answer to `upload` once the sound is stored.
pub open spec fn uploaded_text(name: Seq<char>) -> Seq<char> {
    "✅ **The sound `"@ + name + "` has been uploaded you can find it in `list`**"@
}

/// The file name ends with the sound extension.
pub open spec fn is_mp3_name(f: Seq<char>) -> bool {
    f.len() >= 4 && f.skip(f.len() - 4) == ".mp3"@
}

/// Where the first `.` of `s` stands, or its length when it has none.
pub open spec fn first_dot(s: Seq<char>) -> nat
    decreases s.len(),
{
    if s.len() == 0 {
        0
    } else if s[0] == '.' {
        0
    } else {
        1 + first_dot(s.drop_first())
    }
}

/// The part of a file name before its first `.`: the first piece of
/// `split(".")`.
pub open spec fn file_stem(f: Seq<char>) -> Seq<char> {
    f.take(first_dot(f) as int)
}

proof fn lemma_first_dot_bound(s: Seq<char>)
    ensures
        first_dot(s) <= s.len(),
    decreases s.len(),
{
    if s.len() > 0 && s[0] != '.' {
        lemma_first_dot_bound(s.drop_first());
    }
}

/// The part of `f` before its first `.`.
pub fn file_stem_of(f: &str) -> (r: String)
    ensures
        r@ == file_stem(f@),
{
    let cs = chars_of(f);
    let mut i: usize = 0;
    proof {
        lemma_first_dot_bound(f@);
        assert(f@.skip(0) =~= f@);
    }
    while i < cs.len() && cs[i] != '.'
        invariant
            i <= cs@.len(),
            cs@ == f@,
            first_dot(f@) == i + first_dot(f@.skip(i as int)),
        decreases cs@.len() - i,
    {
        assert(f@.skip(i as int).drop_first() =~= f@.skip(i + 1));
        i = i + 1;
    }
    string_from_chars(&cs, 0, i)
}

/// Whether the file name `f` ends with `.mp3`.
pub fn is_mp3_file(f: &str) -> (r: bool)
    ensures
        r == is_mp3_name(f@),
{
    proof {
        reveal_strlit(".mp3");
    }
    let cs = chars_of(f);
    let n = cs.len();
    if n < 4 {
        return false;
    }
    let r = cs[n - 4] == '.' && cs[n - 3] == 'm' && cs[n - 2] == 'p' && cs[n - 1] == '3';
    let ghost tail = f@.skip(n - 4);
    let ghost ext = ".mp3"@;
    assert(tail.len() == 4 && tail[0] == cs@[n - 4] && tail[1] == cs@[n - 3] && tail[2] == cs@[n
        - 2] && tail[3] == cs@[n - 1]);
    assert(ext.len() == 4 && ext[0] == '.' && ext[1] == 'm' && ext[2] == 'p' && ext[3] == '3');
    if r {
        assert(tail =~= ext);
    } else {
        assert(tail != ext);
    }
    r
}

/// `upload`: from the attachment's file name (`None` without attachment) and
/// the first argument, the name to store the sound under (the argument, or
/// else the file name before its first `.`), or the answer when the upload
/// is refused.
pub fn upload_name_for(attachment: Option<String>, first: Option<String>) -> (r: Result<
    String,
    String,
>)
    ensures
        match attachment {
            None => r matches Err(m) && m@ == no_attachment_text(),
            Some(f) => if !is_mp3_name(f@) {
                r matches Err(m) && m@ == not_mp3_text()
            } else {
                r matches Ok(name) && name@ == (match first {
                    Some(a) => a@,
                    None => file_stem(f@),
                })
            },
        },
{
    match attachment {
        None => Err(
            String::from_str("❌ **You have to attach a file and use `upload` command as comment**"),
        ),
        Some(f) => {
            if !is_mp3_file(f.as_str()) {
                return Err(String::from_str("❌ **The uploaded file must be an mp3 file!**"));
            }
            match first {
                Some(a) => Ok(a),
                None => Ok(file_stem_of(f.as_str())),
            }
        },
    }
}

/// `upload`: from the attachment's file name (`None` without attachment) and
/// the argument text, the name to store the sound under (the first
/// argument, or else the file name before its first `.`), or the answer when
/// the upload is refused.
pub fn upload_name(attachment: Option<String>, args_text: &str) -> (r: Result<String, String>)
    ensures
        match attachment {
            None => r matches Err(m) && m@ == no_attachment_text(),
            Some(f) => if !is_mp3_name(f@) {
                r matches Err(m) && m@ == not_mp3_text()
            } else {
                r matches Ok(name) && name@ == (match first_argument(args_text@) {
                    Some(a) => a,
                    None => file_stem(f@),
                })
            },
        },
{
    let (first, _) = split_arguments(args_text);
    upload_name_for(attachment, first)
}

/// `upload`: the answer once the sound `name` is stored.
pub fn upload_reply(name: &str) -> (r: String)
    ensures
        r@ == uploaded_text(name@),
{
    let mut r = String::from_str("✅ **The sound `");
    r.append(name);
    r.append("` has been uploaded you can find it in `list`**");
    r
}

/// The statistics message for the given memory and processor usage texts.
pub open spec fn stats_text(memory: Seq<char>, cpu: Seq<char>) -> Seq<char> {
    "```= STATISTICS =• Mem Usage  :: "@ + memory + "\n• CPU Usage  :: "@ + cpu + "```"@
}

/// `stats`: the statistics message.
pub fn stats_message(memory: &str, cpu: &str) -> (r: String)
    ensures
        r@ == stats_text(memory@, cpu@),
{
    let mut r = String::from_str("```= STATISTICS =• Mem Usage  :: ");
    r.append(memory);
    r.append("\n• CPU Usage  :: ");
    r.append(cpu);
    r.append("```");
    r
}

} // verus!

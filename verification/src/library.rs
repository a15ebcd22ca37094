//! Messages and checks around the knowledge base as a whole: deleting an
//! entry, and importing a backup.

use vstd::prelude::*;
use crate::text::{chars_of, decimal, decimal_exec, extend, extend_str, owned, signed_decimal, signed_decimal_exec, string_of};

verus! {

/// The format tag of a full backup.
pub const BACKUP_FORMAT: &'static str = "de_ai_hilfer_backup_v1";

/// The answer to a delete: refused when no entry was removed.
pub fn delete_outcome(affected: u64, entry_id: i64) -> (r: Result<String, String>)
    ensures
        affected == 0 ==> (r is Err && r->Err_0@ == "knowledge entry not found"@),
        affected > 0 ==> (r is Ok && r->Ok_0@ == "已删除词条 #"@ + signed_decimal(entry_id as int)),
{
    if affected == 0 {
        return Err(owned("knowledge entry not found"));
    }
    let mut m = chars_of("已删除词条 #");
    let d = signed_decimal_exec(entry_id);
    extend(&mut m, &d);
    Ok(string_of(&m))
}

/// A backup is read only in its own format.
pub fn check_backup_format(format: &str) -> (r: Result<(), String>)
    ensures
        format@ == BACKUP_FORMAT@ ==> r is Ok,
        format@ != BACKUP_FORMAT@ ==> (r is Err && r->Err_0@ == "unsupported backup format: "@ + format@),
{
    let f = chars_of(format);
    let b = chars_of(BACKUP_FORMAT);
    if crate::text::same(&f, &b) {
        Ok(())
    } else {
        let mut m = chars_of("unsupported backup format: ");
        extend_str(&mut m, format);
        Err(string_of(&m))
    }
}

/// The message after a backup was imported.
pub fn import_message(entries: usize, follow_ups: usize, progress: usize) -> (r: String)
    ensures
        r@ == "已导入 "@ + decimal(entries as nat) + " 个词条、"@ + decimal(follow_ups as nat) + " 条追问和 "@
            + decimal(progress as nat) + " 条学习进度"@,
{
    let mut m = chars_of("已导入 ");
    extend(&mut m, &decimal_exec(entries));
    extend_str(&mut m, " 个词条、");
    extend(&mut m, &decimal_exec(follow_ups));
    extend_str(&mut m, " 条追问和 ");
    extend(&mut m, &decimal_exec(progress));
    extend_str(&mut m, " 条学习进度");
    string_of(&m)
}

} // verus!

//! Small plans for single files.

use vstd::prelude::*;
use crate::paths::file_name;
use crate::plan::{plan_view, required, required_step, Effect, FileOp, Step, StepView};
use crate::text::{
    after_last, after_last_bounds, chars_of, find_after_last, push_str, slice_of, string_of,
};

verus! {

/// `path` with the extension `ext` in the place of the extension of its file
/// name, or behind the name where it has none. A path without a file name
/// stays as it is.
pub open spec fn with_extension(path: Seq<char>, ext: Seq<char>) -> Seq<char> {
    let name = file_name(path);
    let k = after_last(name, '.');
    if name.len() == 0 {
        path
    } else if k <= 1 {
        path + seq!['.'] + ext
    } else {
        path.take(path.len() - name.len() + k) + ext
    }
}

/// `path` with the extension `ext`.
pub fn replace_extension(path: &str, ext: &str) -> (out: String)
    ensures
        out@ == with_extension(path@, ext@),
{
    let p = chars_of(path);
    let slash = find_after_last(&p, '/');
    proof {
        after_last_bounds(p@, '/');
        assert(p@.skip(slash as int) == p@.subrange(slash as int, p.len() as int));
    }
    let name = slice_of(&p, slash, p.len());
    if name.len() == 0 {
        return string_of(&p);
    }
    let k = find_after_last(&name, '.');
    proof {
        after_last_bounds(name@, '.');
    }
    if k <= 1 {
        let mut out = p;
        out.push('.');
        push_str(&mut out, ext);
        string_of(&out)
    } else {
        assert(p@.take(p.len() - name.len() + k) == p@.subrange(0, p.len() - name.len() + k));
        let mut out = slice_of(&p, 0, p.len() - name.len() + k);
        push_str(&mut out, ext);
        string_of(&out)
    }
}

/// The steps that copy `src` over `dest`: if `dest` exists it is first copied
/// to a file of the same name with the extension `bak`.
pub open spec fn backup_copy_plan(src: Seq<char>, dest: Seq<char>, dest_exists: bool) -> Seq<StepView> {
    if dest_exists {
        seq![
            required(Effect::Copy { from: dest, to: with_extension(dest, "bak"@) }),
            required(Effect::Copy { from: src, to: dest }),
        ]
    } else {
        seq![required(Effect::Copy { from: src, to: dest })]
    }
}

/// The steps that copy `src` over `dest`, keeping what `dest` held.
pub fn copy_with_backup(src: &str, dest: &str, dest_exists: bool) -> (plan: Vec<Step>)
    ensures
        plan_view(plan@) == backup_copy_plan(src@, dest@, dest_exists),
{
    let mut plan: Vec<Step> = Vec::new();
    if dest_exists {
        let backup = replace_extension(dest, "bak");
        plan.push(required_step(FileOp::Copy { from: dest.to_owned(), to: backup }));
    }
    plan.push(required_step(FileOp::Copy { from: src.to_owned(), to: dest.to_owned() }));
    assert(plan_view(plan@) =~= backup_copy_plan(src@, dest@, dest_exists));
    plan
}

/// The steps that delete `path`: one if it is present, none if it is not.
pub fn safe_remove(path: &str, present: bool) -> (plan: Vec<Step>)
    ensures
        plan_view(plan@) == if present {
            seq![required(Effect::Remove { path: path@ })]
        } else {
            Seq::empty()
        },
{
    let mut plan: Vec<Step> = Vec::new();
    if present {
        plan.push(required_step(FileOp::Remove { path: path.to_owned() }));
        assert(plan_view(plan@) =~= seq![required(Effect::Remove { path: path@ })]);
    } else {
        assert(plan_view(plan@) =~= Seq::<StepView>::empty());
    }
    plan
}

/// The step that lets everybody execute `path`.
pub fn make_executable(path: &str) -> (plan: Vec<Step>)
    ensures
        plan_view(plan@) == seq![required(Effect::MakeExecutable { path: path@ })],
{
    let mut plan: Vec<Step> = Vec::new();
    plan.push(required_step(FileOp::MakeExecutable { path: path.to_owned() }));
    assert(plan_view(plan@) =~= seq![required(Effect::MakeExecutable { path: path@ })]);
    plan
}

} // verus!

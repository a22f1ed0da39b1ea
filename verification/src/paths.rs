//! Paths as text with `/` between components: joining, the last component and
//! its extension, and the name under which a patched binary keeps its original.

use vstd::prelude::*;
use crate::text::{
    after_last, after_last_bounds, chars_of, ends_with, find_after_last, has_suffix, lower, lowered,
    push_all, push_str, slice_of, string_of,
};

verus! {

/// `name` below the directory `base`. An absolute `name` stands for itself, and
/// so does any `name` below the empty path.
pub open spec fn joined(base: Seq<char>, name: Seq<char>) -> Seq<char> {
    if name.len() > 0 && name[0] == '/' {
        name
    } else if base.len() == 0 {
        name
    } else if base.last() == '/' {
        base + name
    } else {
        base + seq!['/'] + name
    }
}

/// The last component of `path`: what follows its last `/`.
pub open spec fn file_name(path: Seq<char>) -> Seq<char> {
    path.skip(after_last(path, '/'))
}

/// The directory of `path`: what stands before its last `/`, the root for a
/// path directly below the root, and the empty path where there is no `/`.
pub open spec fn parent(path: Seq<char>) -> Seq<char> {
    let k = after_last(path, '/');
    if k <= 0 {
        Seq::empty()
    } else if k == 1 {
        seq!['/']
    } else {
        path.take(k - 1)
    }
}

/// The extension of the file name `name`: what follows its last `.`, provided
/// that the `.` is not the first character of the name.
pub open spec fn extension(name: Seq<char>) -> Option<Seq<char>> {
    let k = after_last(name, '.');
    if k <= 1 {
        None
    } else {
        Some(name.skip(k))
    }
}

/// The extension that marks a patchable binary.
pub open spec fn dll_suffix() -> Seq<char> {
    seq!['.', 'd', 'l', 'l']
}

/// The mark that the name of a backup carries before its extension.
pub open spec fn backup_mark() -> Seq<char> {
    seq!['_', 'o']
}

/// The name under which the original of the binary `name` is kept: the name
/// with `_o` before its extension `.dll`, which may be in any case. A name
/// without that extension has no backup name.
pub open spec fn backup_name(name: Seq<char>) -> Option<Seq<char>> {
    if has_suffix(lower(name), dll_suffix()) {
        Some(name.take(name.len() - 4) + backup_mark() + name.skip(name.len() - 4))
    } else {
        None
    }
}

/// The path of the file `name` in the directory of `path`.
pub open spec fn sibling(path: Seq<char>, name: Seq<char>) -> Seq<char> {
    path.take(after_last(path, '/')) + name
}

/// A backup name is never the name it was made from.
pub proof fn backup_name_differs(name: Seq<char>)
    requires
        backup_name(name) is Some,
    ensures
        backup_name(name)->0 != name,
{
    let b = backup_name(name)->0;
    assert(b.len() == name.len() + 2);
}

/// Two names with the same backup name are the same name.
pub proof fn backup_name_is_injective(a: Seq<char>, b: Seq<char>)
    requires
        backup_name(a) is Some,
        backup_name(b) is Some,
        backup_name(a) == backup_name(b),
    ensures
        a == b,
{
    let x = backup_name(a)->0;
    let y = backup_name(b)->0;
    assert(x.len() == a.len() + 2);
    assert(y.len() == b.len() + 2);
    assert forall|i: int| 0 <= i < a.len() implies a[i] == b[i] by {
        if i < a.len() - 4 {
            assert(x[i] == a[i]);
            assert(y[i] == b[i]);
        } else {
            assert(x[i + 2] == a[i]);
            assert(y[i + 2] == b[i]);
        }
    }
    assert(a =~= b);
}

/// A text without `c` behind another text does not move the last `c`.
pub proof fn after_last_ignores_tail(head: Seq<char>, tail: Seq<char>, c: char)
    requires
        forall|j: int| 0 <= j < tail.len() ==> tail[j] != c,
    ensures
        after_last(head + tail, c) == after_last(head, c),
    decreases tail.len(),
{
    if tail.len() == 0 {
        assert(head + tail =~= head);
    } else {
        let whole = head + tail;
        assert(whole.last() == tail.last());
        assert(whole.drop_last() =~= head + tail.drop_last());
        after_last_ignores_tail(head, tail.drop_last(), c);
    }
}

/// A path is its directory part followed by its file name, and the file name
/// holds no `/`.
pub proof fn path_splits(path: Seq<char>)
    ensures
        path == path.take(after_last(path, '/')) + file_name(path),
        forall|j: int| 0 <= j < file_name(path).len() ==> file_name(path)[j] != '/',
        after_last(path.take(after_last(path, '/')), '/') == after_last(path, '/'),
{
    after_last_bounds(path, '/');
    let k = after_last(path, '/');
    assert(path =~= path.take(k) + path.skip(k));
    let dir = path.take(k);
    crate::text::after_last_unique(dir, '/', k);
}

/// The file `name`, which holds no `/`, in the directory of `path` has the
/// file name `name` and the directory part of `path`.
pub proof fn sibling_splits(path: Seq<char>, name: Seq<char>)
    requires
        forall|j: int| 0 <= j < name.len() ==> name[j] != '/',
    ensures
        file_name(sibling(path, name)) == name,
        sibling(path, name).take(after_last(sibling(path, name), '/')) == path.take(
            after_last(path, '/'),
        ),
{
    path_splits(path);
    let dir = path.take(after_last(path, '/'));
    after_last_ignores_tail(dir, name, '/');
    after_last_bounds(path, '/');
    assert(after_last(dir + name, '/') == dir.len());
    assert((dir + name).skip(dir.len() as int) =~= name);
    assert((dir + name).take(dir.len() as int) =~= dir);
}

/// What `joined` puts before a relative name: nothing for the empty base, the
/// base itself if it ends in `/`, else the base and a `/`.
pub open spec fn base_prefix(base: Seq<char>) -> Seq<char> {
    if base.len() == 0 {
        base
    } else if base.last() == '/' {
        base
    } else {
        base + seq!['/']
    }
}

/// Behind a text that is empty or ends in `c`, the last `c` of what follows
/// is the last `c` of the whole.
pub proof fn after_last_behind_prefix(head: Seq<char>, tail: Seq<char>, c: char)
    requires
        head.len() == 0 || head.last() == c,
    ensures
        after_last(head + tail, c) == head.len() + after_last(tail, c),
    decreases tail.len(),
{
    if tail.len() == 0 {
        assert(head + tail =~= head);
        crate::text::after_last_unique(head, c, head.len() as int);
    } else {
        let whole = head + tail;
        assert(whole.last() == tail.last());
        if tail.last() != c {
            assert(whole.drop_last() =~= head + tail.drop_last());
            after_last_behind_prefix(head, tail.drop_last(), c);
        }
    }
}

/// Below one base, a relative name keeps its file name, and two relative names
/// that differ give paths that differ.
pub proof fn joined_relative(base: Seq<char>, a: Seq<char>, b: Seq<char>)
    requires
        a.len() > 0 && a[0] != '/',
        b.len() > 0 && b[0] != '/',
    ensures
        joined(base, a) == base_prefix(base) + a,
        file_name(joined(base, a)) == file_name(a),
        a != b ==> joined(base, a) != joined(base, b),
{
    let pre = base_prefix(base);
    assert(joined(base, a) =~= pre + a);
    assert(joined(base, b) =~= pre + b);
    after_last_behind_prefix(pre, a, '/');
    after_last_bounds(a, '/');
    assert((pre + a).skip(pre.len() + after_last(a, '/')) =~= a.skip(after_last(a, '/')));
    if joined(base, a) == joined(base, b) {
        assert((pre + a).skip(pre.len() as int) =~= a);
        assert((pre + b).skip(pre.len() as int) =~= b);
    }
}

/// A backup name holds no `/` if the name it was made from holds none.
pub proof fn backup_name_is_plain(name: Seq<char>)
    requires
        backup_name(name) is Some,
        forall|j: int| 0 <= j < name.len() ==> name[j] != '/',
    ensures
        forall|j: int| 0 <= j < backup_name(name)->0.len() ==> backup_name(name)->0[j] != '/',
{
    let b = backup_name(name)->0;
    assert forall|j: int| 0 <= j < b.len() implies b[j] != '/' by {
        if j < name.len() - 4 {
            assert(b[j] == name[j]);
        } else if j >= name.len() - 2 {
            assert(b[j] == name[j - 2]);
        }
    }
}

/// `name` below the directory `base`.
pub fn join_path(base: &str, name: &str) -> (out: String)
    ensures
        out@ == joined(base@, name@),
{
    let b = chars_of(base);
    let n = chars_of(name);
    if n.len() > 0 && n[0] == '/' {
        return string_of(&n);
    }
    if b.len() == 0 {
        return string_of(&n);
    }
    let mut out: Vec<char> = Vec::new();
    push_all(&mut out, &b);
    if b[b.len() - 1] != '/' {
        out.push('/');
        assert(out@ == b@ + seq!['/']);
    }
    push_all(&mut out, &n);
    string_of(&out)
}

/// The last component of `path`.
pub fn file_name_of(path: &str) -> (out: String)
    ensures
        out@ == file_name(path@),
{
    let p = chars_of(path);
    let k = find_after_last(&p, '/');
    proof {
        after_last_bounds(p@, '/');
        assert(p@.skip(k as int) == p@.subrange(k as int, p.len() as int));
    }
    let tail = slice_of(&p, k, p.len());
    string_of(&tail)
}

/// The directory of `path`.
pub fn parent_of(path: &str) -> (out: String)
    ensures
        out@ == parent(path@),
{
    let p = chars_of(path);
    let k = find_after_last(&p, '/');
    proof {
        after_last_bounds(p@, '/');
    }
    if k == 0 {
        String::new()
    } else if k == 1 {
        let mut out: Vec<char> = Vec::new();
        out.push('/');
        string_of(&out)
    } else {
        assert(p@.take(k - 1) == p@.subrange(0, k - 1));
        let head = slice_of(&p, 0, k - 1);
        string_of(&head)
    }
}

/// The extension of the file name `name`, if it has one.
pub fn extension_of(name: &str) -> (out: Option<String>)
    ensures
        match out {
            Some(e) => extension(name@) == Some(e@),
            None => extension(name@) is None,
        },
{
    let p = chars_of(name);
    let k = find_after_last(&p, '.');
    proof {
        after_last_bounds(p@, '.');
    }
    if k <= 1 {
        None
    } else {
        assert(p@.skip(k as int) == p@.subrange(k as int, p.len() as int));
        let tail = slice_of(&p, k, p.len());
        Some(string_of(&tail))
    }
}

/// The name under which the original of the binary `name` is kept, if `name`
/// ends in `.dll`.
pub fn backup_name_of(name: &str) -> (out: Option<String>)
    ensures
        match out {
            Some(b) => backup_name(name@) == Some(b@),
            None => backup_name(name@) is None,
        },
{
    let p = chars_of(name);
    let low = lowered(&p);
    let mut dll: Vec<char> = Vec::new();
    dll.push('.');
    dll.push('d');
    dll.push('l');
    dll.push('l');
    assert(dll@ == dll_suffix());
    if ends_with(&low, &dll) {
        assert(p@.take(p.len() - 4) == p@.subrange(0, p.len() - 4));
        assert(p@.skip(p.len() - 4) == p@.subrange(p.len() - 4, p.len() as int));
        let mut out = slice_of(&p, 0, p.len() - 4);
        out.push('_');
        out.push('o');
        let ext = slice_of(&p, p.len() - 4, p.len());
        push_all(&mut out, &ext);
        assert(out@ == p@.take(p.len() - 4) + backup_mark() + p@.skip(p.len() - 4));
        Some(string_of(&out))
    } else {
        None
    }
}

/// The path of the file `name` in the directory of `path`.
pub fn sibling_of(path: &str, name: &str) -> (out: String)
    ensures
        out@ == sibling(path@, name@),
{
    let p = chars_of(path);
    let k = find_after_last(&p, '/');
    proof {
        after_last_bounds(p@, '/');
        assert(p@.take(k as int) == p@.subrange(0, k as int));
    }
    let mut out = slice_of(&p, 0, k);
    crate::text::push_str(&mut out, name);
    string_of(&out)
}

} // verus!

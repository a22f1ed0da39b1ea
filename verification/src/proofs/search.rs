//! A whole search for library roots over a model of the disk: it ends, it finds
//! no root twice, and it finds every root that can be reached.

use vstd::prelude::*;
use crate::library::SearchView;

verus! {

/// The library roots of a disk: each path that is a library root, with the
/// roots that the library descriptor files in it name.
pub type Roots = Map<Seq<char>, Seq<Seq<char>>>;

/// The search after it has looked at the place that was next. A place that is
/// no library root, or a root that was found before, is passed over. A new
/// root is kept, and the roots that it names are looked at next.
pub open spec fn step(world: Roots, s: SearchView) -> SearchView {
    if s.pending.len() == 0 {
        s
    } else if world.dom().contains(s.pending[0]) && !s.found.contains(s.pending[0]) {
        SearchView {
            found: s.found.push(s.pending[0]),
            pending: world[s.pending[0]] + s.pending.drop_first(),
        }
    } else {
        SearchView { found: s.found, pending: s.pending.drop_first() }
    }
}

/// The number of library roots that were not found yet.
pub open spec fn unfound(world: Roots, found: Seq<Seq<char>>) -> nat {
    world.dom().difference(found.to_set()).len()
}

/// The roots found when the search `s` has come to its end on a disk with
/// finitely many library roots.
pub open spec fn searched(world: Roots, s: SearchView) -> Seq<Seq<char>>
    decreases unfound(world, s.found), s.pending.len(),
    when world.dom().finite()
    via searched_ends
{
    if s.pending.len() == 0 {
        s.found
    } else {
        searched(world, step(world, s))
    }
}

/// Each step of a search finds a root that was not found before, or leaves the
/// roots found as they are and has one place less to look at.
pub proof fn step_gets_closer(world: Roots, s: SearchView)
    requires
        world.dom().finite(),
        s.pending.len() > 0,
    ensures
        unfound(world, step(world, s).found) < unfound(world, s.found) || (unfound(
            world,
            step(world, s).found,
        ) == unfound(world, s.found) && step(world, s).pending.len() < s.pending.len()),
{
    let p = s.pending[0];
    if world.dom().contains(p) && !s.found.contains(p) {
        let before = world.dom().difference(s.found.to_set());
        let after = world.dom().difference(s.found.push(p).to_set());
        crate::text::pushed_texts(s.found, p);
        assert(before.contains(p));
        assert(after =~= before.remove(p));
        assert(before.finite());
        assert(after.len() == before.len() - 1);
    }
}

#[via_fn]
proof fn searched_ends(world: Roots, s: SearchView) {
    if s.pending.len() > 0 {
        step_gets_closer(world, s);
    }
}

/// A list with one more item holds what it held and the item.
proof fn pushed_holds(list: Seq<Seq<char>>, p: Seq<char>, x: Seq<char>)
    ensures
        list.push(p).contains(x) <==> list.contains(x) || x == p,
{
    if list.contains(x) {
        let i = choose|i: int| 0 <= i < list.len() && list[i] == x;
        assert(list.push(p)[i] == x);
    }
    if x == p {
        assert(list.push(p)[list.len() as int] == x);
    }
    if list.push(p).contains(x) {
        let i = choose|i: int| 0 <= i < list.push(p).len() && list.push(p)[i] == x;
        if i < list.len() {
            assert(list[i] == x);
        }
    }
}

/// Two lists one behind the other hold what either holds.
proof fn joined_holds(a: Seq<Seq<char>>, b: Seq<Seq<char>>, x: Seq<char>)
    ensures
        (a + b).contains(x) <==> a.contains(x) || b.contains(x),
{
    if a.contains(x) {
        let i = choose|i: int| 0 <= i < a.len() && a[i] == x;
        assert((a + b)[i] == x);
    }
    if b.contains(x) {
        let i = choose|i: int| 0 <= i < b.len() && b[i] == x;
        assert((a + b)[a.len() + i] == x);
    }
    if (a + b).contains(x) {
        let i = choose|i: int| 0 <= i < (a + b).len() && (a + b)[i] == x;
        if i < a.len() {
            assert(a[i] == x);
        } else {
            assert(b[i - a.len()] == x);
        }
    }
}

/// A list holds its first item and what the rest holds.
proof fn rest_holds(list: Seq<Seq<char>>, x: Seq<char>)
    requires
        list.len() > 0,
    ensures
        list.contains(x) <==> x == list[0] || list.drop_first().contains(x),
{
    if list.contains(x) {
        let i = choose|i: int| 0 <= i < list.len() && list[i] == x;
        if i > 0 {
            assert(list.drop_first()[i - 1] == x);
        }
    }
    if list.drop_first().contains(x) {
        let i = choose|i: int| 0 <= i < list.drop_first().len() && list.drop_first()[i] == x;
        assert(list[i + 1] == x);
    }
}

/// Every root found is a library root of the disk.
pub open spec fn within(world: Roots, found: Seq<Seq<char>>) -> bool {
    forall|x: Seq<char>| #[trigger] found.contains(x) ==> world.dom().contains(x)
}

/// The library root `p` names the library root `q`.
pub open spec fn names(world: Roots, p: Seq<char>, q: Seq<char>) -> bool {
    world.dom().contains(p) && world[p].contains(q) && world.dom().contains(q)
}

/// Every library root that a found root names is found or still to be looked at.
pub open spec fn accounted(world: Roots, s: SearchView) -> bool {
    forall|p: Seq<char>, q: Seq<char>|
        s.found.contains(p) && #[trigger] names(world, p, q) ==> s.found.contains(q)
            || s.pending.contains(q)
}

/// A search in good order: no root was found twice, every root found is a
/// library root, and what the found roots name is accounted for.
pub open spec fn in_order(world: Roots, s: SearchView) -> bool {
    s.found.no_duplicates() && within(world, s.found) && accounted(world, s)
}

/// A step keeps a search in good order, keeps what was found, and loses no
/// library root that was to be looked at.
proof fn step_keeps_order(world: Roots, s: SearchView)
    requires
        in_order(world, s),
        s.pending.len() > 0,
    ensures
        in_order(world, step(world, s)),
        forall|x: Seq<char>| s.found.contains(x) ==> #[trigger] step(world, s).found.contains(x),
        forall|x: Seq<char>|
            #[trigger] s.pending.contains(x) && world.dom().contains(x) ==> step(
                world,
                s,
            ).found.contains(x) || step(world, s).pending.contains(x),
{
    let p = s.pending[0];
    let rest = s.pending.drop_first();
    let t = step(world, s);
    assert forall|x: Seq<char>| s.found.contains(x) implies #[trigger] t.found.contains(x) by {
        pushed_holds(s.found, p, x);
    }
    assert forall|x: Seq<char>|
        #[trigger] s.pending.contains(x) && world.dom().contains(x) implies t.found.contains(x)
        || t.pending.contains(x) by {
        rest_holds(s.pending, x);
        pushed_holds(s.found, p, x);
        if world.dom().contains(p) && !s.found.contains(p) {
            joined_holds(world[p], rest, x);
        }
    }
    assert(within(world, t.found)) by {
        assert forall|x: Seq<char>| #[trigger] t.found.contains(x) implies world.dom().contains(
            x,
        ) by {
            pushed_holds(s.found, p, x);
        }
    }
    assert(accounted(world, t)) by {
        assert forall|a: Seq<char>, q: Seq<char>|
            t.found.contains(a) && #[trigger] names(world, a, q) implies t.found.contains(q)
            || t.pending.contains(q) by {
            pushed_holds(s.found, p, a);
            pushed_holds(s.found, p, q);
            rest_holds(s.pending, q);
            if world.dom().contains(p) && !s.found.contains(p) {
                joined_holds(world[p], rest, q);
                if a != p {
                    assert(s.found.contains(a));
                }
            } else {
                assert(s.found.contains(a));
                if s.pending.contains(q) && q == p {
                    assert(s.found.contains(p));
                }
            }
        }
    }
    if world.dom().contains(p) && !s.found.contains(p) {
        assert forall|i: int, j: int|
            0 <= i < t.found.len() && 0 <= j < t.found.len() && i != j implies t.found[i]
            != t.found[j] by {
            if i < s.found.len() && j < s.found.len() {
                assert(s.found[i] != s.found[j]);
            } else if i < s.found.len() {
                assert(s.found.contains(s.found[i]));
            } else {
                assert(s.found.contains(s.found[j]));
            }
        }
    }
}

/// A search that is in good order ends in good order, with nothing left to be
/// accounted for: it has found no root twice, only library roots, every root
/// it had found before, every library root it was to look at, and every
/// library root that a found root names.
pub proof fn search_is_complete(world: Roots, s: SearchView)
    requires
        world.dom().finite(),
        in_order(world, s),
    ensures
        in_order(world, SearchView { found: searched(world, s), pending: Seq::empty() }),
        forall|x: Seq<char>| s.found.contains(x) ==> #[trigger] searched(world, s).contains(x),
        forall|x: Seq<char>|
            #[trigger] s.pending.contains(x) && world.dom().contains(x) ==> searched(
                world,
                s,
            ).contains(x),
    decreases unfound(world, s.found), s.pending.len(),
{
    if s.pending.len() == 0 {
        assert(s.pending =~= Seq::<Seq<char>>::empty());
        assert forall|x: Seq<char>| !(#[trigger] s.pending.contains(x)) by {}
    } else {
        step_gets_closer(world, s);
        step_keeps_order(world, s);
        search_is_complete(world, step(world, s));
    }
}

/// A way from one library root to another: each root of the chain names the
/// next, and all of them are library roots.
pub open spec fn is_chain(world: Roots, chain: Seq<Seq<char>>) -> bool {
    &&& chain.len() >= 1
    &&& world.dom().contains(chain[0])
    &&& forall|i: int| 0 <= i < chain.len() - 1 ==> #[trigger] names(world, chain[i], chain[i + 1])
}

/// The search begun at the places `probes`, with nothing found yet.
pub open spec fn search_from(world: Roots, probes: Seq<Seq<char>>) -> Seq<Seq<char>> {
    searched(world, SearchView { found: Seq::empty(), pending: probes })
}

/// A search finds no root twice, and only library roots.
pub proof fn search_finds_each_root_once(world: Roots, probes: Seq<Seq<char>>)
    requires
        world.dom().finite(),
    ensures
        search_from(world, probes).no_duplicates(),
        within(world, search_from(world, probes)),
{
    let s = SearchView { found: Seq::empty(), pending: probes };
    assert forall|x: Seq<char>| !(#[trigger] s.found.contains(x)) by {}
    search_is_complete(world, s);
}

/// A search finds every library root that can be reached: each place it begins
/// at that is a library root, and each library root to which a chain of roots
/// leads from there, however the roots name each other.
pub proof fn search_finds_every_reachable_root(
    world: Roots,
    probes: Seq<Seq<char>>,
    chain: Seq<Seq<char>>,
    k: int,
)
    requires
        world.dom().finite(),
        is_chain(world, chain),
        probes.contains(chain[0]),
        0 <= k < chain.len(),
    ensures
        search_from(world, probes).contains(chain[k]),
    decreases k,
{
    let s = SearchView { found: Seq::empty(), pending: probes };
    assert forall|x: Seq<char>| !(#[trigger] s.found.contains(x)) by {}
    search_is_complete(world, s);
    let found = search_from(world, probes);
    if k > 0 {
        search_finds_every_reachable_root(world, probes, chain, k - 1);
        let i = k - 1;
        assert(names(world, chain[i], chain[i + 1]));
        assert(chain[i + 1] == chain[k]);
        let end = SearchView { found, pending: Seq::<Seq<char>>::empty() };
        assert(accounted(world, end));
        assert(!end.pending.contains(chain[k]));
    }
}

/// The library root `r` can be reached from the places `probes`: a chain of
/// roots leads to it from one of the places.
pub open spec fn reachable(world: Roots, probes: Seq<Seq<char>>, r: Seq<char>) -> bool {
    exists|chain: Seq<Seq<char>>|
        #[trigger] is_chain(world, chain) && probes.contains(chain[0]) && chain.last() == r
}

/// Every root found, and every library root still to be looked at, can be
/// reached from the places `probes`.
pub open spec fn all_reachable(world: Roots, probes: Seq<Seq<char>>, s: SearchView) -> bool {
    &&& forall|x: Seq<char>| #[trigger] s.found.contains(x) ==> reachable(world, probes, x)
    &&& forall|x: Seq<char>|
        #[trigger] s.pending.contains(x) && world.dom().contains(x) ==> reachable(world, probes, x)
}

/// A chain that ends in a root which names another library root goes on to
/// that root.
proof fn chain_goes_on(world: Roots, probes: Seq<Seq<char>>, p: Seq<char>, q: Seq<char>)
    requires
        reachable(world, probes, p),
        names(world, p, q),
    ensures
        reachable(world, probes, q),
{
    let chain = choose|chain: Seq<Seq<char>>|
        #[trigger] is_chain(world, chain) && probes.contains(chain[0]) && chain.last() == p;
    let longer = chain.push(q);
    assert forall|i: int| 0 <= i < longer.len() - 1 implies #[trigger] names(
        world,
        longer[i],
        longer[i + 1],
    ) by {
        if i < chain.len() - 1 {
            assert(names(world, chain[i], chain[i + 1]));
        }
    }
    assert(is_chain(world, longer) && probes.contains(longer[0]) && longer.last() == q);
}

/// A search finds only roots that can be reached from the places it began at.
proof fn search_stays_reachable(world: Roots, probes: Seq<Seq<char>>, s: SearchView)
    requires
        world.dom().finite(),
        all_reachable(world, probes, s),
    ensures
        forall|x: Seq<char>| #[trigger]
            searched(world, s).contains(x) ==> reachable(world, probes, x),
    decreases unfound(world, s.found), s.pending.len(),
{
    if s.pending.len() > 0 {
        step_gets_closer(world, s);
        let p = s.pending[0];
        let rest = s.pending.drop_first();
        let t = step(world, s);
        assert forall|x: Seq<char>| #[trigger] t.found.contains(x) implies reachable(
            world,
            probes,
            x,
        ) by {
            pushed_holds(s.found, p, x);
            assert(s.pending.contains(p));
        }
        assert forall|x: Seq<char>|
            #[trigger] t.pending.contains(x) && world.dom().contains(x) implies reachable(
            world,
            probes,
            x,
        ) by {
            rest_holds(s.pending, x);
            assert(s.pending.contains(p));
            if world.dom().contains(p) && !s.found.contains(p) {
                joined_holds(world[p], rest, x);
                if world[p].contains(x) {
                    assert(names(world, p, x));
                    chain_goes_on(world, probes, p, x);
                }
            }
        }
        search_stays_reachable(world, probes, t);
        assert(searched(world, s) == searched(world, t));
    } else {
        assert(searched(world, s) == s.found);
    }
}

/// A search finds exactly the library roots that can be reached from the
/// places it begins at, each of them once.
pub proof fn search_finds_the_reachable_roots(world: Roots, probes: Seq<Seq<char>>)
    requires
        world.dom().finite(),
    ensures
        search_from(world, probes).no_duplicates(),
        forall|r: Seq<char>|
            search_from(world, probes).contains(r) <==> #[trigger] reachable(world, probes, r),
{
    let s = SearchView { found: Seq::empty(), pending: probes };
    search_finds_each_root_once(world, probes);
    assert forall|x: Seq<char>| !(#[trigger] s.found.contains(x)) by {}
    assert(all_reachable(world, probes, s)) by {
        assert forall|x: Seq<char>|
            #[trigger] s.pending.contains(x) && world.dom().contains(x) implies reachable(
            world,
            probes,
            x,
        ) by {
            let chain = seq![x];
            assert(is_chain(world, chain) && probes.contains(chain[0]) && chain.last() == x);
        }
    }
    search_stays_reachable(world, probes, s);
    assert forall|r: Seq<char>| #[trigger]
        reachable(world, probes, r) implies search_from(world, probes).contains(r) by {
        let chain = choose|chain: Seq<Seq<char>>|
            #[trigger] is_chain(world, chain) && probes.contains(chain[0]) && chain.last() == r;
        search_finds_every_reachable_root(world, probes, chain, chain.len() - 1);
    }
}

/// One library root of a disk as plain values: its path, and the roots that
/// the library descriptor files in it name.
pub struct DirView {
    pub path: Seq<char>,
    pub named: Seq<Seq<char>>,
}

/// The paths of the entries, in order.
pub open spec fn paths_of(dirs: Seq<DirView>) -> Seq<Seq<char>> {
    Seq::new(dirs.len(), |i: int| dirs[i].path)
}

/// The library roots that the entries `dirs` describe: the paths of the
/// entries, each with what its first entry names.
pub open spec fn world_of(dirs: Seq<DirView>) -> Roots {
    Map::new(
        |p: Seq<char>| paths_of(dirs).contains(p),
        |p: Seq<char>| dirs[entry_for(dirs, p, 0)->0].named,
    )
}

/// The place, from `from` on, of the first entry for the path `path`.
pub open spec fn entry_for(dirs: Seq<DirView>, path: Seq<char>, from: int) -> Option<int>
    decreases dirs.len() - from,
{
    if from < 0 || from >= dirs.len() {
        None
    } else if dirs[from].path == path {
        Some(from)
    } else {
        entry_for(dirs, path, from + 1)
    }
}

/// Where the first entry for a path lies: no entry before it is for the path.
pub proof fn entry_is_first(dirs: Seq<DirView>, path: Seq<char>, from: int)
    requires
        0 <= from,
    ensures
        match entry_for(dirs, path, from) {
            Some(i) => from <= i < dirs.len() && dirs[i].path == path && forall|j: int|
                from <= j < i ==> (#[trigger] dirs[j]).path != path,
            None => forall|j: int| from <= j < dirs.len() ==> (#[trigger] dirs[j]).path != path,
        },
    decreases dirs.len() - from,
{
    if from < dirs.len() && dirs[from].path != path {
        entry_is_first(dirs, path, from + 1);
    }
}

/// The library roots that entries describe are finitely many, and a path is
/// one of them exactly if it has an entry.
pub proof fn world_is_finite(dirs: Seq<DirView>)
    ensures
        world_of(dirs).dom().finite(),
        forall|p: Seq<char>| #[trigger]
            world_of(dirs).dom().contains(p) <==> entry_for(dirs, p, 0) is Some,
{
    vstd::seq_lib::seq_to_set_is_finite(paths_of(dirs));
    assert(world_of(dirs).dom() =~= paths_of(dirs).to_set());
    assert forall|p: Seq<char>| #[trigger]
        world_of(dirs).dom().contains(p) <==> entry_for(dirs, p, 0) is Some by {
        entry_is_first(dirs, p, 0);
        if paths_of(dirs).contains(p) {
            let i = choose|i: int| 0 <= i < paths_of(dirs).len() && paths_of(dirs)[i] == p;
            assert(dirs[i].path == p);
        }
        if entry_for(dirs, p, 0) is Some {
            let i = entry_for(dirs, p, 0)->0;
            assert(paths_of(dirs)[i] == p);
        }
    }
}

/// A search can take its next step instead of looking at the place that is
/// next: what it finds in the end is the same.
pub proof fn search_goes_on(world: Roots, s: SearchView)
    requires
        world.dom().finite(),
    ensures
        searched(world, s) == searched(world, step(world, s)),
{
    if s.pending.len() == 0 {
        assert(step(world, s) == s);
    }
}

} // verus!

//! What reordering and moving promise of the game list as a whole.

use vstd::prelude::*;

use crate::game_store::{
    with_icon, with_meta, has_game, lemma_last_id_pos, lemma_position_of, last_id_pos, moved, order_key, position_of,
    rank_group, rank_is, ranked_from, reordered, Game,
};

verus! {

broadcast use {vstd::seq_lib::group_to_multiset_ensures, vstd::multiset::group_multiset_axioms};

/// The rank of every id lies in `0..=ids.len()`.
pub proof fn lemma_order_key_bounds(ids: Seq<String>, id: Seq<char>)
    ensures
        0 <= order_key(ids, id) <= ids.len(),
{
    lemma_last_id_pos(ids, id);
}

/// Filtering by a predicate that every element meets keeps the sequence.
proof fn lemma_filter_keeps_all(s: Seq<Game>, p: spec_fn(Game) -> bool)
    requires
        forall|i: int| 0 <= i < s.len() ==> #[trigger] p(s[i]),
    ensures
        s.filter(p) == s,
    decreases s.len(),
{
    reveal(Seq::filter);
    if s.len() > 0 {
        lemma_filter_keeps_all(s.drop_last(), p);
        assert(p(s[s.len() - 1]));
        assert(s.drop_last().push(s.last()) =~= s);
    }
}

/// Filtering by a predicate that no element meets leaves nothing.
proof fn lemma_filter_drops_all(s: Seq<Game>, p: spec_fn(Game) -> bool)
    requires
        forall|i: int| 0 <= i < s.len() ==> !#[trigger] p(s[i]),
    ensures
        s.filter(p) == Seq::<Game>::empty(),
    decreases s.len(),
{
    reveal(Seq::filter);
    if s.len() > 0 {
        lemma_filter_drops_all(s.drop_last(), p);
        assert(!p(s[s.len() - 1]));
    } else {
        assert(s =~= Seq::<Game>::empty());
    }
}

/// Filtering by `r` splits, as a multiset, into filtering by `p` and by `q`
/// when `r` is the disjoint union of `p` and `q`.
proof fn lemma_filter_partition(
    s: Seq<Game>,
    p: spec_fn(Game) -> bool,
    q: spec_fn(Game) -> bool,
    r: spec_fn(Game) -> bool,
)
    requires
        forall|g: Game| #[trigger] r(g) == (p(g) || q(g)),
        forall|g: Game| !(#[trigger] p(g) && q(g)),
    ensures
        s.filter(r).to_multiset() == s.filter(p).to_multiset().add(s.filter(q).to_multiset()),
    decreases s.len(),
{
    if s.len() == 0 {
        reveal(Seq::filter);
        assert(s.filter(r).to_multiset() =~= s.filter(p).to_multiset().add(
            s.filter(q).to_multiset(),
        ));
    } else {
        let t = s.drop_last();
        let x = s.last();
        lemma_filter_partition(t, p, q, r);
        assert(t.push(x) =~= s);
        t.lemma_filter_push(x, p);
        t.lemma_filter_push(x, q);
        t.lemma_filter_push(x, r);
        assert(s.filter(r).to_multiset() =~= s.filter(p).to_multiset().add(
            s.filter(q).to_multiset(),
        ));
    }
}

/// The games of rank at least `k`.
spec fn rank_at_least(ids: Seq<String>, k: int) -> spec_fn(Game) -> bool {
    |g: Game| order_key(ids, g.id@) >= k
}

proof fn lemma_ranked_from_multiset(games: Seq<Game>, ids: Seq<String>, k: int)
    requires
        0 <= k <= ids.len() + 1,
    ensures
        ranked_from(games, ids, k).to_multiset() == games.filter(
            rank_at_least(ids, k),
        ).to_multiset(),
    decreases ids.len() + 1 - k,
{
    if k == ids.len() + 1 {
        assert forall|i: int| 0 <= i < games.len() implies !#[trigger] rank_at_least(ids, k)(
            games[i],
        ) by {
            lemma_order_key_bounds(ids, games[i].id@);
        }
        lemma_filter_drops_all(games, rank_at_least(ids, k));
        assert(ranked_from(games, ids, k) =~= Seq::<Game>::empty());
    } else {
        lemma_ranked_from_multiset(games, ids, k + 1);
        lemma_filter_partition(games, rank_is(ids, k), rank_at_least(ids, k + 1), rank_at_least(ids, k));
        vstd::seq_lib::lemma_multiset_commutative(
            rank_group(games, ids, k),
            ranked_from(games, ids, k + 1),
        );
    }
}

/// Reordering keeps every game, each as often as before: the result is a
/// permutation of the list.
pub proof fn reorder_is_permutation(games: Seq<Game>, ids: Seq<String>)
    ensures
        reordered(games, ids).to_multiset() == games.to_multiset(),
{
    lemma_ranked_from_multiset(games, ids, 0);
    assert forall|i: int| 0 <= i < games.len() implies #[trigger] rank_at_least(ids, 0)(
        games[i],
    ) by {
        lemma_order_key_bounds(ids, games[i].id@);
    }
    lemma_filter_keeps_all(games, rank_at_least(ids, 0));
}

/// Every game in the rank group `k` has rank `k`.
proof fn lemma_rank_group_ranks(games: Seq<Game>, ids: Seq<String>, k: int)
    ensures
        forall|i: int|
            0 <= i < rank_group(games, ids, k).len() ==> order_key(
                ids,
                #[trigger] rank_group(games, ids, k)[i].id@,
            ) == k,
{
    assert forall|i: int| 0 <= i < rank_group(games, ids, k).len() implies order_key(
        ids,
        #[trigger] rank_group(games, ids, k)[i].id@,
    ) == k by {
        games.lemma_filter_pred(rank_is(ids, k), i);
    }
}

/// Picking rank `k` out of the ranks from `j` on gives the rank group `k`
/// when `k` is among them, and nothing otherwise.
proof fn lemma_ranked_from_group(games: Seq<Game>, ids: Seq<String>, j: int, k: int)
    requires
        0 <= j,
    ensures
        ranked_from(games, ids, j).filter(rank_is(ids, k)) == if j <= k <= ids.len() {
            rank_group(games, ids, k)
        } else {
            Seq::<Game>::empty()
        },
    decreases ids.len() + 1 - j,
{
    if j > ids.len() {
        reveal(Seq::filter);
        assert(ranked_from(games, ids, j) =~= Seq::<Game>::empty());
    } else {
        lemma_ranked_from_group(games, ids, j + 1, k);
        let g = rank_group(games, ids, j);
        Seq::filter_distributes_over_add(g, ranked_from(games, ids, j + 1), rank_is(ids, k));
        lemma_rank_group_ranks(games, ids, j);
        if j == k {
            lemma_filter_keeps_all(g, rank_is(ids, k));
            assert(ranked_from(games, ids, j + 1).filter(rank_is(ids, k)) =~= Seq::<Game>::empty());
            assert(g + Seq::<Game>::empty() =~= g);
        } else {
            assert forall|i: int| 0 <= i < g.len() implies !#[trigger] rank_is(ids, k)(g[i]) by {}
            lemma_filter_drops_all(g, rank_is(ids, k));
            assert(Seq::<Game>::empty() + ranked_from(games, ids, j + 1).filter(rank_is(ids, k))
                =~= ranked_from(games, ids, j + 1).filter(rank_is(ids, k)));
        }
    }
}

/// Reordering is stable: the games of one rank come out in the order they
/// had before.
pub proof fn reorder_is_stable(games: Seq<Game>, ids: Seq<String>, k: int)
    requires
        0 <= k <= ids.len(),
    ensures
        reordered(games, ids).filter(rank_is(ids, k)) == rank_group(games, ids, k),
{
    lemma_ranked_from_group(games, ids, 0, k);
}

proof fn lemma_ranked_from_same_groups(a: Seq<Game>, b: Seq<Game>, ids: Seq<String>, j: int)
    requires
        0 <= j,
        forall|k: int| 0 <= k <= ids.len() ==> #[trigger] rank_group(a, ids, k) == rank_group(b, ids, k),
    ensures
        ranked_from(a, ids, j) == ranked_from(b, ids, j),
    decreases ids.len() + 1 - j,
{
    if j <= ids.len() {
        lemma_ranked_from_same_groups(a, b, ids, j + 1);
        assert(rank_group(a, ids, j) == rank_group(b, ids, j));
    }
}

/// Reordering twice by the same ids gives what reordering once gives.
pub proof fn reorder_is_idempotent(games: Seq<Game>, ids: Seq<String>)
    ensures
        reordered(reordered(games, ids), ids) == reordered(games, ids),
{
    let r = reordered(games, ids);
    assert forall|k: int| 0 <= k <= ids.len() implies #[trigger] rank_group(r, ids, k)
        == rank_group(games, ids, k) by {
        reorder_is_stable(games, ids, k);
    }
    lemma_ranked_from_same_groups(r, games, ids, 0);
}

proof fn lemma_ranked_from_sorted(games: Seq<Game>, ids: Seq<String>, j: int)
    requires
        0 <= j,
    ensures
        forall|i: int|
            0 <= i < ranked_from(games, ids, j).len() ==> j <= order_key(
                ids,
                #[trigger] ranked_from(games, ids, j)[i].id@,
            ),
        forall|a: int, b: int|
            0 <= a < b < ranked_from(games, ids, j).len() ==> order_key(
                ids,
                #[trigger] ranked_from(games, ids, j)[a].id@,
            ) <= order_key(ids, #[trigger] ranked_from(games, ids, j)[b].id@),
    decreases ids.len() + 1 - j,
{
    if j <= ids.len() {
        lemma_ranked_from_sorted(games, ids, j + 1);
        lemma_rank_group_ranks(games, ids, j);
        let g = rank_group(games, ids, j);
        let rest = ranked_from(games, ids, j + 1);
        let all = ranked_from(games, ids, j);
        assert(all == g + rest);
        assert forall|i: int| 0 <= i < all.len() implies j <= order_key(
            ids,
            #[trigger] all[i].id@,
        ) by {
            if i < g.len() {
                assert(all[i] == g[i]);
            } else {
                assert(all[i] == rest[i - g.len()]);
            }
        }
        assert forall|a: int, b: int| 0 <= a < b < all.len() implies order_key(
            ids,
            #[trigger] all[a].id@,
        ) <= order_key(ids, #[trigger] all[b].id@) by {
            if b < g.len() {
                assert(all[a] == g[a]);
                assert(all[b] == g[b]);
            } else if a < g.len() {
                assert(all[a] == g[a]);
                assert(all[b] == rest[b - g.len()]);
            } else {
                assert(all[a] == rest[a - g.len()]);
                assert(all[b] == rest[b - g.len()]);
            }
        }
    }
}

/// After reordering, the ranks never decrease along the list.
pub proof fn reorder_is_sorted(games: Seq<Game>, ids: Seq<String>)
    ensures
        forall|a: int, b: int|
            0 <= a < b < reordered(games, ids).len() ==> order_key(
                ids,
                #[trigger] reordered(games, ids)[a].id@,
            ) <= order_key(ids, #[trigger] reordered(games, ids)[b].id@),
{
    lemma_ranked_from_sorted(games, ids, 0);
}


/// No two games share an id.
pub open spec fn distinct_ids(games: Seq<Game>) -> bool {
    forall|a: int, b: int|
        0 <= a < games.len() && 0 <= b < games.len() && a != b ==> #[trigger] games[a].id@
            != #[trigger] games[b].id@
}

/// With distinct ids, the game at `i` is the first one with its id.
proof fn lemma_position_of_distinct(games: Seq<Game>, i: int)
    requires
        distinct_ids(games),
        0 <= i < games.len(),
    ensures
        position_of(games, games[i].id@) == i,
{
    lemma_position_of(games, games[i].id@);
    let p = position_of(games, games[i].id@);
    if p < i {
        assert(games[p].id@ == games[i].id@);
    } else if p > i {
        assert(games[i].id@ != games[i].id@);
    }
}

/// Where each element of `moved(games, k, t)` came from.
spec fn moved_source(k: int, t: int, j: int) -> int {
    let r = if j < t {
        j
    } else {
        j - 1
    };
    if j == t {
        k
    } else if r < k {
        r
    } else {
        r + 1
    }
}

proof fn lemma_moved_elements(games: Seq<Game>, k: int, t: int)
    requires
        0 <= k < games.len(),
        0 <= t < games.len(),
    ensures
        moved(games, k, t).len() == games.len(),
        forall|j: int|
            0 <= j < games.len() ==> #[trigger] moved(games, k, t)[j] == games[moved_source(
                k,
                t,
                j,
            )],
        forall|j: int| 0 <= j < games.len() ==> 0 <= #[trigger] moved_source(k, t, j) < games.len(),
        forall|a: int, b: int|
            0 <= a < games.len() && 0 <= b < games.len() && a != b ==> #[trigger] moved_source(
                k,
                t,
                a,
            ) != #[trigger] moved_source(k, t, b),
{
}

/// Moving keeps the ids distinct.
proof fn lemma_moved_distinct(games: Seq<Game>, k: int, t: int)
    requires
        distinct_ids(games),
        0 <= k < games.len(),
        0 <= t < games.len(),
    ensures
        distinct_ids(moved(games, k, t)),
{
    lemma_moved_elements(games, k, t);
    let m = moved(games, k, t);
    assert forall|a: int, b: int|
        0 <= a < m.len() && 0 <= b < m.len() && a != b implies #[trigger] m[a].id@
        != #[trigger] m[b].id@ by {
        assert(m[a] == games[moved_source(k, t, a)]);
        assert(m[b] == games[moved_source(k, t, b)]);
    }
}

/// With distinct ids, a game moved to `t` is then found at `t`.
pub proof fn moved_game_is_found_at_target(games: Seq<Game>, id: Seq<char>, t: int)
    requires
        distinct_ids(games),
        has_game(games, id),
        0 <= t < games.len(),
    ensures
        has_game(moved(games, position_of(games, id), t), id),
        position_of(moved(games, position_of(games, id), t), id) == t,
{
    lemma_position_of(games, id);
    let k = position_of(games, id);
    lemma_moved_elements(games, k, t);
    lemma_moved_distinct(games, k, t);
    let m = moved(games, k, t);
    assert(m[t] == games[k]);
    lemma_position_of_distinct(m, t);
}

/// With distinct ids, moving a game by `delta` and then back by `-delta`
/// restores the list.
pub proof fn move_back_restores(games: Seq<Game>, id: Seq<char>, delta: int)
    requires
        distinct_ids(games),
        has_game(games, id),
        0 <= position_of(games, id) + delta < games.len(),
    ensures
        ({
            let k = position_of(games, id);
            let once = moved(games, k, k + delta);
            &&& has_game(once, id)
            &&& position_of(once, id) == k + delta
            &&& 0 <= position_of(once, id) - delta < once.len()
            &&& moved(once, position_of(once, id), position_of(once, id) - delta) == games
        }),
{
    let k = position_of(games, id);
    lemma_position_of(games, id);
    moved_game_is_found_at_target(games, id, k + delta);
    let once = moved(games, k, k + delta);
    assert(once[k + delta] == games[k]);
    assert(once.remove(k + delta) =~= games.remove(k));
    assert(games.remove(k).insert(k, games[k]) =~= games);
}


/// Putting back the name and icon that a metadata change replaced restores
/// the list.
pub proof fn revert_after_meta_change_restores(games: Seq<Game>, k: int, name: String, icon: String)
    requires
        0 <= k < games.len(),
    ensures
        ({
            let changed = games.update(k, with_meta(games[k], name, icon));
            changed.update(k, with_meta(changed[k], games[k].name, games[k].icon)) == games
        }),
{
    let changed = games.update(k, with_meta(games[k], name, icon));
    assert(changed.update(k, with_meta(changed[k], games[k].name, games[k].icon)) =~= games);
}

/// Putting back the name and icon that an icon change replaced restores the
/// list.
pub proof fn revert_after_icon_change_restores(games: Seq<Game>, k: int, icon: String)
    requires
        0 <= k < games.len(),
    ensures
        ({
            let changed = games.update(k, with_icon(games[k], icon));
            changed.update(k, with_meta(changed[k], games[k].name, games[k].icon)) == games
        }),
{
    let changed = games.update(k, with_icon(games[k], icon));
    assert(changed.update(k, with_meta(changed[k], games[k].name, games[k].icon)) =~= games);
}


/// The ids of `games`, in their order.
pub open spec fn ids_of(games: Seq<Game>) -> Seq<String> {
    games.map_values(|g: Game| g.id)
}

/// The last occurrence of `id` is at `i` when nothing after `i` holds it.
proof fn lemma_last_id_pos_found(ids: Seq<String>, id: Seq<char>, i: int)
    requires
        0 <= i < ids.len(),
        ids[i]@ == id,
        forall|j: int| i < j < ids.len() ==> #[trigger] ids[j]@ != id,
    ensures
        last_id_pos(ids, id) == i,
    decreases ids.len(),
{
    if i != ids.len() - 1 {
        assert(ids[ids.len() - 1]@ != id);
        lemma_last_id_pos_found(ids.drop_last(), id, i);
    }
}

/// With distinct ids, reordering by the list's own ids ranks each game by
/// its place.
proof fn lemma_own_order_key(games: Seq<Game>, i: int)
    requires
        distinct_ids(games),
        0 <= i < games.len(),
    ensures
        order_key(ids_of(games), games[i].id@) == i,
{
    let ids = ids_of(games);
    assert forall|j: int| i < j < ids.len() implies #[trigger] ids[j]@ != games[i].id@ by {
        assert(ids[j] == games[j].id);
    }
    lemma_last_id_pos_found(ids, games[i].id@, i);
}

/// Filtering by a predicate that only the element at `k` meets keeps just it.
proof fn lemma_filter_single(s: Seq<Game>, p: spec_fn(Game) -> bool, k: int)
    requires
        0 <= k < s.len(),
        p(s[k]),
        forall|i: int| 0 <= i < s.len() && i != k ==> !#[trigger] p(s[i]),
    ensures
        s.filter(p) == seq![s[k]],
    decreases s.len(),
{
    let t = s.drop_last();
    assert(t.push(s.last()) =~= s);
    if k == s.len() - 1 {
        assert forall|i: int| 0 <= i < t.len() implies !#[trigger] p(t[i]) by {
            assert(t[i] == s[i]);
        }
        lemma_filter_drops_all(t, p);
        t.lemma_filter_push(s.last(), p);
        assert(Seq::<Game>::empty().push(s[k]) =~= seq![s[k]]);
    } else {
        assert forall|i: int| 0 <= i < t.len() && i != k implies !#[trigger] p(t[i]) by {
            assert(t[i] == s[i]);
        }
        assert(t[k] == s[k]);
        lemma_filter_single(t, p, k);
        assert(!p(s[s.len() - 1]));
        t.lemma_filter_push(s.last(), p);
    }
}

/// With distinct ids, the ranks from `k` on, by the list's own ids, are the
/// list from `k` on.
proof fn lemma_ranked_own_order(games: Seq<Game>, k: int)
    requires
        distinct_ids(games),
        0 <= k <= games.len(),
    ensures
        ranked_from(games, ids_of(games), k) == games.skip(k),
    decreases games.len() - k,
{
    let ids = ids_of(games);
    if k == games.len() {
        assert forall|i: int| 0 <= i < games.len() implies !#[trigger] rank_is(ids, k)(games[i]) by {
            lemma_own_order_key(games, i);
        }
        lemma_filter_drops_all(games, rank_is(ids, k));
        assert(ranked_from(games, ids, k + 1) =~= Seq::<Game>::empty());
        assert(ranked_from(games, ids, k) =~= games.skip(k));
    } else {
        lemma_ranked_own_order(games, k + 1);
        assert forall|i: int| 0 <= i < games.len() && i != k implies !#[trigger] rank_is(ids, k)(games[i]) by {
            lemma_own_order_key(games, i);
        }
        lemma_own_order_key(games, k);
        lemma_filter_single(games, rank_is(ids, k), k);
        assert(seq![games[k]] + games.skip(k + 1) =~= games.skip(k));
    }
}

/// With distinct ids, reordering by the list's own ids leaves it as it is.
pub proof fn reorder_by_own_ids_keeps_order(games: Seq<Game>)
    requires
        distinct_ids(games),
    ensures
        reordered(games, ids_of(games)) == games,
{
    lemma_ranked_own_order(games, 0);
    assert(games.skip(0) =~= games);
}

/// Taking the last game off after appending one gives the list back, and
/// what is taken off is the game appended.
pub proof fn pop_undoes_push(games: Seq<Game>, g: Game)
    ensures
        games.push(g).drop_last() == games,
        games.push(g).last() == g,
{
    assert(games.push(g).drop_last() =~= games);
}

/// With distinct ids, a removed game is no longer found.
pub proof fn removed_game_is_gone(games: Seq<Game>, id: Seq<char>)
    requires
        distinct_ids(games),
        has_game(games, id),
    ensures
        !has_game(games.remove(position_of(games, id)), id),
{
    lemma_position_of(games, id);
    let k = position_of(games, id);
    let r = games.remove(k);
    lemma_position_of(r, id);
    if has_game(r, id) {
        let p = position_of(r, id);
        if p < k {
            assert(r[p] == games[p]);
        } else {
            assert(r[p] == games[p + 1]);
            assert(games[k].id@ != games[p + 1].id@);
        }
    }
}

} // verus!

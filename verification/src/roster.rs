//! The peers that a user interface lists: each once, by identifier.
use vstd::prelude::*;

use crate::types;
use crate::types::{PeerId, PeerInfo, PeerInfoView};

verus! {

/// Whether a peer of that identifier is listed.
pub open spec fn lists(peers: Seq<PeerInfoView>, id: Seq<char>) -> bool {
    exists|i: int| 0 <= i < peers.len() && (#[trigger] peers[i]).id == id
}

/// The peers once one has come: nobody is listed twice.
pub open spec fn with_peer(peers: Seq<PeerInfoView>, info: PeerInfoView) -> Seq<PeerInfoView> {
    if lists(peers, info.id) {
        peers
    } else {
        peers.push(info)
    }
}

/// The peers once one has gone.
pub open spec fn without_peer(peers: Seq<PeerInfoView>, id: Seq<char>) -> Seq<PeerInfoView> {
    peers.filter(|p: PeerInfoView| p.id != id)
}

/// The name of a peer: the one under which it is listed, or else its identifier.
pub open spec fn name_of(peers: Seq<PeerInfoView>, id: Seq<char>) -> Seq<char>
    decreases peers.len(),
{
    if peers.len() == 0 {
        id
    } else if peers[0].id == id {
        peers[0].name
    } else {
        name_of(peers.skip(1), id)
    }
}

/// Lists a peer, unless it is listed already.
pub fn add_peer(peers: &mut Vec<PeerInfo>, info: &PeerInfo)
    ensures
        types::peer_views(final(peers)@) == with_peer(types::peer_views(old(peers)@), info@),
{
    let ghost views = types::peer_views(peers@);
    let mut i: usize = 0;
    while i < peers.len()
        invariant
            i <= peers.len(),
            peers@ == old(peers)@,
            views == types::peer_views(peers@),
            forall|j: int| 0 <= j < i ==> (#[trigger] views[j]).id != info@.id,
        decreases peers.len() - i,
    {
        if peers[i].id.same(&info.id) {
            assert(views[i as int].id == info@.id);
            return;
        }
        assert(views[i as int] == peers@[i as int]@);
        i = i + 1;
    }
    let copy = info.clone();
    peers.push(copy);
    assert(types::peer_views(peers@) =~= views.push(info@));
}

/// Strikes a peer off the list.
pub fn remove_peer(peers: &mut Vec<PeerInfo>, id: &PeerId)
    ensures
        types::peer_views(final(peers)@) == without_peer(types::peer_views(old(peers)@), id@),
{
    let ghost keep = |p: PeerInfoView| p.id != id@;
    let ghost all = types::peer_views(peers@);
    let mut i: usize = 0;
    while i < peers.len()
        invariant
            i <= peers.len(),
            keep == (|p: PeerInfoView| p.id != id@),
            types::peer_views(peers@).filter(keep) == all.filter(keep),
            forall|j: int| 0 <= j < i ==> (#[trigger] types::peer_views(peers@)[j]).id != id@,
        decreases peers.len() - i,
    {
        let ghost cur = types::peer_views(peers@);
        if peers[i].id.same(id) {
            let _gone = peers.remove(i);
            proof {
                let next = types::peer_views(peers@);
                assert(next =~= cur.remove(i as int));
                lemma_filter_remove(cur, i as int, keep);
            }
        } else {
            assert(cur[i as int].id != id@);
            i = i + 1;
        }
    }
    proof {
        lemma_filter_all(types::peer_views(peers@), keep);
        assert(without_peer(all, id@) == all.filter(keep));
    }
}

/// Looks up the name of a peer.
pub fn peer_name(peers: &Vec<PeerInfo>, id: &PeerId) -> (name: String)
    ensures
        name@ == name_of(types::peer_views(peers@), id@),
{
    let ghost views = types::peer_views(peers@);
    let mut i: usize = 0;
    assert(views.skip(0) =~= views);
    while i < peers.len()
        invariant
            i <= peers.len(),
            views == types::peer_views(peers@),
            name_of(views, id@) == name_of(views.skip(i as int), id@),
        decreases peers.len() - i,
    {
        assert(views.skip(i as int)[0] == peers@[i as int]@);
        if peers[i].id.same(id) {
            return peers[i].name.clone();
        }
        assert(views.skip(i as int).skip(1) =~= views.skip(i + 1));
        i = i + 1;
    }
    id.display()
}

// ---------------------------------------------------------------------------
// Lemmas
// ---------------------------------------------------------------------------

/// Removing an element that a filter drops does not change what it keeps.
proof fn lemma_filter_remove<A>(s: Seq<A>, i: int, keep: spec_fn(A) -> bool)
    requires
        0 <= i < s.len(),
        !keep(s[i]),
    ensures
        s.remove(i).filter(keep) == s.filter(keep),
{
    let a = s.take(i);
    let b = s.skip(i + 1);
    assert(s.remove(i) =~= a + b);
    assert(s =~= a + (seq![s[i]] + b));
    Seq::filter_distributes_over_add(a, b, keep);
    Seq::filter_distributes_over_add(a, seq![s[i]] + b, keep);
    Seq::filter_distributes_over_add(seq![s[i]], b, keep);
    assert(seq![s[i]].filter(keep) =~= Seq::empty()) by {
        reveal_with_fuel(Seq::filter, 2);
        assert(seq![s[i]].drop_last() =~= Seq::empty());
    }
    assert(Seq::<A>::empty() + b.filter(keep) =~= b.filter(keep));
}

/// A filter that every element passes keeps everything.
proof fn lemma_filter_all<A>(s: Seq<A>, keep: spec_fn(A) -> bool)
    requires
        forall|i: int| 0 <= i < s.len() ==> keep(#[trigger] s[i]),
    ensures
        s.filter(keep) == s,
    decreases s.len(),
{
    reveal(Seq::filter);
    if s.len() > 0 {
        lemma_filter_all(s.drop_last(), keep);
        assert(s.filter(keep) =~= s);
    }
}

/// Whether no peer is listed twice.
pub open spec fn peers_unique(peers: Seq<PeerInfoView>) -> bool {
    forall|i: int, j: int|
        0 <= i < peers.len() && 0 <= j < peers.len() && i != j ==> (#[trigger] peers[i]).id != (
        #[trigger] peers[j]).id
}

proof fn lemma_filter_unique(peers: Seq<PeerInfoView>, keep: spec_fn(PeerInfoView) -> bool)
    requires
        peers_unique(peers),
    ensures
        peers_unique(peers.filter(keep)),
        forall|i: int|
            0 <= i < peers.filter(keep).len() ==> peers.contains(#[trigger] peers.filter(keep)[i])
                && keep(peers.filter(keep)[i]),
        forall|i: int|
            0 <= i < peers.len() && keep(#[trigger] peers[i]) ==> peers.filter(keep).contains(
                peers[i],
            ),
    decreases peers.len(),
{
    reveal(Seq::filter);
    if peers.len() > 0 {
        let rest = peers.drop_last();
        assert(peers_unique(rest));
        lemma_filter_unique(rest, keep);
        let kept = rest.filter(keep);
        let all = peers.filter(keep);
        assert forall|i: int| 0 <= i < kept.len() implies peers.contains(#[trigger] kept[i])
            && kept[i].id != peers.last().id && keep(kept[i]) by {
            assert(rest.contains(kept[i]));
            let j = choose|j: int| 0 <= j < rest.len() && rest[j] == kept[i];
            assert(peers[j] == kept[i]);
        }
        if keep(peers.last()) {
            assert(all =~= kept.push(peers.last()));
            assert(peers.contains(peers.last()));
            assert(all[kept.len() as int] == peers.last());
        }
        assert forall|i: int| 0 <= i < peers.len() && keep(#[trigger] peers[i]) implies all.contains(
            peers[i],
        ) by {
            if i < rest.len() {
                assert(rest[i] == peers[i]);
                assert(kept.contains(rest[i]));
                let j = choose|j: int| 0 <= j < kept.len() && kept[j] == rest[i];
                assert(all[j] == rest[i]);
            }
        }
    }
}

// ---------------------------------------------------------------------------
// Laws
// ---------------------------------------------------------------------------

/// Nobody is listed twice, whoever comes.
pub proof fn adding_keeps_unique(peers: Seq<PeerInfoView>, info: PeerInfoView)
    requires
        peers_unique(peers),
    ensures
        peers_unique(with_peer(peers, info)),
{
}

/// Nobody is listed twice, whoever goes.
pub proof fn removing_keeps_unique(peers: Seq<PeerInfoView>, id: Seq<char>)
    requires
        peers_unique(peers),
    ensures
        peers_unique(without_peer(peers, id)),
{
    lemma_filter_unique(peers, |p: PeerInfoView| p.id != id);
}

/// Whoever has come is listed.
pub proof fn added_peer_is_listed(peers: Seq<PeerInfoView>, info: PeerInfoView)
    ensures
        lists(with_peer(peers, info), info.id),
{
    if !lists(peers, info.id) {
        assert(with_peer(peers, info)[peers.len() as int].id == info.id);
    }
}

/// Whoever has gone is not listed any more, and everybody else still is.
pub proof fn removed_peer_is_gone(peers: Seq<PeerInfoView>, id: Seq<char>)
    requires
        peers_unique(peers),
    ensures
        !lists(without_peer(peers, id), id),
        forall|i: int|
            0 <= i < peers.len() && (#[trigger] peers[i]).id != id ==> without_peer(
                peers,
                id,
            ).contains(peers[i]),
{
    lemma_filter_unique(peers, |p: PeerInfoView| p.id != id);
}

/// A peer that has come as somebody new is known by its name, whoever comes after it.
pub proof fn newcomer_is_known_by_name(peers: Seq<PeerInfoView>, info: PeerInfoView, later: PeerInfoView)
    requires
        !lists(peers, info.id),
    ensures
        name_of(with_peer(peers, info), info.id) == info.name,
        name_of(with_peer(with_peer(peers, info), later), info.id) == info.name,
{
    lemma_name_behind(peers, info.id, seq![info]);
    assert(with_peer(peers, info) =~= peers + seq![info]);
    let all = with_peer(with_peer(peers, info), later);
    if all.len() == peers.len() + 2 {
        lemma_name_behind(peers, info.id, seq![info, later]);
        assert(all =~= peers + seq![info, later]);
    }
}

proof fn lemma_name_behind(peers: Seq<PeerInfoView>, id: Seq<char>, tail: Seq<PeerInfoView>)
    requires
        !lists(peers, id),
        tail.len() > 0,
        tail[0].id == id,
    ensures
        name_of(peers + tail, id) == tail[0].name,
    decreases peers.len(),
{
    if peers.len() > 0 {
        assert(peers[0].id != id);
        let rest = peers.skip(1);
        assert(!lists(rest, id)) by {
            if lists(rest, id) {
                let i = choose|i: int| 0 <= i < rest.len() && (#[trigger] rest[i]).id == id;
                assert(peers[i + 1].id == id);
            }
        }
        lemma_name_behind(rest, id, tail);
        assert((peers + tail).skip(1) =~= rest + tail);
    } else {
        assert(peers + tail =~= tail);
    }
}

/// Somebody who is not listed is known by the identifier.
pub proof fn stranger_is_known_by_id(peers: Seq<PeerInfoView>, id: Seq<char>)
    requires
        !lists(peers, id),
    ensures
        name_of(peers, id) == id,
    decreases peers.len(),
{
    if peers.len() > 0 {
        let rest = peers.skip(1);
        assert(!lists(rest, id)) by {
            if lists(rest, id) {
                let i = choose|i: int| 0 <= i < rest.len() && (#[trigger] rest[i]).id == id;
                assert(peers[i + 1].id == id);
            }
        }
        assert(peers[0].id != id);
        stranger_is_known_by_id(rest, id);
    }
}

/// Somebody is listed exactly if an entry has that identifier.
pub proof fn entry_lists_its_peer(peers: Seq<PeerInfoView>, info: PeerInfoView, id: Seq<char>)
    ensures
        !lists(Seq::empty(), id),
        lists(peers.push(info), id) <==> lists(peers, id) || info.id == id,
{
    let all = peers.push(info);
    if lists(peers, id) {
        let i = choose|i: int| 0 <= i < peers.len() && (#[trigger] peers[i]).id == id;
        assert(all[i].id == id);
    }
    if info.id == id {
        assert(all[peers.len() as int].id == id);
    }
    if lists(all, id) {
        let i = choose|i: int| 0 <= i < all.len() && (#[trigger] all[i]).id == id;
        if i < peers.len() {
            assert(peers[i].id == id);
        }
    }
}

/// Somebody new is listed last, behind all others; whoever is listed already stays where
/// it is, under the name that it came with.
pub proof fn newcomer_is_listed_last(peers: Seq<PeerInfoView>, info: PeerInfoView)
    ensures
        !lists(peers, info.id) ==> with_peer(peers, info) == peers.push(info),
        lists(peers, info.id) ==> with_peer(peers, info) == peers,
{
}

/// Striking somebody off the list takes out every entry of that identifier, and leaves
/// the others in their order.
pub proof fn others_stay_in_order(peers: Seq<PeerInfoView>, info: PeerInfoView, id: Seq<char>)
    ensures
        without_peer(Seq::empty(), id) == Seq::<PeerInfoView>::empty(),
        info.id == id ==> without_peer(peers.push(info), id) == without_peer(peers, id),
        info.id != id ==> without_peer(peers.push(info), id) == without_peer(peers, id).push(info),
        !lists(peers, id) ==> without_peer(peers, id) == peers,
{
    reveal(Seq::filter);
    assert(peers.push(info).drop_last() =~= peers);
    if !lists(peers, id) {
        assert forall|i: int| 0 <= i < peers.len() implies (#[trigger] peers[i]).id != id by {}
        lemma_filter_all(peers, |p: PeerInfoView| p.id != id);
    }
}

/// A peer goes by the name of the first entry with its identifier.
pub proof fn first_entry_names_the_peer(peers: Seq<PeerInfoView>, i: int)
    requires
        0 <= i < peers.len(),
        forall|j: int| 0 <= j < i ==> (#[trigger] peers[j]).id != peers[i].id,
    ensures
        name_of(peers, peers[i].id) == peers[i].name,
{
    let front = peers.take(i);
    let tail = peers.skip(i);
    assert(!lists(front, peers[i].id)) by {
        if lists(front, peers[i].id) {
            let j = choose|j: int|
                0 <= j < front.len() && (#[trigger] front[j]).id == peers[i].id;
            assert(peers[j].id == peers[i].id);
        }
    }
    lemma_name_behind(front, peers[i].id, tail);
    assert(front + tail =~= peers);
}

} // verus!

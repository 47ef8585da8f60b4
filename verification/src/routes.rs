//! The client's directory of nodes: one address for each node id, in a
//! fixed order, and its reconciliation against the directory that a reply
//! brings.

use vstd::prelude::*;
use crate::common::{AddressMap, Link};

verus! {

/// Some line of `s` is for `id`.
pub open spec fn knows(s: Seq<(u64, Seq<char>)>, id: u64) -> bool {
    exists|i: int| 0 <= i < s.len() && (#[trigger] s[i]).0 == id
}

/// The place of a line for `id` in `s`.
pub open spec fn position(s: Seq<(u64, Seq<char>)>, id: u64) -> int {
    choose|i: int| 0 <= i < s.len() && (#[trigger] s[i]).0 == id
}

/// The address that `s` gives for `id`.
pub open spec fn address_of(s: Seq<(u64, Seq<char>)>, id: u64) -> Seq<char> {
    s[position(s, id)].1
}

/// No id has two lines in `s`.
pub open spec fn distinct(s: Seq<(u64, Seq<char>)>) -> bool {
    forall|i: int, j: int| 0 <= i < j < s.len() ==> (#[trigger] s[i]).0 != (#[trigger] s[j]).0
}

/// The lines of `s` as a map from id to address.
pub open spec fn directory(s: Seq<(u64, Seq<char>)>) -> Map<u64, Seq<char>> {
    Map::new(|id: u64| knows(s, id), |id: u64| address_of(s, id))
}

/// `s` with the address of `id` set: in place where `id` has a line, at the
/// end where it has none.
pub open spec fn put(s: Seq<(u64, Seq<char>)>, id: u64, address: Seq<char>) -> Seq<(u64, Seq<char>)> {
    if knows(s, id) {
        s.update(position(s, id), (id, address))
    } else {
        s.push((id, address))
    }
}

/// The lines of `local` whose id `target` knows, in the order of `local`,
/// each with the address that `target` gives.
pub open spec fn kept(local: Seq<(u64, Seq<char>)>, target: Seq<(u64, Seq<char>)>) -> Seq<(u64, Seq<char>)>
    decreases local.len(),
{
    if local.len() == 0 {
        Seq::empty()
    } else {
        let rest = kept(local.drop_last(), target);
        let id = local.last().0;
        if knows(target, id) {
            rest.push((id, address_of(target, id)))
        } else {
            rest
        }
    }
}

/// The lines of `target` whose id `local` does not know, in the order of
/// `target`.
pub open spec fn added(local: Seq<(u64, Seq<char>)>, target: Seq<(u64, Seq<char>)>) -> Seq<(u64, Seq<char>)>
    decreases target.len(),
{
    if target.len() == 0 {
        Seq::empty()
    } else {
        let rest = added(local, target.drop_last());
        if knows(local, target.last().0) {
            rest
        } else {
            rest.push(target.last())
        }
    }
}

/// The directory after a reply: what stays of `local`, then what is new.
pub open spec fn reconciled(local: Seq<(u64, Seq<char>)>, target: Seq<(u64, Seq<char>)>) -> Seq<(u64, Seq<char>)> {
    kept(local, target) + added(local, target)
}

/// The connection changes for the lines of `local`: a line that `target`
/// lacks is closed, one whose address differs is opened anew.
pub open spec fn kept_links(local: Seq<(u64, Seq<char>)>, target: Seq<(u64, Seq<char>)>) -> Seq<LinkView>
    decreases local.len(),
{
    if local.len() == 0 {
        Seq::empty()
    } else {
        let rest = kept_links(local.drop_last(), target);
        let id = local.last().0;
        if !knows(target, id) {
            rest.push(LinkView::Close { id })
        } else if address_of(target, id) != local.last().1 {
            rest.push(LinkView::Open { id, address: address_of(target, id) })
        } else {
            rest
        }
    }
}

/// The connection changes for the lines that are new in `target`.
pub open spec fn added_links(local: Seq<(u64, Seq<char>)>, target: Seq<(u64, Seq<char>)>) -> Seq<LinkView>
    decreases target.len(),
{
    if target.len() == 0 {
        Seq::empty()
    } else {
        let rest = added_links(local, target.drop_last());
        if knows(local, target.last().0) {
            rest
        } else {
            rest.push(LinkView::Open { id: target.last().0, address: target.last().1 })
        }
    }
}

/// All connection changes that a reply asks for.
pub open spec fn links(local: Seq<(u64, Seq<char>)>, target: Seq<(u64, Seq<char>)>) -> Seq<LinkView> {
    kept_links(local, target) + added_links(local, target)
}

/// One connection to open for each line of `s`, in its order.
pub open spec fn all_open(s: Seq<(u64, Seq<char>)>) -> Seq<LinkView> {
    Seq::new(s.len(), |i: int| LinkView::Open { id: s[i].0, address: s[i].1 })
}

/// A connection change as a plain value.
pub enum LinkView {
    Open { id: u64, address: Seq<char> },
    Close { id: u64 },
}

impl View for Link {
    type V = LinkView;

    open spec fn view(&self) -> LinkView {
        match *self {
            Link::Open { id, address } => LinkView::Open { id, address: address@ },
            Link::Close { id } => LinkView::Close { id },
        }
    }
}

/// The connection changes of a list, one by one.
pub open spec fn link_views(v: Seq<Link>) -> Seq<LinkView> {
    Seq::new(v.len(), |i: int| v[i]@)
}

/// The kv addresses of a membership map, a later line for an id replacing
/// the earlier one.
pub open spec fn kv_lines(m: Seq<crate::common::Member>) -> Seq<(u64, Seq<char>)>
    decreases m.len(),
{
    if m.len() == 0 {
        Seq::empty()
    } else {
        put(kv_lines(m.drop_last()), m.last().id, m.last().address.kv_address@)
    }
}

/// The raft addresses of a membership map, a later line for an id replacing
/// the earlier one.
pub open spec fn raft_lines(m: Seq<crate::common::Member>) -> Seq<(u64, Seq<char>)>
    decreases m.len(),
{
    if m.len() == 0 {
        Seq::empty()
    } else {
        put(raft_lines(m.drop_last()), m.last().id, m.last().address.raft_address@)
    }
}

/// In a list without a repeated id, each line is the one found for its id.
pub proof fn lemma_line(s: Seq<(u64, Seq<char>)>, i: int)
    requires
        distinct(s),
        0 <= i < s.len(),
    ensures
        knows(s, s[i].0),
        position(s, s[i].0) == i,
        address_of(s, s[i].0) == s[i].1,
{
    let id = s[i].0;
    assert(knows(s, id));
    let p = position(s, id);
    assert(0 <= p < s.len() && s[p].0 == id);
    if p < i {
        assert(s[p].0 != s[i].0);
    } else if i < p {
        assert(s[i].0 != s[p].0);
    }
}

/// What a list holds after one more line at its end.
pub proof fn lemma_knows_push(s: Seq<(u64, Seq<char>)>, line: (u64, Seq<char>), id: u64)
    ensures
        knows(s.push(line), id) <==> (knows(s, id) || line.0 == id),
{
    let t = s.push(line);
    if knows(s, id) {
        let i = position(s, id);
        assert(t[i].0 == id);
    }
    if line.0 == id {
        assert(t[s.len() as int].0 == id);
    }
    if knows(t, id) {
        let i = position(t, id);
        if i < s.len() {
            assert(s[i].0 == id);
        }
    }
}

/// Setting an address keeps the ids apart, and changes the map at that id
/// alone.
pub proof fn lemma_put(s: Seq<(u64, Seq<char>)>, id: u64, address: Seq<char>)
    requires
        distinct(s),
    ensures
        distinct(put(s, id, address)),
        directory(put(s, id, address)) == directory(s).insert(id, address),
        put(s, id, address).len() == if knows(s, id) { s.len() } else { s.len() + 1 },
{
    let t = put(s, id, address);
    if knows(s, id) {
        let p = position(s, id);
        assert forall|i: int, j: int| 0 <= i < j < t.len() implies (#[trigger] t[i]).0 != (#[trigger] t[j]).0 by {
            assert(s[i].0 != s[j].0);
        }
    } else {
        assert forall|i: int, j: int| 0 <= i < j < t.len() implies (#[trigger] t[i]).0 != (#[trigger] t[j]).0 by {
            if j < s.len() {
                assert(s[i].0 != s[j].0);
            } else {
                assert(s[i].0 != id);
            }
        }
    }
    assert forall|k: u64| knows(t, k) <==> (knows(s, k) || k == id) by {
        if knows(s, id) {
            let p = position(s, id);
            if knows(s, k) {
                let i = position(s, k);
                assert(t[i].0 == k);
            }
            if k == id {
                assert(t[p].0 == k);
            }
            if knows(t, k) {
                let i = position(t, k);
                assert(s[i].0 == k || k == id);
            }
        } else {
            lemma_knows_push(s, (id, address), k);
        }
    }
    assert forall|k: u64| knows(t, k) implies address_of(t, k) == (if k == id { address } else { address_of(s, k) }) by {
        let i = position(t, k);
        assert(0 <= i < t.len() && t[i].0 == k);
        if k != id {
            assert(i < s.len());
            assert(s[i].0 == k);
            lemma_line(s, i);
        }
    }
    assert(directory(t) =~= directory(s).insert(id, address));
}

/// What stays of `local` has its ids apart, holds the ids that both lists
/// know, and gives each the address of `target`.
pub proof fn lemma_kept(local: Seq<(u64, Seq<char>)>, target: Seq<(u64, Seq<char>)>)
    requires
        distinct(local),
    ensures
        distinct(kept(local, target)),
        forall|k: u64| knows(kept(local, target), k) <==> (knows(local, k) && knows(target, k)),
        forall|i: int| 0 <= i < kept(local, target).len() ==> (#[trigger] kept(local, target)[i]).1
            == address_of(target, kept(local, target)[i].0),
    decreases local.len(),
{
    if local.len() > 0 {
        let front = local.drop_last();
        let rest = kept(front, target);
        let id = local.last().0;
        assert(distinct(front)) by {
            assert forall|i: int, j: int| 0 <= i < j < front.len() implies (#[trigger] front[i]).0 != (#[trigger] front[j]).0 by {
                assert(local[i].0 != local[j].0);
            }
        }
        lemma_kept(front, target);
        assert(local == front.push(local.last()));
        assert forall|k: u64| knows(local, k) <==> (knows(front, k) || k == id) by {
            lemma_knows_push(front, local.last(), k);
        }
        assert(!knows(front, id)) by {
            if knows(front, id) {
                let i = position(front, id);
                assert(local[i].0 != local[local.len() - 1].0);
            }
        }
        if knows(target, id) {
            let line = (id, address_of(target, id));
            let out = rest.push(line);
            assert forall|k: u64| knows(out, k) <==> (knows(local, k) && knows(target, k)) by {
                lemma_knows_push(rest, line, k);
            }
            assert forall|i: int, j: int| 0 <= i < j < out.len() implies (#[trigger] out[i]).0 != (#[trigger] out[j]).0 by {
                if j < rest.len() {
                    assert(rest[i].0 != rest[j].0);
                } else {
                    assert(knows(rest, rest[i].0));
                }
            }
        }
    }
}

/// What is new in `target` has its ids apart, holds the ids that `target`
/// knows and `local` does not, and gives each the address of `target`.
pub proof fn lemma_added(local: Seq<(u64, Seq<char>)>, target: Seq<(u64, Seq<char>)>)
    requires
        distinct(target),
    ensures
        distinct(added(local, target)),
        forall|k: u64| knows(added(local, target), k) <==> (!knows(local, k) && knows(target, k)),
        forall|i: int| 0 <= i < added(local, target).len() ==> (#[trigger] added(local, target)[i]).1
            == address_of(target, added(local, target)[i].0),
    decreases target.len(),
{
    if target.len() > 0 {
        let front = target.drop_last();
        let rest = added(local, front);
        let last = target.last();
        let n = target.len() - 1;
        assert(distinct(front)) by {
            assert forall|i: int, j: int| 0 <= i < j < front.len() implies (#[trigger] front[i]).0 != (#[trigger] front[j]).0 by {
                assert(target[i].0 != target[j].0);
            }
        }
        lemma_added(local, front);
        assert(target == front.push(last));
        assert forall|k: u64| knows(target, k) <==> (knows(front, k) || k == last.0) by {
            lemma_knows_push(front, last, k);
        }
        assert(!knows(front, last.0)) by {
            if knows(front, last.0) {
                let i = position(front, last.0);
                assert(target[i].0 != target[n].0);
            }
        }
        assert forall|k: u64| knows(front, k) implies address_of(front, k) == address_of(target, k) by {
            let i = position(front, k);
            assert(target[i].0 == k);
            lemma_line(target, i);
        }
        lemma_line(target, n);
        let out = added(local, target);
        assert forall|i: int| 0 <= i < out.len() implies (#[trigger] out[i]).1 == address_of(target, out[i].0) by {
            if i < rest.len() {
                assert(out[i] == rest[i]);
                assert(knows(rest, rest[i].0));
            }
        }
        if !knows(local, last.0) {
            assert forall|k: u64| knows(out, k) <==> (!knows(local, k) && knows(target, k)) by {
                lemma_knows_push(rest, last, k);
            }
            assert forall|i: int, j: int| 0 <= i < j < out.len() implies (#[trigger] out[i]).0 != (#[trigger] out[j]).0 by {
                if j < rest.len() {
                    assert(rest[i].0 != rest[j].0);
                } else {
                    assert(knows(rest, rest[i].0));
                }
            }
        }
    }
}

/// After a reply the directory has its ids apart and is, as a map, the
/// directory that the reply brought.
pub proof fn lemma_reconciled(local: Seq<(u64, Seq<char>)>, target: Seq<(u64, Seq<char>)>)
    requires
        distinct(local),
        distinct(target),
    ensures
        distinct(reconciled(local, target)),
        directory(reconciled(local, target)) == directory(target),
{
    let a = kept(local, target);
    let b = added(local, target);
    let r = reconciled(local, target);
    lemma_kept(local, target);
    lemma_added(local, target);
    assert forall|i: int, j: int| 0 <= i < j < r.len() implies (#[trigger] r[i]).0 != (#[trigger] r[j]).0 by {
        if j < a.len() {
            assert(r[i] == a[i] && r[j] == a[j]);
            assert(a[i].0 != a[j].0);
        } else if i >= a.len() {
            assert(r[i] == b[i - a.len()] && r[j] == b[j - a.len()]);
            assert(b[i - a.len()].0 != b[j - a.len()].0);
        } else {
            let k = a[i].0;
            assert(r[i] == a[i] && r[j] == b[j - a.len()]);
            assert(knows(a, k));
            assert(knows(local, k));
            if b[j - a.len()].0 == k {
                assert(knows(b, k));
                assert(!knows(local, k));
            }
        }
    }
    assert forall|k: u64| knows(r, k) <==> knows(target, k) by {
        if knows(a, k) {
            let i = position(a, k);
            assert(r[i].0 == k);
        }
        if knows(b, k) {
            let i = position(b, k);
            assert(r[a.len() + i].0 == k);
        }
        if knows(r, k) {
            let i = position(r, k);
            if i < a.len() {
                assert(a[i].0 == k);
            } else {
                assert(b[i - a.len()].0 == k);
            }
        }
    }
    assert forall|k: u64| knows(r, k) implies address_of(r, k) == address_of(target, k) by {
        let i = position(r, k);
        if i < a.len() {
            assert(r[i] == a[i]);
        } else {
            assert(r[i] == b[i - a.len()]);
        }
    }
    assert(directory(r) =~= directory(target));
}

/// Where every line of `local` stands in `target` with the same address,
/// all of `local` stays and no connection changes.
pub proof fn lemma_kept_all(local: Seq<(u64, Seq<char>)>, target: Seq<(u64, Seq<char>)>)
    requires
        forall|i: int| 0 <= i < local.len() ==> knows(target, (#[trigger] local[i]).0)
            && address_of(target, local[i].0) == local[i].1,
    ensures
        kept(local, target) == local,
        kept_links(local, target) == Seq::<LinkView>::empty(),
    decreases local.len(),
{
    if local.len() > 0 {
        let front = local.drop_last();
        assert forall|i: int| 0 <= i < front.len() implies knows(target, (#[trigger] front[i]).0)
            && address_of(target, front[i].0) == front[i].1 by {
            assert(front[i] == local[i]);
        }
        lemma_kept_all(front, target);
        assert(local[local.len() - 1] == local.last());
        assert(kept(local, target) =~= local);
    } else {
        assert(kept(local, target) =~= local);
    }
}

/// Where `local` knows every id of `target`, nothing is new.
pub proof fn lemma_added_none(local: Seq<(u64, Seq<char>)>, target: Seq<(u64, Seq<char>)>)
    requires
        forall|i: int| 0 <= i < target.len() ==> knows(local, (#[trigger] target[i]).0),
    ensures
        added(local, target) == Seq::<(u64, Seq<char>)>::empty(),
        added_links(local, target) == Seq::<LinkView>::empty(),
    decreases target.len(),
{
    if target.len() > 0 {
        let front = target.drop_last();
        assert forall|i: int| 0 <= i < front.len() implies knows(local, (#[trigger] front[i]).0) by {
            assert(front[i] == target[i]);
        }
        lemma_added_none(local, front);
        assert(target[target.len() - 1] == target.last());
    }
}

/// A reply that brings the directory the client already has, as a map,
/// leaves the client's lines and their order as they are, and asks for no
/// connection change.
pub proof fn lemma_reconciled_same(local: Seq<(u64, Seq<char>)>, target: Seq<(u64, Seq<char>)>)
    requires
        distinct(local),
        distinct(target),
        directory(local) == directory(target),
    ensures
        reconciled(local, target) == local,
        links(local, target) == Seq::<LinkView>::empty(),
{
    assert forall|k: u64| knows(local, k) == knows(target, k) by {
        assert(directory(local).contains_key(k) == knows(local, k));
        assert(directory(target).contains_key(k) == knows(target, k));
    }
    assert forall|i: int| 0 <= i < local.len() implies knows(target, (#[trigger] local[i]).0)
        && address_of(target, local[i].0) == local[i].1 by {
        lemma_line(local, i);
        assert(directory(local)[local[i].0] == address_of(local, local[i].0));
        assert(directory(target)[local[i].0] == address_of(target, local[i].0));
    }
    assert forall|i: int| 0 <= i < target.len() implies knows(local, (#[trigger] target[i]).0) by {
        lemma_line(target, i);
    }
    lemma_kept_all(local, target);
    lemma_added_none(local, target);
    assert(reconciled(local, target) =~= local);
    assert(links(local, target) =~= Seq::<LinkView>::empty());
}

/// The first id, in the order of `s`, that stands at `address`.
pub open spec fn owner(s: Seq<(u64, Seq<char>)>, address: Seq<char>) -> Option<u64>
    decreases s.len(),
{
    if s.len() == 0 {
        None
    } else if s[0].1 == address {
        Some(s[0].0)
    } else {
        owner(s.drop_first(), address)
    }
}

/// The node found at an address is a node of the list.
pub proof fn lemma_owner_known(s: Seq<(u64, Seq<char>)>, address: Seq<char>)
    ensures
        owner(s, address) matches Some(id) ==> knows(s, id),
    decreases s.len(),
{
    if s.len() > 0 {
        if s[0].1 == address {
            assert(knows(s, s[0].0));
        } else {
            let rest = s.drop_first();
            lemma_owner_known(rest, address);
            if let Some(id) = owner(rest, address) {
                let i = position(rest, id);
                assert(s[i + 1] == rest[i]);
            }
        }
    }
}

/// The two directories of a membership map hold the same ids at the same
/// places, each id once.
pub proof fn lemma_lines(m: Seq<crate::common::Member>)
    ensures
        distinct(kv_lines(m)),
        distinct(raft_lines(m)),
        kv_lines(m).len() == raft_lines(m).len(),
        forall|i: int| 0 <= i < kv_lines(m).len() ==> (#[trigger] kv_lines(m)[i]).0 == raft_lines(m)[i].0,
    decreases m.len(),
{
    if m.len() > 0 {
        let front = m.drop_last();
        let a = kv_lines(front);
        let b = raft_lines(front);
        let id = m.last().id;
        lemma_lines(front);
        lemma_put(a, id, m.last().address.kv_address@);
        lemma_put(b, id, m.last().address.raft_address@);
        if knows(a, id) {
            let i = position(a, id);
            assert(b[i].0 == id);
            lemma_line(b, i);
        }
        if knows(b, id) {
            let i = position(b, id);
            assert(a[i].0 == id);
            lemma_line(a, i);
        }
    }
}

/// The lines of `lines` with that of `id` first and the others after it,
/// in their order.
pub open spec fn led_by(lines: Seq<(u64, Seq<char>)>, id: u64) -> Seq<(u64, Seq<char>)> {
    reconciled(seq![(id, Seq::<char>::empty())], lines)
}

/// Putting the line of a known node first keeps the ids apart and the
/// directory, as a map, as it was.
pub proof fn lemma_led_by(lines: Seq<(u64, Seq<char>)>, id: u64)
    requires
        distinct(lines),
        knows(lines, id),
    ensures
        distinct(led_by(lines, id)),
        directory(led_by(lines, id)) == directory(lines),
        led_by(lines, id).len() > 0,
        led_by(lines, id)[0] == (id, address_of(lines, id)),
{
    let local = seq![(id, Seq::<char>::empty())];
    lemma_reconciled(local, lines);
    assert(local.drop_last() =~= Seq::<(u64, Seq<char>)>::empty());
    assert(kept(local.drop_last(), lines) =~= Seq::<(u64, Seq<char>)>::empty());
    assert(kept(local, lines) =~= seq![(id, address_of(lines, id))]);
}

/// One line of the directory.
#[derive(Debug)]
pub struct Route {
    pub id: u64,
    pub address: String,
}

/// The lines of a list of routes as plain values.
pub open spec fn lines(v: Seq<Route>) -> Seq<(u64, Seq<char>)> {
    Seq::new(v.len(), |i: int| (v[i].id, v[i].address@))
}

/// A directory of nodes: at most one address for an id, in a fixed order.
#[derive(Debug)]
pub struct AddressBook {
    routes: Vec<Route>,
}

impl View for AddressBook {
    type V = Seq<(u64, Seq<char>)>;

    closed spec fn view(&self) -> Seq<(u64, Seq<char>)> {
        lines(self.routes@)
    }
}

impl AddressBook {
    /// No id stands twice.
    pub open spec fn wf(&self) -> bool {
        distinct(self@)
    }

    /// The directory without a line.
    pub fn new() -> (r: AddressBook)
        ensures
            r.wf(),
            r@ == Seq::<(u64, Seq<char>)>::empty(),
    {
        let r = AddressBook { routes: Vec::new() };
        assert(r@ =~= Seq::<(u64, Seq<char>)>::empty());
        r
    }

    /// The number of nodes.
    pub fn len(&self) -> (n: usize)
        ensures
            n == self@.len(),
    {
        self.routes.len()
    }

    /// The place of the line for `id`.
    pub fn find(&self, id: u64) -> (r: Option<usize>)
        requires
            self.wf(),
        ensures
            match r {
                Some(i) => knows(self@, id) && i == position(self@, id),
                None => !knows(self@, id),
            },
    {
        let mut i: usize = 0;
        while i < self.routes.len()
            invariant
                self.wf(),
                i <= self.routes.len(),
                forall|k: int| 0 <= k < i ==> (#[trigger] self@[k]).0 != id,
            decreases self.routes.len() - i,
        {
            if self.routes[i].id == id {
                proof {
                    lemma_line(self@, i as int);
                }
                return Some(i);
            }
            i += 1;
        }
        None
    }

    /// Whether the directory has a line for `id`.
    pub fn contains(&self, id: u64) -> (r: bool)
        requires
            self.wf(),
        ensures
            r == knows(self@, id),
    {
        self.find(id).is_some()
    }

    /// The address of `id`.
    pub fn get(&self, id: u64) -> (r: Option<String>)
        requires
            self.wf(),
        ensures
            match r {
                Some(a) => knows(self@, id) && a@ == address_of(self@, id),
                None => !knows(self@, id),
            },
    {
        match self.find(id) {
            Some(i) => Some(self.routes[i].address.clone()),
            None => None,
        }
    }

    /// The id of the line at place `index`.
    pub fn id_at(&self, index: usize) -> (id: u64)
        requires
            index < self@.len(),
        ensures
            id == self@[index as int].0,
    {
        self.routes[index].id
    }

    /// The ids in the directory's order.
    pub fn ids(&self) -> (r: Vec<u64>)
        ensures
            r@.len() == self@.len(),
            forall|i: int| 0 <= i < r@.len() ==> r@[i] == (#[trigger] self@[i]).0,
    {
        let mut out: Vec<u64> = Vec::new();
        let mut i: usize = 0;
        while i < self.routes.len()
            invariant
                i <= self.routes.len(),
                out@.len() == i,
                forall|k: int| 0 <= k < i ==> out@[k] == (#[trigger] self@[k]).0,
            decreases self.routes.len() - i,
        {
            out.push(self.routes[i].id);
            i += 1;
        }
        out
    }

    /// One connection to open for each node, in the directory's order.
    pub fn connections(&self) -> (r: Vec<Link>)
        ensures
            link_views(r@) == all_open(self@),
    {
        let mut out: Vec<Link> = Vec::new();
        let mut i: usize = 0;
        while i < self.routes.len()
            invariant
                i <= self.routes.len(),
                out@.len() == i,
                link_views(out@) == all_open(self@.take(i as int)),
            decreases self.routes.len() - i,
        {
            let ghost before = out@;
            out.push(Link::Open { id: self.routes[i].id, address: self.routes[i].address.clone() });
            proof {
                let now = all_open(self@.take(i as int + 1));
                assert forall|k: int| 0 <= k < now.len() implies link_views(out@)[k] == now[k] by {
                    if k < i {
                        assert(out@[k] == before[k]);
                        assert(link_views(before)[k] == all_open(self@.take(i as int))[k]);
                    }
                }
                assert(link_views(out@) =~= now);
            }
            i += 1;
        }
        assert(self@.take(i as int) =~= self@);
        out
    }

    /// The first node, in the directory's order, that stands at `address`.
    pub fn owner_of(&self, address: &String) -> (r: Option<u64>)
        ensures
            r == owner(self@, address@),
    {
        let mut i: usize = 0;
        assert(self@.skip(0) =~= self@);
        while i < self.routes.len()
            invariant
                i <= self.routes.len(),
                owner(self@, address@) == owner(self@.skip(i as int), address@),
            decreases self.routes.len() - i,
        {
            if self.routes[i].address == *address {
                assert(self@.skip(i as int)[0] == self@[i as int]);
                return Some(self.routes[i].id);
            }
            assert(self@.skip(i as int)[0] == self@[i as int]);
            assert(self@.skip(i as int).drop_first() =~= self@.skip(i as int + 1));
            i += 1;
        }
        assert(self@.skip(i as int).len() == 0);
        None
    }

    /// Sets the address of `id`: in place where the directory has a line
    /// for it, at the end where it has none.
    pub fn insert(&mut self, id: u64, address: String)
        requires
            old(self).wf(),
        ensures
            final(self).wf(),
            final(self)@ == put(old(self)@, id, address@),
    {
        proof {
            lemma_put(self@, id, address@);
        }
        match self.find(id) {
            Some(i) => {
                self.routes[i] = Route { id, address };
                assert(self@ =~= put(old(self)@, id, address@));
            },
            None => {
                self.routes.push(Route { id, address });
                assert(self@ =~= put(old(self)@, id, address@));
            },
        }
    }

    /// Brings the directory in line with `target`, the directory that a
    /// reply brought, and returns the connection changes that follow.
    ///
    /// A node that `target` lacks leaves and its connection is closed. A
    /// node that stays keeps its place and takes the address of `target`;
    /// where that differs from the old one, the connection is opened anew.
    /// A node that is new comes at the end, in the order of `target`, and
    /// its connection is opened.
    pub fn reconcile(&mut self, target: &AddressBook) -> (changes: Vec<Link>)
        requires
            old(self).wf(),
            target.wf(),
        ensures
            final(self).wf(),
            final(self)@ == reconciled(old(self)@, target@),
            directory(final(self)@) == directory(target@),
            link_views(changes@) == links(old(self)@, target@),
    {
        let ghost local = self@;
        let mut out: Vec<Route> = Vec::new();
        let mut changes: Vec<Link> = Vec::new();
        let mut i: usize = 0;
        while i < self.routes.len()
            invariant
                i <= self.routes.len(),
                self@ == local,
                target.wf(),
                lines(out@) == kept(local.take(i as int), target@),
                link_views(changes@) == kept_links(local.take(i as int), target@),
            decreases self.routes.len() - i,
        {
            let id = self.routes[i].id;
            proof {
                assert(local.take(i as int + 1).drop_last() =~= local.take(i as int));
                assert(local.take(i as int + 1).last() == local[i as int]);
            }
            let ghost before = out@;
            let ghost changes_before = changes@;
            match target.find(id) {
                Some(j) => {
                    let address = target.routes[j].address.clone();
                    assert(address@ == address_of(target@, id));
                    if !(self.routes[i].address == address) {
                        changes.push(Link::Open { id, address: address.clone() });
                        assert(link_views(changes@) =~= link_views(changes_before).push(
                            LinkView::Open { id, address: address@ },
                        ));
                    }
                    out.push(Route { id, address });
                    assert(lines(out@) =~= lines(before).push((id, address_of(target@, id))));
                },
                None => {
                    changes.push(Link::Close { id });
                    assert(link_views(changes@) =~= link_views(changes_before).push(LinkView::Close { id }));
                },
            }
            i += 1;
        }
        assert(local.take(i as int) =~= local);
        let mut j: usize = 0;
        while j < target.routes.len()
            invariant
                j <= target.routes.len(),
                self@ == local,
                self.wf(),
                lines(out@) == kept(local, target@) + added(local, target@.take(j as int)),
                link_views(changes@) == kept_links(local, target@) + added_links(
                    local,
                    target@.take(j as int),
                ),
            decreases target.routes.len() - j,
        {
            let id = target.routes[j].id;
            proof {
                assert(target@.take(j as int + 1).drop_last() =~= target@.take(j as int));
                assert(target@.take(j as int + 1).last() == target@[j as int]);
            }
            let ghost before = out@;
            let ghost changes_before = changes@;
            if !self.contains(id) {
                let address = target.routes[j].address.clone();
                changes.push(Link::Open { id, address: address.clone() });
                out.push(Route { id, address });
                assert(lines(out@) =~= lines(before).push(target@[j as int]));
                assert(link_views(changes@) =~= link_views(changes_before).push(
                    LinkView::Open { id, address: target@[j as int].1 },
                ));
                assert(lines(out@) =~= kept(local, target@) + added(local, target@.take(j as int + 1)));
                assert(link_views(changes@) =~= kept_links(local, target@) + added_links(
                    local,
                    target@.take(j as int + 1),
                ));
            }
            j += 1;
        }
        assert(target@.take(j as int) =~= target@);
        proof {
            lemma_reconciled(local, target@);
        }
        self.routes = out;
        changes
    }
}

impl AddressMap {
    /// The directory of the nodes' kv addresses.
    pub fn kv_routes(&self) -> (r: AddressBook)
        ensures
            r.wf(),
            r@ == kv_lines(self.members@),
    {
        let mut out = AddressBook::new();
        let mut i: usize = 0;
        while i < self.members.len()
            invariant
                i <= self.members.len(),
                out.wf(),
                out@ == kv_lines(self.members@.take(i as int)),
            decreases self.members.len() - i,
        {
            proof {
                assert(self.members@.take(i as int + 1).drop_last() =~= self.members@.take(i as int));
                assert(self.members@.take(i as int + 1).last() == self.members@[i as int]);
            }
            out.insert(self.members[i].id, self.members[i].address.kv_address.clone());
            i += 1;
        }
        assert(self.members@.take(i as int) =~= self.members@);
        out
    }

    /// The directory of the nodes' raft addresses.
    pub fn raft_routes(&self) -> (r: AddressBook)
        ensures
            r.wf(),
            r@ == raft_lines(self.members@),
    {
        let mut out = AddressBook::new();
        let mut i: usize = 0;
        while i < self.members.len()
            invariant
                i <= self.members.len(),
                out.wf(),
                out@ == raft_lines(self.members@.take(i as int)),
            decreases self.members.len() - i,
        {
            proof {
                assert(self.members@.take(i as int + 1).drop_last() =~= self.members@.take(i as int));
                assert(self.members@.take(i as int + 1).last() == self.members@[i as int]);
            }
            out.insert(self.members[i].id, self.members[i].address.raft_address.clone());
            i += 1;
        }
        assert(self.members@.take(i as int) =~= self.members@);
        out
    }
}

} // verus!

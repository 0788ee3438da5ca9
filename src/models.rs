//! Players and identity-keyed player sets.

use crate::minecraft::json_data;
use vstd::prelude::*;
use vstd::string::StringExecFns;
use vstd::utf8::encode_utf8;

verus! {

/// A player: identity and display name. Two players are the same player
/// when their identities are equal, whatever their names.
#[derive(Debug, Clone)]
pub struct Player {
    id: String,
    name: String,
}

impl View for Player {
    /// Identity and name.
    type V = (Seq<char>, Seq<char>);

    closed spec fn view(&self) -> (Seq<char>, Seq<char>) {
        (self.id@, self.name@)
    }
}

impl Player {
    pub fn new(id: &str, name: &str) -> (r: Self)
        ensures
            r@ == (id@, name@),
    {
        Self { id: id.to_owned(), name: name.to_owned() }
    }

    pub fn id(&self) -> (r: &String)
        ensures
            r@ == self@.0,
    {
        &self.id
    }

    pub fn name(&self) -> (r: &String)
        ensures
            r@ == self@.1,
    {
        &self.name
    }

    /// A player of the status document's sample.
    pub fn from_sample(player: json_data::Player) -> (r: Self)
        ensures
            r@ == (player.id@, player.name@),
    {
        Self { id: player.id, name: player.name }
    }

    fn copy(&self) -> (r: Self)
        ensures
            r@ == self@,
    {
        Self { id: self.id.clone(), name: self.name.clone() }
    }
}

impl PartialEq for Player {
    fn eq(&self, other: &Player) -> (r: bool) {
        self.id == other.id
    }
}

impl vstd::std_specs::cmp::PartialEqSpecImpl for Player {
    open spec fn obeys_eq_spec() -> bool {
        true
    }

    open spec fn eq_spec(&self, other: &Player) -> bool {
        self@.0 == other@.0
    }
}

/// Entries (identity, name) keyed by identity; of several entries with one
/// identity, the first counts.
pub open spec fn entries_map(s: Seq<(Seq<char>, Seq<char>)>) -> Map<Seq<char>, Seq<char>>
    decreases s.len(),
{
    if s.len() == 0 {
        Map::empty()
    } else {
        let m = entries_map(s.drop_last());
        let e = s.last();
        if m.contains_key(e.0) {
            m
        } else {
            m.insert(e.0, e.1)
        }
    }
}

/// The (identity, name) entries of a sequence of players.
pub open spec fn entries_of(s: Seq<Player>) -> Seq<(Seq<char>, Seq<char>)> {
    s.map_values(|p: Player| p@)
}

/// No two entries share an identity.
pub open spec fn unique_keys(s: Seq<(Seq<char>, Seq<char>)>) -> bool {
    forall|i: int, j: int| 0 <= i < j < s.len() ==> s[i].0 != s[j].0
}

proof fn lemma_entries_map_dom(s: Seq<(Seq<char>, Seq<char>)>, id: Seq<char>)
    ensures
        entries_map(s).contains_key(id) <==> exists|j: int| 0 <= j < s.len() && s[j].0 == id,
    decreases s.len(),
{
    if s.len() > 0 {
        lemma_entries_map_dom(s.drop_last(), id);
        if exists|j: int| 0 <= j < s.len() && s[j].0 == id {
            let j = choose|j: int| 0 <= j < s.len() && s[j].0 == id;
            if j < s.len() - 1 {
                assert(s.drop_last()[j].0 == id);
            }
        }
        if exists|j: int| 0 <= j < s.len() - 1 && s.drop_last()[j].0 == id {
            let j = choose|j: int| 0 <= j < s.len() - 1 && s.drop_last()[j].0 == id;
            assert(s[j].0 == id);
        }
    }
}

proof fn lemma_entries_map_value(s: Seq<(Seq<char>, Seq<char>)>, j: int)
    requires
        unique_keys(s),
        0 <= j < s.len(),
    ensures
        entries_map(s).contains_key(s[j].0),
        entries_map(s)[s[j].0] == s[j].1,
    decreases s.len(),
{
    let t = s.drop_last();
    assert(unique_keys(t));
    if j < s.len() - 1 {
        lemma_entries_map_value(t, j);
        assert(t[j] == s[j]);
    } else {
        lemma_entries_map_dom(t, s[j].0);
        if entries_map(t).contains_key(s[j].0) {
            let k = choose|k: int| 0 <= k < t.len() && t[k].0 == s[j].0;
            assert(s[k].0 == s[j].0);
        }
    }
}

/// Appending an entry whose identity is new adds exactly that entry.
proof fn lemma_entries_map_push(s: Seq<(Seq<char>, Seq<char>)>, e: (Seq<char>, Seq<char>))
    requires
        !entries_map(s).contains_key(e.0),
    ensures
        entries_map(s.push(e)) == entries_map(s).insert(e.0, e.1),
{
    assert(s.push(e).drop_last() =~= s);
}

/// The index of the entry of `v` with identity `id`, if any.
fn find_id(v: &Vec<Player>, id: &String) -> (r: Option<usize>)
    ensures
        r matches Some(j) ==> j < v.len() && entries_of(v@)[j as int].0 == id@,
        r is None ==> forall|j: int| 0 <= j < v.len() ==> entries_of(v@)[j].0 != id@,
{
    let mut i: usize = 0;
    while i < v.len()
        invariant
            i <= v.len(),
            forall|j: int| 0 <= j < i ==> entries_of(v@)[j].0 != id@,
        decreases v.len() - i,
    {
        assert(entries_of(v@)[i as int] == v@[i as int]@);
        if v[i].id == *id {
            return Some(i);
        }
        i = i + 1;
    }
    None
}

/// `a` precedes or equals `b` in lexicographic byte order.
pub open spec fn bytes_le(a: Seq<u8>, b: Seq<u8>) -> bool
    decreases a.len(),
{
    if a.len() == 0 {
        true
    } else if b.len() == 0 {
        false
    } else if a[0] != b[0] {
        a[0] < b[0]
    } else {
        bytes_le(a.drop_first(), b.drop_first())
    }
}

/// Ascending in the order of `String`, which compares UTF-8 bytes.
pub open spec fn names_sorted(ns: Seq<Seq<char>>) -> bool {
    forall|i: int, j: int| 0 <= i < j < ns.len() ==> bytes_le(encode_utf8(ns[i]), encode_utf8(ns[j]))
}

/// `ns` holds the name of each player of `m` once.
pub open spec fn names_of(m: Map<Seq<char>, Seq<char>>, ns: Seq<Seq<char>>) -> bool {
    exists|ids: Seq<Seq<char>>|
        ids.no_duplicates() && ids.to_set() == m.dom() && #[trigger] ns.to_multiset() == ids.map_values(
            |i: Seq<char>| m[i],
        ).to_multiset()
}

/// Names separated by a comma and a space.
pub open spec fn join_names(ns: Seq<Seq<char>>) -> Seq<char>
    decreases ns.len(),
{
    if ns.len() == 0 {
        Seq::empty()
    } else if ns.len() == 1 {
        ns[0]
    } else {
        join_names(ns.drop_last()) + seq![',', ' '] + ns.last()
    }
}

/// `t` is how the players of `m` are shown: their names in ascending order,
/// separated by a comma and a space.
pub open spec fn players_text(m: Map<Seq<char>, Seq<char>>, t: Seq<char>) -> bool {
    exists|ns: Seq<Seq<char>>| names_sorted(ns) && names_of(m, ns) && t == join_names(ns)
}

/// The names in the given order, separated by a comma and a space.
pub fn join_names_text(names: &Vec<String>) -> (r: String)
    ensures
        r@ == join_names(names@.map_values(|s: String| s@)),
{
    let ghost ns = names@.map_values(|s: String| s@);
    let mut out = String::new();
    let mut k: usize = 0;
    proof {
        reveal_strlit(", ");
    }
    assert(ns.take(0) =~= Seq::<Seq<char>>::empty());
    while k < names.len()
        invariant
            ns == names@.map_values(|s: String| s@),
            k <= names.len(),
            out@ == join_names(ns.take(k as int)),
            ", "@ == seq![',', ' '],
        decreases names.len() - k,
    {
        assert(ns.take(k + 1).drop_last() =~= ns.take(k as int));
        assert(ns.take(k + 1).last() == names@[k as int]@);
        if k > 0 {
            out.append(", ");
        }
        out.append(names[k].as_str());
        k = k + 1;
    }
    assert(ns.take(k as int) =~= ns);
    out
}

/// Relies on `slice::sort` over `String`: the strings are permuted into
/// ascending order of `String`'s `Ord`, which compares their UTF-8 bytes
/// lexicographically.
#[verifier::external_body]
fn sort_names(names: &mut Vec<String>)
    ensures
        final(names)@.len() == old(names)@.len(),
        final(names)@.map_values(|s: String| s@).to_multiset() == old(names)@.map_values(
            |s: String| s@,
        ).to_multiset(),
        names_sorted(final(names)@.map_values(|s: String| s@)),
{
    names.sort();
}

/// A set of players, at most one per identity.
#[derive(Debug)]
pub struct Players {
    players: Vec<Player>,
}

impl View for Players {
    /// Name of each player, keyed by identity.
    type V = Map<Seq<char>, Seq<char>>;

    closed spec fn view(&self) -> Map<Seq<char>, Seq<char>> {
        entries_map(entries_of(self.players@))
    }
}

impl Players {
    #[verifier::type_invariant]
    spec fn wf(self) -> bool {
        unique_keys(entries_of(self.players@))
    }

    /// The set of the given players; of several with one identity the first
    /// is kept.
    pub fn from(players: Vec<Player>) -> (r: Players)
        ensures
            r@ == entries_map(entries_of(players@)),
    {
        let ghost all = entries_of(players@);
        let mut kept: Vec<Player> = Vec::new();
        let mut i: usize = 0;
        assert(entries_of(kept@) =~= Seq::<(Seq<char>, Seq<char>)>::empty());
        assert(all.take(0) =~= Seq::<(Seq<char>, Seq<char>)>::empty());
        while i < players.len()
            invariant
                all == entries_of(players@),
                i <= players.len(),
                unique_keys(entries_of(kept@)),
                entries_map(entries_of(kept@)) == entries_map(all.take(i as int)),
            decreases players.len() - i,
        {
            let p = &players[i];
            assert(all.take(i + 1).drop_last() =~= all.take(i as int));
            assert(all.take(i + 1).last() == p@);
            proof {
                lemma_entries_map_dom(entries_of(kept@), p@.0);
            }
            if find_id(&kept, &p.id).is_none() {
                let ghost before = entries_of(kept@);
                proof {
                    lemma_entries_map_push(before, p@);
                }
                kept.push(p.copy());
                assert(entries_of(kept@) =~= before.push(p@));
            }
            i = i + 1;
        }
        assert(all.take(players.len() as int) =~= all);
        Players { players: kept }
    }

    /// The set of the players of a status document's sample.
    pub fn from_sample(sample: &Vec<json_data::Player>) -> (r: Players)
        ensures
            r@ == entries_map(sample@.map_values(|p: json_data::Player| (p.id@, p.name@))),
    {
        let mut players: Vec<Player> = Vec::new();
        let mut i: usize = 0;
        while i < sample.len()
            invariant
                i <= sample.len(),
                entries_of(players@) =~= sample@.take(i as int).map_values(
                    |p: json_data::Player| (p.id@, p.name@),
                ),
            decreases sample.len() - i,
        {
            let p = Player { id: sample[i].id.clone(), name: sample[i].name.clone() };
            let ghost before = players@;
            players.push(p);
            assert(sample@.take(i + 1) =~= sample@.take(i as int).push(sample@[i as int]));
            assert(entries_of(players@) =~= entries_of(before).push(p@));
            i = i + 1;
        }
        assert(sample@.take(sample.len() as int) =~= sample@);
        Players::from(players)
    }

    /// A second set with the same players.
    pub fn copy(&self) -> (r: Players)
        ensures
            r@ == self@,
    {
        proof {
            use_type_invariant(self);
        }
        let mut out: Vec<Player> = Vec::new();
        let mut i: usize = 0;
        while i < self.players.len()
            invariant
                i <= self.players.len(),
                entries_of(out@) =~= entries_of(self.players@).take(i as int),
            decreases self.players.len() - i,
        {
            let ghost before = out@;
            out.push(self.players[i].copy());
            assert(entries_of(out@) =~= entries_of(before).push(self.players@[i as int]@));
            i = i + 1;
        }
        assert(entries_of(self.players@).take(i as int) =~= entries_of(self.players@));
        Players { players: out }
    }

    /// The players of `self` whose identity is not in `rhs`; names play no
    /// part.
    pub fn difference(&self, rhs: &Players) -> (r: Players)
        ensures
            r@ == self@.remove_keys(rhs@.dom()),
    {
        proof {
            use_type_invariant(self);
            use_type_invariant(rhs);
        }
        let ghost all = entries_of(self.players@);
        let mut out: Vec<Player> = Vec::new();
        let mut i: usize = 0;
        assert(all.take(0) =~= Seq::<(Seq<char>, Seq<char>)>::empty());
        assert(entries_of(out@) =~= Seq::<(Seq<char>, Seq<char>)>::empty());
        assert(entries_map(all.take(0)).remove_keys(rhs@.dom()) =~= Map::empty());
        while i < self.players.len()
            invariant
                all == entries_of(self.players@),
                unique_keys(all),
                i <= self.players.len(),
                unique_keys(entries_of(out@)),
                entries_map(entries_of(out@)) == entries_map(all.take(i as int)).remove_keys(
                    rhs@.dom(),
                ),
                forall|k: int|
                    0 <= k < out.len() ==> entries_map(all.take(i as int)).contains_key(
                        #[trigger] entries_of(out@)[k].0,
                    ),
            decreases self.players.len() - i,
        {
            let p = &self.players[i];
            let ghost e = all[i as int];
            let ghost prefix = all.take(i as int);
            assert(e == p@);
            assert(all.take(i + 1) =~= prefix.push(e));
            proof {
                lemma_entries_map_dom(prefix, e.0);
                if entries_map(prefix).contains_key(e.0) {
                    let k = choose|k: int| 0 <= k < prefix.len() && prefix[k].0 == e.0;
                    assert(all[k].0 == all[i as int].0);
                }
                lemma_entries_map_push(prefix, e);
                lemma_entries_map_dom(entries_of(rhs.players@), e.0);
            }
            if find_id(&rhs.players, &p.id).is_none() {
                let ghost before = entries_of(out@);
                proof {
                    lemma_entries_map_dom(before, e.0);
                    if entries_map(before).contains_key(e.0) {
                        let k = choose|k: int| 0 <= k < before.len() && before[k].0 == e.0;
                        assert(entries_map(prefix).contains_key(before[k].0));
                    }
                    lemma_entries_map_push(before, e);
                }
                out.push(p.copy());
                assert(entries_of(out@) =~= before.push(e));
                assert(entries_map(entries_of(out@)) =~= entries_map(all.take(i + 1)).remove_keys(
                    rhs@.dom(),
                ));
            } else {
                assert(entries_map(entries_of(out@)) =~= entries_map(all.take(i + 1)).remove_keys(
                    rhs@.dom(),
                ));
            }
            i = i + 1;
        }
        assert(all.take(i as int) =~= all);
        Players { players: out }
    }

    /// Whether every player of `self` is in `other` under the same name.
    fn included_in(&self, other: &Players) -> (r: bool)
        ensures
            r == forall|k: Seq<char>|
                #[trigger] self@.contains_key(k) ==> other@.contains_key(k) && other@[k] == self@[k],
    {
        proof {
            use_type_invariant(self);
            use_type_invariant(other);
        }
        let ghost mine = entries_of(self.players@);
        let ghost theirs = entries_of(other.players@);
        let mut i: usize = 0;
        while i < self.players.len()
            invariant
                mine == entries_of(self.players@),
                theirs == entries_of(other.players@),
                unique_keys(mine),
                unique_keys(theirs),
                i <= self.players.len(),
                forall|j: int|
                    0 <= j < i ==> other@.contains_key(#[trigger] mine[j].0) && other@[mine[j].0]
                        == mine[j].1,
            decreases self.players.len() - i,
        {
            let p = &self.players[i];
            assert(mine[i as int] == p@);
            proof {
                lemma_entries_map_value(mine, i as int);
            }
            match find_id(&other.players, &p.id) {
                Some(j) => {
                    assert(theirs[j as int] == other.players@[j as int]@);
                    proof {
                        lemma_entries_map_value(theirs, j as int);
                    }
                    if other.players[j].name != p.name {
                        assert(self@.contains_key(mine[i as int].0));
                        assert(other@[mine[i as int].0] != self@[mine[i as int].0]);
                        return false;
                    }
                },
                None => {
                    proof {
                        lemma_entries_map_dom(theirs, p@.0);
                    }
                    assert(self@.contains_key(mine[i as int].0));
                    assert(!other@.contains_key(mine[i as int].0));
                    return false;
                },
            }
            i = i + 1;
        }
        proof {
            assert forall|k: Seq<char>| #[trigger] self@.contains_key(k) implies other@.contains_key(k)
                && other@[k] == self@[k] by {
                lemma_entries_map_dom(mine, k);
                let j = choose|j: int| 0 <= j < mine.len() && mine[j].0 == k;
                lemma_entries_map_value(mine, j);
            }
        }
        true
    }

    /// The names of the players in ascending order, separated by a comma and
    /// a space.
    pub fn to_string(&self) -> (r: String)
        ensures
            players_text(self@, r@),
    {
        proof {
            use_type_invariant(self);
        }
        let ghost all = entries_of(self.players@);
        let mut names: Vec<String> = Vec::new();
        let mut i: usize = 0;
        while i < self.players.len()
            invariant
                all == entries_of(self.players@),
                i <= self.players.len(),
                names@.map_values(|s: String| s@) =~= all.take(i as int).map_values(
                    |e: (Seq<char>, Seq<char>)| e.1,
                ),
            decreases self.players.len() - i,
        {
            let ghost before = names@;
            names.push(self.players[i].name.clone());
            assert(all[i as int] == self.players@[i as int]@);
            assert(names@ =~= before.push(self.players@[i as int].name));
            assert(names@.map_values(|s: String| s@) =~= before.map_values(|s: String| s@).push(
                all[i as int].1,
            ));
            assert(all.take(i + 1) =~= all.take(i as int).push(all[i as int]));
            assert(all.take(i + 1).map_values(|e: (Seq<char>, Seq<char>)| e.1) =~= all.take(
                i as int,
            ).map_values(|e: (Seq<char>, Seq<char>)| e.1).push(all[i as int].1));
            i = i + 1;
        }
        let ghost unsorted = names@.map_values(|s: String| s@);
        let ghost ids = all.map_values(|e: (Seq<char>, Seq<char>)| e.0);
        proof {
            assert(all.take(i as int) =~= all);
            let m = self@;
            assert(ids.no_duplicates());
            assert forall|k: Seq<char>| #[trigger] ids.to_set().contains(k) == m.dom().contains(k) by {
                lemma_entries_map_dom(all, k);
                if m.dom().contains(k) {
                    let j = choose|j: int| 0 <= j < all.len() && all[j].0 == k;
                    assert(ids[j] == k);
                }
                if ids.to_set().contains(k) {
                    let j = choose|j: int| 0 <= j < ids.len() && ids[j] == k;
                    assert(all[j].0 == k);
                }
            }
            assert(ids.to_set() =~= m.dom());
            assert forall|j: int| 0 <= j < ids.len() implies #[trigger] unsorted[j] == m[ids[j]] by {
                lemma_entries_map_value(all, j);
            }
            assert(unsorted =~= ids.map_values(|k: Seq<char>| m[k]));
        }
        sort_names(&mut names);
        let ghost ns = names@.map_values(|s: String| s@);
        assert(names_of(self@, ns));
        join_names_text(&names)
    }

    pub fn is_empty(&self) -> (r: bool)
        ensures
            r == (self@.dom() == Set::<Seq<char>>::empty()),
    {
        proof {
            use_type_invariant(self);
            if self.players.len() > 0 {
                lemma_entries_map_value(entries_of(self.players@), 0);
                assert(self@.dom().contains(self.players@[0]@.0));
                assert(!Set::<Seq<char>>::empty().contains(self.players@[0]@.0));
            } else {
                assert(self@.dom() =~= Set::<Seq<char>>::empty());
            }
        }
        self.players.len() == 0
    }
}

impl PartialEq for Players {
    /// Equal when both hold the same identities under the same names.
    fn eq(&self, other: &Players) -> (r: bool) {
        let r = self.included_in(other) && other.included_in(self);
        proof {
            if r {
                assert(self@ =~= other@);
            }
        }
        r
    }
}

impl vstd::std_specs::cmp::PartialEqSpecImpl for Players {
    open spec fn obeys_eq_spec() -> bool {
        true
    }

    open spec fn eq_spec(&self, other: &Players) -> bool {
        self@ == other@
    }
}

impl<'a, 'b> core::ops::Sub<&'b Players> for &'a Players {
    type Output = Players;

    /// Same as `Players::difference`.
    fn sub(self, rhs: &'b Players) -> Players {
        self.difference(rhs)
    }
}

impl<'a, 'b> vstd::std_specs::ops::SubSpecImpl<&'b Players> for &'a Players {
    open spec fn obeys_sub_spec() -> bool {
        false
    }

    open spec fn sub_req(self, rhs: &'b Players) -> bool {
        true
    }

    open spec fn sub_spec(self, rhs: &'b Players) -> Players {
        arbitrary()
    }
}

/// Set difference goes by identity alone: a player whose identity is in both
/// sets is in neither difference, whatever names the two sets give it, and
/// no identity is in both `a - b` and `b - a`.
pub proof fn lemma_difference_by_identity(a: Players, b: Players)
    ensures
        forall|id: Seq<char>|
            a@.contains_key(id) && b@.contains_key(id) ==> !(#[trigger] a@.remove_keys(
                b@.dom(),
            ).contains_key(id)) && !b@.remove_keys(a@.dom()).contains_key(id),
        a@.remove_keys(b@.dom()).dom().disjoint(b@.remove_keys(a@.dom()).dom()),
{
}

} // verus!

use vstd::prelude::*;

use base64::Engine;

verus! {

/// What the mDNS discovery reads of the agent info of a local or remote agent: the space it
/// is part of and the agent's key.
pub struct AgentInfo {
    pub space: Vec<u8>,
    pub agent: Vec<u8>,
}

/// The spaces of `infos`.
pub open spec fn spaces_of(infos: Seq<AgentInfo>) -> Set<Seq<u8>> {
    Set::new(|s: Seq<u8>| exists|i: int| 0 <= i < infos.len() && #[trigger] infos[i].space@ == s)
}

/// No space occurs twice in `spaces`.
pub open spec fn distinct_spaces(spaces: Seq<Vec<u8>>) -> bool {
    forall|i: int, j: int|
        0 <= i < spaces.len() && 0 <= j < spaces.len() && i != j ==> #[trigger] spaces[i]@
            != #[trigger] spaces[j]@
}

pub open spec fn space_set(spaces: Seq<Vec<u8>>) -> Set<Seq<u8>> {
    Set::new(|s: Seq<u8>| exists|i: int| 0 <= i < spaces.len() && #[trigger] spaces[i]@ == s)
}

fn bytes_eq(a: &Vec<u8>, b: &Vec<u8>) -> (r: bool)
    ensures
        r == (a@ == b@),
{
    if a.len() != b.len() {
        return false;
    }
    let mut i: usize = 0;
    while i < a.len()
        invariant
            a@.len() == b@.len(),
            i <= a@.len(),
            forall|k: int| 0 <= k < i ==> a@[k] == b@[k],
        decreases a@.len() - i,
    {
        if a[i] != b[i] {
            return false;
        }
        i = i + 1;
    }
    assert(a@ =~= b@);
    true
}

fn contains_space(spaces: &Vec<Vec<u8>>, space: &Vec<u8>) -> (r: bool)
    ensures
        r == space_set(spaces@).contains(space@),
{
    let mut i: usize = 0;
    while i < spaces.len()
        invariant
            i <= spaces@.len(),
            forall|k: int| 0 <= k < i ==> #[trigger] spaces@[k]@ != space@,
        decreases spaces@.len() - i,
    {
        if bytes_eq(&spaces[i], space) {
            assert(space_set(spaces@).contains(space@));
            return true;
        }
        i = i + 1;
    }
    false
}

/// The spaces in which the local agents take part and that are not listened to yet, each
/// once, in the order in which they first appear.
pub fn new_spaces(listened: &Vec<Vec<u8>>, agent_infos: &Vec<AgentInfo>) -> (r: Vec<Vec<u8>>)
    ensures
        distinct_spaces(r@),
        space_set(r@) == spaces_of(agent_infos@).difference(space_set(listened@)),
{
    let mut r: Vec<Vec<u8>> = Vec::new();
    let mut i: usize = 0;
    while i < agent_infos.len()
        invariant
            i <= agent_infos@.len(),
            distinct_spaces(r@),
            space_set(r@) == spaces_of(agent_infos@.take(i as int)).difference(
                space_set(listened@),
            ),
        decreases agent_infos@.len() - i,
    {
        let space = &agent_infos[i].space;
        let ghost prefix = agent_infos@.take(i as int);
        let ghost next = agent_infos@.take(i + 1);
        assert(spaces_of(next) =~= spaces_of(prefix).insert(space@)) by {
            assert forall|s: Seq<u8>| spaces_of(next).contains(s) <==> spaces_of(prefix).insert(
                space@,
            ).contains(s) by {
                if spaces_of(next).contains(s) {
                    let k = choose|k: int| 0 <= k < next.len() && #[trigger] next[k].space@ == s;
                    if k < i {
                        assert(prefix[k] == next[k]);
                    }
                }
                if spaces_of(prefix).contains(s) {
                    let k = choose|k: int| 0 <= k < prefix.len() && #[trigger] prefix[k].space@ == s;
                    assert(next[k] == prefix[k]);
                }
                if s == space@ {
                    assert(next[i as int].space@ == s);
                }
            }
        }
        if !contains_space(listened, space) && !contains_space(&r, space) {
            let ghost before = r@;
            r.push(space.clone());
            proof {
                let n = (r@.len() - 1) as int;
                assert(r@[n]@ == space@);
                assert(distinct_spaces(r@)) by {
                    assert forall|a: int, b: int|
                        0 <= a < r@.len() && 0 <= b < r@.len() && a != b implies #[trigger] r@[a]@
                        != #[trigger] r@[b]@ by {
                        if a == n {
                            assert(r@[b] == before[b]);
                            assert(space_set(before).contains(before[b]@));
                        } else if b == n {
                            assert(r@[a] == before[a]);
                            assert(space_set(before).contains(before[a]@));
                        } else {
                            assert(r@[a] == before[a]);
                            assert(r@[b] == before[b]);
                        }
                    }
                }
                assert(space_set(r@) =~= space_set(before).insert(space@)) by {
                    assert forall|s: Seq<u8>| space_set(r@).contains(s) <==> space_set(before).insert(
                        space@,
                    ).contains(s) by {
                        if space_set(r@).contains(s) {
                            let k = choose|k: int| 0 <= k < r@.len() && #[trigger] r@[k]@ == s;
                            if k < n {
                                assert(r@[k] == before[k]);
                            }
                        }
                        if space_set(before).contains(s) {
                            let k = choose|k: int| 0 <= k < before.len() && #[trigger] before[k]@ == s;
                            assert(r@[k] == before[k]);
                        }
                    }
                }
            }
        }
        i = i + 1;
    }
    assert(agent_infos@.take(agent_infos@.len() as int) =~= agent_infos@);
    r
}

/// Pushing a space that is not there yet onto a list of distinct spaces.
proof fn lemma_push_space(before: Seq<Vec<u8>>, v: Vec<u8>)
    requires
        distinct_spaces(before),
        !space_set(before).contains(v@),
    ensures
        distinct_spaces(before.push(v)),
        space_set(before.push(v)) == space_set(before).insert(v@),
{
    let r = before.push(v);
    let n = before.len() as int;
    assert forall|a: int, b: int|
        0 <= a < r.len() && 0 <= b < r.len() && a != b implies #[trigger] r[a]@ != #[trigger] r[b]@ by {
        if a == n {
            assert(r[b] == before[b]);
            assert(space_set(before).contains(before[b]@));
        } else if b == n {
            assert(r[a] == before[a]);
            assert(space_set(before).contains(before[a]@));
        } else {
            assert(r[a] == before[a]);
            assert(r[b] == before[b]);
        }
    }
    assert forall|s: Seq<u8>| space_set(r).contains(s) <==> space_set(before).insert(v@).contains(s) by {
        if space_set(r).contains(s) {
            let k = choose|k: int| 0 <= k < r.len() && #[trigger] r[k]@ == s;
            if k < n {
                assert(r[k] == before[k]);
            }
        }
        if space_set(before).contains(s) {
            let k = choose|k: int| 0 <= k < before.len() && #[trigger] before[k]@ == s;
            assert(r[k] == before[k]);
        }
        if s == v@ {
            assert(r[n]@ == s);
        }
    }
    assert(space_set(r) =~= space_set(before).insert(v@));
}

/// The (space, agent) pairs of `pairs`.
pub open spec fn pair_set(pairs: Seq<(Vec<u8>, Vec<u8>)>) -> Set<(Seq<u8>, Seq<u8>)> {
    Set::new(
        |p: (Seq<u8>, Seq<u8>)|
            exists|i: int| 0 <= i < pairs.len() && #[trigger] pairs[i].0@ == p.0 && pairs[i].1@ == p.1,
    )
}

/// No (space, agent) pair occurs twice in `pairs`.
pub open spec fn distinct_pairs(pairs: Seq<(Vec<u8>, Vec<u8>)>) -> bool {
    forall|i: int, j: int|
        0 <= i < pairs.len() && 0 <= j < pairs.len() && i != j ==> !(#[trigger] pairs[i].0@
            == #[trigger] pairs[j].0@ && pairs[i].1@ == pairs[j].1@)
}

fn contains_pair(pairs: &Vec<(Vec<u8>, Vec<u8>)>, space: &Vec<u8>, agent: &Vec<u8>) -> (r: bool)
    ensures
        r == pair_set(pairs@).contains((space@, agent@)),
{
    let mut i: usize = 0;
    while i < pairs.len()
        invariant
            i <= pairs@.len(),
            forall|k: int| 0 <= k < i ==> !(#[trigger] pairs@[k].0@ == space@ && pairs@[k].1@ == agent@),
        decreases pairs@.len() - i,
    {
        if bytes_eq(&pairs[i].0, space) && bytes_eq(&pairs[i].1, agent) {
            assert(pair_set(pairs@).contains((space@, agent@)));
            return true;
        }
        i = i + 1;
    }
    false
}

/// The state of mDNS discovery: the spaces listened to, and the (space, agent) pairs broadcast
/// so far, each once.
pub struct MdnsBootstrap {
    listened: Vec<Vec<u8>>,
    broadcasting: Vec<(Vec<u8>, Vec<u8>)>,
}

impl MdnsBootstrap {
    /// The spaces listened to.
    pub closed spec fn listened_spaces(&self) -> Set<Seq<u8>> {
        space_set(self.listened@)
    }

    /// The (space, agent) pairs that have a broadcast running.
    pub closed spec fn broadcast_pairs(&self) -> Set<(Seq<u8>, Seq<u8>)> {
        pair_set(self.broadcasting@)
    }

    /// No space is recorded twice, nor any pair.
    pub closed spec fn well_formed(&self) -> bool {
        distinct_spaces(self.listened@) && distinct_pairs(self.broadcasting@)
    }

    /// Nothing listened to, nothing broadcast.
    pub fn new() -> (r: Self)
        ensures
            r.well_formed(),
            r.listened_spaces() == Set::<Seq<u8>>::empty(),
            r.broadcast_pairs() == Set::<(Seq<u8>, Seq<u8>)>::empty(),
    {
        let r = MdnsBootstrap { listened: Vec::new(), broadcasting: Vec::new() };
        assert(r.listened_spaces() =~= Set::<Seq<u8>>::empty());
        assert(r.broadcast_pairs() =~= Set::<(Seq<u8>, Seq<u8>)>::empty());
        r
    }

    /// The spaces of the local agents that are not listened to yet, each once: a space whose
    /// listening failed is offered again.
    pub fn spaces_to_listen(&self, agent_infos: &Vec<AgentInfo>) -> (r: Vec<Vec<u8>>)
        ensures
            distinct_spaces(r@),
            space_set(r@) == spaces_of(agent_infos@).difference(self.listened_spaces()),
    {
        new_spaces(&self.listened, agent_infos)
    }

    /// Records how listening to `space` went: a space is recorded only once listening to it
    /// started, so that it is listened to at most once.
    pub fn listen_result(&mut self, space: Vec<u8>, listening: bool)
        requires
            old(self).well_formed(),
        ensures
            final(self).well_formed(),
            final(self).broadcast_pairs() == old(self).broadcast_pairs(),
            final(self).listened_spaces() == if listening {
                old(self).listened_spaces().insert(space@)
            } else {
                old(self).listened_spaces()
            },
    {
        if listening && !contains_space(&self.listened, &space) {
            proof {
                lemma_push_space(self.listened@, space);
            }
            self.listened.push(space);
        } else if listening {
            assert(self.listened_spaces().insert(space@) =~= self.listened_spaces());
        }
    }

    /// Records that the pair of `space` and `agent` is broadcast from now on; the result says
    /// whether a broadcast of that pair was running before, which has to be stopped first so
    /// that each pair has one broadcast at most.
    pub fn start_broadcast(&mut self, space: &Vec<u8>, agent: &Vec<u8>) -> (stop_previous: bool)
        requires
            old(self).well_formed(),
        ensures
            final(self).well_formed(),
            final(self).listened_spaces() == old(self).listened_spaces(),
            stop_previous == old(self).broadcast_pairs().contains((space@, agent@)),
            final(self).broadcast_pairs() == old(self).broadcast_pairs().insert((space@, agent@)),
    {
        if contains_pair(&self.broadcasting, space, agent) {
            assert(self.broadcast_pairs().insert((space@, agent@)) =~= self.broadcast_pairs());
            return true;
        }
        let ghost before = self.broadcasting@;
        self.broadcasting.push((space.clone(), agent.clone()));
        proof {
            let r = self.broadcasting@;
            let n = before.len() as int;
            assert(r[n].0@ == space@ && r[n].1@ == agent@);
            assert forall|a: int, b: int|
                0 <= a < r.len() && 0 <= b < r.len() && a != b implies !(#[trigger] r[a].0@
                == #[trigger] r[b].0@ && r[a].1@ == r[b].1@) by {
                if a == n {
                    assert(r[b] == before[b]);
                    assert(pair_set(before).contains((before[b].0@, before[b].1@)));
                } else if b == n {
                    assert(r[a] == before[a]);
                    assert(pair_set(before).contains((before[a].0@, before[a].1@)));
                } else {
                    assert(r[a] == before[a]);
                    assert(r[b] == before[b]);
                }
            }
            assert forall|p: (Seq<u8>, Seq<u8>)| pair_set(r).contains(p) <==> pair_set(
                before,
            ).insert((space@, agent@)).contains(p) by {
                if pair_set(r).contains(p) {
                    let k = choose|k: int|
                        0 <= k < r.len() && #[trigger] r[k].0@ == p.0 && r[k].1@ == p.1;
                    if k < n {
                        assert(r[k] == before[k]);
                    }
                }
                if pair_set(before).contains(p) {
                    let k = choose|k: int|
                        0 <= k < before.len() && #[trigger] before[k].0@ == p.0 && before[k].1@ == p.1;
                    assert(r[k] == before[k]);
                }
                if p == (space@, agent@) {
                    assert(r[n].0@ == p.0);
                }
            }
            assert(pair_set(r) =~= pair_set(before).insert((space@, agent@)));
        }
        false
    }
}

/// Whether a remote agent found over mDNS has to be added to the conductor: none of the agents
/// the conductor knows has its key.
pub fn should_add_remote_agent(remote_agent: &Vec<u8>, agent_infos: &Vec<AgentInfo>) -> (r: bool)
    ensures
        r == forall|i: int| 0 <= i < agent_infos@.len() ==> #[trigger] agent_infos@[i].agent@ != remote_agent@,
{
    let mut i: usize = 0;
    while i < agent_infos.len()
        invariant
            i <= agent_infos@.len(),
            forall|k: int| 0 <= k < i ==> #[trigger] agent_infos@[k].agent@ != remote_agent@,
        decreases agent_infos@.len() - i,
    {
        if bytes_eq(&agent_infos[i].agent, remote_agent) {
            return false;
        }
        i = i + 1;
    }
    true
}

/// The character of the URL-safe base64 alphabet (RFC 4648, section 5) for the 6-bit value
/// `v`: `A`-`Z`, `a`-`z`, `0`-`9`, then `-` and `_`.
pub open spec fn base64_url_char(v: int) -> char {
    if v < 26 {
        (65 + v) as char
    } else if v < 52 {
        (97 + v - 26) as char
    } else if v < 62 {
        (48 + v - 52) as char
    } else if v == 62 {
        '-'
    } else {
        '_'
    }
}

/// The URL-safe base64 encoding of `bytes`, without padding: each group of three bytes gives
/// four characters, a last group of two bytes gives three, and of one byte two.
pub open spec fn base64_url_safe_no_pad(bytes: Seq<u8>) -> Seq<char>
    decreases bytes.len(),
{
    if bytes.len() == 0 {
        Seq::empty()
    } else if bytes.len() == 1 {
        let b0 = bytes[0] as int;
        seq![base64_url_char(b0 / 4), base64_url_char((b0 % 4) * 16)]
    } else if bytes.len() == 2 {
        let b0 = bytes[0] as int;
        let b1 = bytes[1] as int;
        seq![
            base64_url_char(b0 / 4),
            base64_url_char((b0 % 4) * 16 + b1 / 16),
            base64_url_char((b1 % 16) * 4),
        ]
    } else {
        let b0 = bytes[0] as int;
        let b1 = bytes[1] as int;
        let b2 = bytes[2] as int;
        seq![
            base64_url_char(b0 / 4),
            base64_url_char((b0 % 4) * 16 + b1 / 16),
            base64_url_char((b1 % 16) * 4 + b2 / 64),
            base64_url_char(b2 % 64),
        ] + base64_url_safe_no_pad(bytes.skip(3))
    }
}

/// `BASE64_URL_SAFE_NO_PAD.encode` of the `base64` crate: the URL-safe base64 encoding of the
/// bytes, without padding.
#[verifier::external_body]
fn encode_base64_url_safe_no_pad(bytes: &[u8]) -> (r: String)
    ensures
        r@ == base64_url_safe_no_pad(bytes@),
{
    base64::prelude::BASE64_URL_SAFE_NO_PAD.encode(bytes)
}

/// The mDNS service type and service name under which an agent is broadcast: its space and its
/// key, each in URL-safe base64 without padding.
pub fn mdns_service_names(agent_info: &AgentInfo) -> (r: (String, String))
    ensures
        r.0@ == base64_url_safe_no_pad(agent_info.space@),
        r.1@ == base64_url_safe_no_pad(agent_info.agent@),
{
    let space_b64 = encode_base64_url_safe_no_pad(agent_info.space.as_slice());
    let agent_b64 = encode_base64_url_safe_no_pad(agent_info.agent.as_slice());
    (space_b64, agent_b64)
}

/// The mDNS service type under which the agents of a space are listened for.
pub fn mdns_space_service_type(space: &Vec<u8>) -> (r: String)
    ensures
        r@ == base64_url_safe_no_pad(space@),
{
    encode_base64_url_safe_no_pad(space.as_slice())
}

/// The pause, in seconds, between two rounds of broadcasting the local agents.
pub const MDNS_BROADCAST_INTERVAL_SECS: u64 = 5;

} // verus!
